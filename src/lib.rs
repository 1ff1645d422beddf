//! Decision core for autonomous dweebs: weighted behavior suggestions, arbitration,
//! contention over beds and desks, and the per-behavior actors.
//!
//! All quantities are fixed-point integers: lengths in hundredths of a world unit,
//! times in microseconds, sleep-stage progress in millionths of a stage.

pub mod actors;
pub mod advisor;
pub mod behavior;
pub mod countdown;
pub mod game;
pub mod geometry;
pub mod policy;
pub mod score;
pub mod suggesters;

pub use actors::{act, advance_sleep, Action, Motion};
pub use advisor::{Advisor, Suggestion};
pub use behavior::{Behavior, BehaviorKey, DweebEffect, STAGE_LENGTH};
pub use countdown::Countdown;
pub use game::{ActionForKbgp, AppState, FocusLabel, GameData, IncreaseScore};
pub use geometry::{Flat, Point, UNIT};
pub use policy::{destination_statuses, Agent, DestinationKind, DestinationStatus, Site};
pub use score::Score;
pub use suggesters::{suggest_all, suggest_for};
