use vstd::prelude::*;

use crate::behavior::{Behavior, STAGE_LENGTH};
use crate::geometry::{flat_between, flat_offset, flatten, Flat, Point};
use crate::policy::{Agent, Site};
use crate::suggesters::{find_site, site_index};

verus! {

/// Walking speed, in hundredths of a unit per second.
pub const WALK_SPEED: i64 = 250;

/// Height a walking or idle dweeb floats at, in hundredths.
pub const WALK_FLOAT: i64 = 200;

/// Height of the jump onto a bed, in hundredths.
pub const JUMP_HEIGHT: i64 = 200;

/// Fastest pull towards a bed's or desk's resting point, in hundredths per second.
pub const SETTLE_SPEED: i64 = 200;

/// Float height while sleeping, in hundredths.
pub const SLEEP_FLOAT: i64 = 100;

/// Float height while scribing, in hundredths.
pub const SCRIBE_FLOAT: i64 = 150;

/// Stage progress per second, in millionths of a stage: deep stages advance at the
/// base rate give or take the jitter, REM stages twice as fast.
pub const DEEP_RATE: i64 = 150_000;
pub const DEEP_JITTER: i64 = 50_000;
pub const REM_RATE: i64 = 300_000;
pub const REM_JITTER: i64 = 100_000;

/// A jitter draw is read as a fraction of 2^31, between -1 and 1.
pub const JITTER_RANGE: i64 = 0x8000_0000;

/// Microseconds in a second.
pub const MICROS: i64 = 1_000_000;

/// What an actor asks of the motion system for one tick.
#[derive(Clone, Copy, Debug, PartialEq, Eq, Structural)]
pub enum Motion {
    /// Walk at `speed` along `heading` (normalised; standing still when it is zero),
    /// facing the way it goes.
    Walk { heading: Flat, speed: i64, float_height: i64 },
    /// Walk along `heading` at `speed`, reaching that speed at once, and jump.
    Leap { heading: Flat, speed: i64, float_height: i64, jump_height: i64 },
    /// Move by `pull` (its length capped at `max_speed`) and face `facing` (normalised).
    Settle { pull: Flat, max_speed: i64, facing: Flat, float_height: i64 },
}

/// What acting out the committed behavior gives for one tick: the behavior with its
/// updated state, the motion request if any, and whether a point was scored.
#[derive(Clone, Copy, Debug, PartialEq, Eq, Structural)]
pub struct Action {
    pub behavior: Behavior,
    pub motion: Option<Motion>,
    pub scored: bool,
}

pub open spec fn stand() -> Motion {
    Motion::Walk { heading: Flat { x: 0, z: 0 }, speed: WALK_SPEED, float_height: WALK_FLOAT }
}

pub open spec fn walk_towards(from: Point, to: Point) -> Motion {
    Motion::Walk { heading: flat_between(from, to), speed: WALK_SPEED, float_height: WALK_FLOAT }
}

/// Progress made in one tick of `dt` microseconds with jitter draw `jitter`.
pub open spec fn stage_step(is_rem: bool, dt: u64, jitter: i32) -> int {
    let (rate, spread) = if is_rem {
        (REM_RATE, REM_JITTER)
    } else {
        (DEEP_RATE, DEEP_JITTER)
    };
    dt * (rate * JITTER_RANGE + spread * jitter) / (JITTER_RANGE * MICROS)
}

/// The sleep stage after one tick: progress grows by the step; on reaching a whole
/// stage it wraps (modulo one stage) and the stage flips between deep and REM.
pub open spec fn advanced(is_rem: bool, progress: u32, dt: u64, jitter: i32) -> (bool, u32) {
    let p = progress + stage_step(is_rem, dt, jitter);
    if p >= STAGE_LENGTH {
        (!is_rem, (p % (STAGE_LENGTH as int)) as u32)
    } else {
        (is_rem, p as u32)
    }
}

/// Advances a sleep stage by one tick.
pub fn advance_sleep(is_rem: bool, progress: u32, dt: u64, jitter: i32) -> (r: (bool, u32))
    requires
        progress < STAGE_LENGTH,
    ensures
        r == advanced(is_rem, progress, dt, jitter),
        r.1 < STAGE_LENGTH,
{
    let (rate, spread) = if is_rem {
        (REM_RATE, REM_JITTER)
    } else {
        (DEEP_RATE, DEEP_JITTER)
    };
    assert(0 <= spread * jitter + spread * JITTER_RANGE <= 2 * spread * JITTER_RANGE
        <= 2 * REM_JITTER * JITTER_RANGE && rate * JITTER_RANGE <= REM_RATE * JITTER_RANGE)
        by (nonlinear_arith)
        requires
            -JITTER_RANGE <= jitter < JITTER_RANGE,
            0 < spread <= REM_JITTER,
            0 < rate <= REM_RATE,
            JITTER_RANGE == 0x8000_0000,
    ;
    let per_second = rate as i128 * JITTER_RANGE as i128 + spread as i128 * jitter as i128;
    assert(0 <= per_second <= 0x4_0000_0000_0000);
    assert(dt * per_second <= 0xFFFF_FFFF_FFFF_FFFF * 0x4_0000_0000_0000) by (nonlinear_arith)
        requires
            0 <= dt <= 0xFFFF_FFFF_FFFF_FFFF,
            0 <= per_second <= 0x4_0000_0000_0000,
    ;
    assert(0 <= dt * per_second) by (nonlinear_arith)
        requires
            0 <= dt,
            0 <= per_second,
    ;
    assert(JITTER_RANGE * MICROS == 2_147_483_648_000_000);
    let step = dt as u128 * per_second as u128 / 2_147_483_648_000_000;
    let p = progress as u128 + step;
    if p >= STAGE_LENGTH as u128 {
        (!is_rem, (p % STAGE_LENGTH as u128) as u32)
    } else {
        (is_rem, p as u32)
    }
}

/// Within a stage progress never falls; it wraps exactly when the stage flips, and
/// then lands on what is left over past the whole stage.
pub proof fn law_sleep_cycle(is_rem: bool, progress: u32, dt: u64, jitter: i32)
    requires
        progress < STAGE_LENGTH,
    ensures
        stage_step(is_rem, dt, jitter) >= 0,
        (advanced(is_rem, progress, dt, jitter).0 != is_rem) <==> progress + stage_step(
            is_rem,
            dt,
            jitter,
        ) >= STAGE_LENGTH,
        advanced(is_rem, progress, dt, jitter).0 == is_rem ==> advanced(
            is_rem,
            progress,
            dt,
            jitter,
        ).1 == progress + stage_step(is_rem, dt, jitter) >= progress,
        advanced(is_rem, progress, dt, jitter).0 != is_rem ==> advanced(
            is_rem,
            progress,
            dt,
            jitter,
        ).1 == (progress + stage_step(is_rem, dt, jitter)) % (STAGE_LENGTH as int),
        advanced(is_rem, progress, dt, jitter).1 < STAGE_LENGTH,
{
    let (rate, spread) = if is_rem {
        (REM_RATE, REM_JITTER)
    } else {
        (DEEP_RATE, DEEP_JITTER)
    };
    let per_second = rate * JITTER_RANGE + spread * jitter;
    assert(0 <= spread * jitter + spread * JITTER_RANGE) by (nonlinear_arith)
        requires
            -JITTER_RANGE <= jitter < JITTER_RANGE,
            0 < spread <= REM_JITTER,
    ;
    assert(0 <= dt * per_second) by (nonlinear_arith)
        requires
            0 <= dt,
            0 <= per_second,
    ;
}

pub open spec fn site_at(sites: Seq<Site>, id: u64) -> Site {
    sites[find_site(sites, id).unwrap()]
}

/// What acting out `b` for a dweeb at `pos` gives, with `dt` microseconds elapsed
/// and `jitter` drawn. A behavior whose bed or desk is gone asks for no motion and
/// keeps its state.
pub open spec fn action_of(
    b: Behavior,
    pos: Point,
    beds: Seq<Site>,
    desks: Seq<Site>,
    dt: u64,
    jitter: i32,
) -> Action {
    let none = Action { behavior: b, motion: None, scored: false };
    match b {
        Behavior::Idle => Action { behavior: b, motion: Some(stand()), scored: false },
        Behavior::WalkToBed { bed } => if find_site(beds, bed) is Some {
            Action {
                behavior: b,
                motion: Some(walk_towards(pos, site_at(beds, bed).center)),
                scored: false,
            }
        } else {
            none
        },
        Behavior::WalkToDesk { desk } => if find_site(desks, desk) is Some {
            Action {
                behavior: b,
                motion: Some(walk_towards(pos, site_at(desks, desk).working_point)),
                scored: false,
            }
        } else {
            none
        },
        Behavior::JumpOnBed { bed } => if find_site(beds, bed) is Some {
            Action {
                behavior: b,
                motion: Some(
                    Motion::Leap {
                        heading: flat_between(pos, site_at(beds, bed).center),
                        speed: WALK_SPEED,
                        float_height: WALK_FLOAT,
                        jump_height: JUMP_HEIGHT,
                    },
                ),
                scored: false,
            }
        } else {
            none
        },
        Behavior::Sleep { bed, stage_is_rem, stage_progress } => if find_site(beds, bed) is Some {
            let site = site_at(beds, bed);
            let (rem, progress) = advanced(stage_is_rem, stage_progress, dt, jitter);
            Action {
                behavior: Behavior::Sleep { bed, stage_is_rem: rem, stage_progress: progress },
                motion: Some(
                    Motion::Settle {
                        pull: flat_between(pos, site.center),
                        max_speed: SETTLE_SPEED,
                        facing: Flat { x: site.forward.x as i64, z: site.forward.z as i64 },
                        float_height: SLEEP_FLOAT,
                    },
                ),
                scored: false,
            }
        } else {
            none
        },
        Behavior::Startled { from_rem, timer } => Action {
            behavior: Behavior::Startled { from_rem, timer: timer.ticked(dt) },
            motion: Some(stand()),
            scored: false,
        },
        Behavior::Scribe { desk, timer } => {
            let t = timer.ticked(dt);
            let after = Behavior::Scribe { desk, timer: t };
            if t.done {
                Action { behavior: after, motion: None, scored: true }
            } else if find_site(desks, desk) is Some {
                let site = site_at(desks, desk);
                Action {
                    behavior: after,
                    motion: Some(
                        Motion::Settle {
                            pull: flat_between(pos, site.working_point),
                            max_speed: SETTLE_SPEED,
                            facing: Flat { x: site.forward.x as i64, z: site.forward.z as i64 },
                            float_height: SCRIBE_FLOAT,
                        },
                    ),
                    scored: false,
                }
            } else {
                Action { behavior: after, motion: None, scored: false }
            }
        },
    }
}

fn walk_motion(from: Point, to: Point) -> (r: Motion)
    ensures
        r == walk_towards(from, to),
{
    Motion::Walk { heading: flat_offset(from, to), speed: WALK_SPEED, float_height: WALK_FLOAT }
}

fn stand_motion() -> (r: Motion)
    ensures
        r == stand(),
{
    Motion::Walk { heading: Flat { x: 0, z: 0 }, speed: WALK_SPEED, float_height: WALK_FLOAT }
}

/// The act stage for one dweeb: acts out its committed behavior for `dt`
/// microseconds, with `jitter` drawn for the sleep stage. The identity of the
/// behavior never changes; only its state does.
pub fn act(agent: &Agent, beds: &Vec<Site>, desks: &Vec<Site>, dt: u64, jitter: i32) -> (r: Action)
    requires
        agent.behavior.wf(),
    ensures
        r == action_of(agent.behavior, agent.position, beds@, desks@, dt, jitter),
        r.behavior.key_of() == agent.behavior.key_of(),
        r.behavior.wf(),
{
    let b = agent.behavior;
    let pos = agent.position;
    let none = Action { behavior: b, motion: None, scored: false };
    match b {
        Behavior::Idle => Action { behavior: b, motion: Some(stand_motion()), scored: false },
        Behavior::WalkToBed { bed } => match site_index(beds, bed) {
            Some(i) => Action {
                behavior: b,
                motion: Some(walk_motion(pos, beds[i].center)),
                scored: false,
            },
            None => none,
        },
        Behavior::WalkToDesk { desk } => match site_index(desks, desk) {
            Some(i) => Action {
                behavior: b,
                motion: Some(walk_motion(pos, desks[i].working_point)),
                scored: false,
            },
            None => none,
        },
        Behavior::JumpOnBed { bed } => match site_index(beds, bed) {
            Some(i) => Action {
                behavior: b,
                motion: Some(
                    Motion::Leap {
                        heading: flat_offset(pos, beds[i].center),
                        speed: WALK_SPEED,
                        float_height: WALK_FLOAT,
                        jump_height: JUMP_HEIGHT,
                    },
                ),
                scored: false,
            },
            None => none,
        },
        Behavior::Sleep { bed, stage_is_rem, stage_progress } => match site_index(beds, bed) {
            Some(i) => {
                let (rem, progress) = advance_sleep(stage_is_rem, stage_progress, dt, jitter);
                Action {
                    behavior: Behavior::Sleep { bed, stage_is_rem: rem, stage_progress: progress },
                    motion: Some(
                        Motion::Settle {
                            pull: flat_offset(pos, beds[i].center),
                            max_speed: SETTLE_SPEED,
                            facing: flatten(beds[i].forward),
                            float_height: SLEEP_FLOAT,
                        },
                    ),
                    scored: false,
                }
            },
            None => none,
        },
        Behavior::Startled { from_rem, timer } => {
            let mut t = timer;
            t.tick(dt);
            Action {
                behavior: Behavior::Startled { from_rem, timer: t },
                motion: Some(stand_motion()),
                scored: false,
            }
        },
        Behavior::Scribe { desk, timer } => {
            let mut t = timer;
            t.tick(dt);
            let after = Behavior::Scribe { desk, timer: t };
            if t.finished() {
                Action { behavior: after, motion: None, scored: true }
            } else {
                match site_index(desks, desk) {
                    Some(i) => Action {
                        behavior: after,
                        motion: Some(
                            Motion::Settle {
                                pull: flat_offset(pos, desks[i].working_point),
                                max_speed: SETTLE_SPEED,
                                facing: flatten(desks[i].forward),
                                float_height: SCRIBE_FLOAT,
                            },
                        ),
                        scored: false,
                    },
                    None => Action { behavior: after, motion: None, scored: false },
                }
            }
        },
    }
}

} // verus!
