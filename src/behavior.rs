use vstd::prelude::*;

use crate::countdown::Countdown;

verus! {

/// One sleep stage, in millionths: `stage_progress` always stays below this.
pub const STAGE_LENGTH: u32 = 1_000_000;

/// What a dweeb is doing. The ids name beds and desks.
///
/// A variant's identity is its kind together with the bed or desk it refers to
/// (see `BehaviorKey`); its other fields are state that only lasts while that
/// identity stays committed.
#[derive(Clone, Copy, Debug, PartialEq, Eq, Structural)]
pub enum Behavior {
    Idle,
    WalkToBed { bed: u64 },
    JumpOnBed { bed: u64 },
    Sleep { bed: u64, stage_is_rem: bool, stage_progress: u32 },
    Startled { from_rem: bool, timer: Countdown },
    WalkToDesk { desk: u64 },
    Scribe { desk: u64, timer: Countdown },
}

/// The identity of a behavior: its kind and the resource it refers to.
#[derive(Clone, Copy, Debug, PartialEq, Eq, Structural)]
pub enum BehaviorKey {
    Idle,
    WalkToBed(u64),
    JumpOnBed(u64),
    Sleep(u64),
    Startled,
    WalkToDesk(u64),
    Scribe(u64),
}

/// The visual overlay shown above a dweeb.
#[derive(Clone, Copy, Debug, PartialEq, Eq, Structural)]
pub enum DweebEffect {
    Nothing,
    Zs { is_rem: bool },
    Confusion,
    Lightbulb,
}

impl Behavior {
    pub open spec fn wf(self) -> bool {
        match self {
            Behavior::Sleep { stage_progress, .. } => stage_progress < STAGE_LENGTH,
            Behavior::Startled { timer, .. } => timer.wf(),
            Behavior::Scribe { timer, .. } => timer.wf(),
            _ => true,
        }
    }

    pub open spec fn key_of(self) -> BehaviorKey {
        match self {
            Behavior::Idle => BehaviorKey::Idle,
            Behavior::WalkToBed { bed } => BehaviorKey::WalkToBed(bed),
            Behavior::JumpOnBed { bed } => BehaviorKey::JumpOnBed(bed),
            Behavior::Sleep { bed, .. } => BehaviorKey::Sleep(bed),
            Behavior::Startled { .. } => BehaviorKey::Startled,
            Behavior::WalkToDesk { desk } => BehaviorKey::WalkToDesk(desk),
            Behavior::Scribe { desk, .. } => BehaviorKey::Scribe(desk),
        }
    }

    /// The identity of this behavior.
    pub fn key(&self) -> (r: BehaviorKey)
        ensures
            r == self.key_of(),
    {
        match self {
            Behavior::Idle => BehaviorKey::Idle,
            Behavior::WalkToBed { bed } => BehaviorKey::WalkToBed(*bed),
            Behavior::JumpOnBed { bed } => BehaviorKey::JumpOnBed(*bed),
            Behavior::Sleep { bed, .. } => BehaviorKey::Sleep(*bed),
            Behavior::Startled { .. } => BehaviorKey::Startled,
            Behavior::WalkToDesk { desk } => BehaviorKey::WalkToDesk(*desk),
            Behavior::Scribe { desk, .. } => BehaviorKey::Scribe(*desk),
        }
    }

    pub open spec fn effect_of(self) -> DweebEffect {
        match self {
            Behavior::Sleep { stage_is_rem, .. } => DweebEffect::Zs { is_rem: stage_is_rem },
            Behavior::Startled { from_rem, .. } => if from_rem {
                DweebEffect::Lightbulb
            } else {
                DweebEffect::Confusion
            },
            Behavior::WalkToDesk { .. } => DweebEffect::Lightbulb,
            Behavior::Scribe { .. } => DweebEffect::Lightbulb,
            _ => DweebEffect::Nothing,
        }
    }

    /// The overlay for this behavior: Zs while asleep, a lightbulb when heading for or
    /// working at a desk (or woken from REM), confusion when woken from deep sleep.
    pub fn effect(&self) -> (r: DweebEffect)
        ensures
            r == self.effect_of(),
    {
        match self {
            Behavior::Sleep { stage_is_rem, .. } => DweebEffect::Zs { is_rem: *stage_is_rem },
            Behavior::Startled { from_rem, .. } => if *from_rem {
                DweebEffect::Lightbulb
            } else {
                DweebEffect::Confusion
            },
            Behavior::WalkToDesk { .. } => DweebEffect::Lightbulb,
            Behavior::Scribe { .. } => DweebEffect::Lightbulb,
            _ => DweebEffect::Nothing,
        }
    }
}

impl DweebEffect {
    pub open spec fn same_kind_as(self, other: DweebEffect) -> bool {
        match (self, other) {
            (DweebEffect::Nothing, DweebEffect::Nothing) => true,
            (DweebEffect::Zs { .. }, DweebEffect::Zs { .. }) => true,
            (DweebEffect::Confusion, DweebEffect::Confusion) => true,
            (DweebEffect::Lightbulb, DweebEffect::Lightbulb) => true,
            _ => false,
        }
    }

    /// Whether two overlays are of the same variant, whatever their fields; the
    /// overlay's particle is replaced only when this is false.
    pub fn same_kind(&self, other: &DweebEffect) -> (r: bool)
        ensures
            r == self.same_kind_as(*other),
    {
        match (self, other) {
            (DweebEffect::Nothing, DweebEffect::Nothing) => true,
            (DweebEffect::Zs { .. }, DweebEffect::Zs { .. }) => true,
            (DweebEffect::Confusion, DweebEffect::Confusion) => true,
            (DweebEffect::Lightbulb, DweebEffect::Lightbulb) => true,
            _ => false,
        }
    }
}

} // verus!
