//! Adjustments of the brightness and the value each one aims at.

use vstd::prelude::*;
use crate::steps::{get_smart_steps, step_above, step_below, UPPER_BOUND};
use crate::store::clamped;

verus! {

/// A change to the brightness.
#[derive(Clone, Copy, Debug, PartialEq, Eq, Structural)]
pub enum Adjustment {
    /// Set the brightness to the given value.
    SetTo(u32),
    /// Raise the brightness by the given amount.
    IncreaseBy(u32),
    /// Lower the brightness by the given amount.
    DecreaseBy(u32),
    /// Raise the brightness to the next preset level.
    SmartIncrease,
    /// Lower the brightness to the previous preset level.
    SmartDecrease,
}

impl Adjustment {
    /// The brightness this adjustment aims at when the brightness is
    /// `current`, before the store holds it to the upper bound. Sums stop at
    /// `u32::MAX` and differences at 0.
    pub open spec fn target(self, current: u32) -> u32 {
        match self {
            Adjustment::SetTo(value) => value,
            Adjustment::IncreaseBy(change) => if current + change <= u32::MAX {
                (current + change) as u32
            } else {
                u32::MAX
            },
            Adjustment::DecreaseBy(change) => if change <= current {
                (current - change) as u32
            } else {
                0
            },
            Adjustment::SmartIncrease => step_above(current),
            Adjustment::SmartDecrease => step_below(current),
        }
    }

    /// The target of an adjustment that does not depend on the current
    /// brightness.
    pub open spec fn spec_fixed_target(self) -> Option<u32> {
        match self {
            Adjustment::SetTo(value) => Some(value),
            _ => None,
        }
    }

    /// Gives the target when it can be known without reading the current
    /// brightness, which is so for `SetTo` alone.
    #[verifier::when_used_as_spec(spec_fixed_target)]
    pub fn fixed_target(self) -> (target: Option<u32>)
        ensures
            target == self.spec_fixed_target(),
            target matches Some(value) ==> forall|current: u32| self.target(current) == value,
    {
        match self {
            Adjustment::SetTo(value) => Some(value),
            _ => None,
        }
    }
}

/// Computes the brightness to write when `adjustment` is applied to the
/// brightness `current`.
pub fn adjust_brightness(adjustment: Adjustment, current: u32) -> (target: u32)
    ensures
        target == adjustment.target(current),
{
    match adjustment {
        Adjustment::SetTo(value) => value,
        Adjustment::IncreaseBy(change) => current.saturating_add(change),
        Adjustment::DecreaseBy(change) => current.saturating_sub(change),
        Adjustment::SmartIncrease => get_smart_steps(current).1,
        Adjustment::SmartDecrease => get_smart_steps(current).0,
    }
}

/// What a relative increase stores is the sum held to the upper bound,
/// however large the increase.
pub proof fn lemma_increase_stored(current: u32, change: u32)
    ensures
        clamped(Adjustment::IncreaseBy(change).target(current)) <= UPPER_BOUND,
        clamped(Adjustment::IncreaseBy(change).target(current)) == if current + change <= UPPER_BOUND {
            current + change
        } else {
            UPPER_BOUND as int
        },
{
}

/// What a relative decrease stores is the difference, or 0 where the
/// decrease exceeds the current brightness, held to the upper bound.
pub proof fn lemma_decrease_stored(current: u32, change: u32)
    ensures
        clamped(Adjustment::DecreaseBy(change).target(current)) <= UPPER_BOUND,
        clamped(Adjustment::DecreaseBy(change).target(current)) == if current <= change {
            0
        } else if current - change <= UPPER_BOUND {
            current - change
        } else {
            UPPER_BOUND as int
        },
{
}

} // verus!
