//! The preset brightness levels and the search for the neighbours of a value.
//!
//! Repeated smart steps should land on round numbers and be finer where the
//! eye is more sensitive, so they walk a fixed ascending table of levels
//! instead of adding a fixed amount.

use vstd::prelude::*;

verus! {

/// Highest brightness the backlight accepts.
pub const UPPER_BOUND: u32 = 60000;

/// The preset levels, in strictly ascending order from 0 to [`UPPER_BOUND`].
pub const SMART_STEPS: [u32; 33] = [
    0, 1, 100,
    200, 300, 400,
    600, 800, 1000, 1200, 1400, 1600, 1800, 2000,
    3000, 4000, 5000, 6000,
    8000, 10000, 12000, 14000, 16000, 18000, 20000,
    25000, 30000, 35000, 40000, 45000, 50000, 55000, 60000,
];

/// The table of levels as a sequence.
pub open spec fn steps() -> Seq<u32> {
    SMART_STEPS@
}

/// `v` is one of the preset levels.
pub open spec fn is_step(v: u32) -> bool {
    exists|i: int| 0 <= i < steps().len() && steps()[i] == v
}

/// `s` is the level that a smart increase from `b` goes to: the least level
/// above `b`, or the highest level when none is above.
pub open spec fn is_step_above(b: u32, s: u32) -> bool {
    if b < UPPER_BOUND {
        &&& is_step(s)
        &&& b < s
        &&& forall|t: u32| is_step(t) && b < t ==> s <= t
    } else {
        s == UPPER_BOUND
    }
}

/// `s` is the level that a smart decrease from `b` goes to: the greatest
/// level below `b`, or the lowest level when none is below.
pub open spec fn is_step_below(b: u32, s: u32) -> bool {
    if 0 < b {
        &&& is_step(s)
        &&& s < b
        &&& forall|t: u32| is_step(t) && t < b ==> t <= s
    } else {
        s == 0
    }
}

/// The level a smart increase from `b` goes to.
pub open spec fn step_above(b: u32) -> u32 {
    choose|s: u32| is_step_above(b, s)
}

/// The level a smart decrease from `b` goes to.
pub open spec fn step_below(b: u32) -> u32 {
    choose|s: u32| is_step_below(b, s)
}

/// `i` is where `b` stands in the table, or where it would be inserted to
/// keep the table ascending: every level before `i` is below `b`, and every
/// level from `i` on is at least `b`.
pub open spec fn is_insertion_index(b: u32, i: int) -> bool {
    &&& 0 <= i <= steps().len()
    &&& forall|j: int| 0 <= j < i ==> steps()[j] < b
    &&& forall|j: int| i <= j < steps().len() ==> b <= steps()[j]
}

/// The table has 33 levels, starts at 0, ends at the upper bound, and
/// ascends strictly.
pub proof fn lemma_table_shape()
    ensures
        steps().len() == 33,
        steps()[0] == 0,
        steps()[32] == UPPER_BOUND,
        forall|i: int, j: int| 0 <= i < j < 33 ==> steps()[i] < steps()[j],
{
}

/// For every brightness exactly one level is the step above it and exactly
/// one is the step below it.
pub proof fn lemma_steps_determined(b: u32, up: u32, down: u32)
    requires
        is_step_above(b, up),
        is_step_below(b, down),
    ensures
        step_above(b) == up,
        step_below(b) == down,
{
    let chosen_up = step_above(b);
    let chosen_down = step_below(b);
    assert(is_step_above(b, chosen_up));
    assert(is_step_below(b, chosen_down));
}

/// From a level, a smart increase goes to the next level and a smart
/// decrease to the previous one; the highest level has itself as the next
/// and the lowest has itself as the previous.
pub proof fn lemma_step_from_level(i: int)
    requires
        0 <= i < steps().len(),
    ensures
        step_above(steps()[i]) == steps()[if i + 1 < steps().len() { i + 1 } else { i }],
        step_below(steps()[i]) == steps()[if 0 < i { i - 1 } else { i }],
{
    lemma_table_shape();
    let b = steps()[i];
    let up = steps()[if i + 1 < 33 { i + 1 } else { i }];
    let down = steps()[if 0 < i { i - 1 } else { i }];
    lemma_steps_determined(b, up, down);
}

/// From a brightness strictly between two adjacent levels, a smart increase
/// goes to the upper one and a smart decrease to the lower one.
pub proof fn lemma_step_between_levels(b: u32, i: int)
    requires
        0 <= i,
        i + 1 < steps().len(),
        steps()[i] < b < steps()[i + 1],
    ensures
        step_above(b) == steps()[i + 1],
        step_below(b) == steps()[i],
{
    lemma_table_shape();
    lemma_steps_determined(b, steps()[i + 1], steps()[i]);
}

/// A smart increase at the upper bound and a smart decrease at zero change
/// nothing.
pub proof fn lemma_step_at_bounds()
    ensures
        step_above(UPPER_BOUND) == UPPER_BOUND,
        step_below(0) == 0,
{
    lemma_table_shape();
    lemma_step_from_level(0);
    lemma_step_from_level(32);
}

/// From a brightness that is not a level, a smart increase goes to the level
/// at its insertion index, or to the last level when that index is past the
/// table, and a smart decrease to the level just before the insertion index,
/// or to the first level when the index is 0.
pub proof fn lemma_step_from_insertion_index(b: u32, i: int)
    requires
        !is_step(b),
        is_insertion_index(b, i),
    ensures
        step_above(b) == steps()[if i < steps().len() { i } else { i - 1 }],
        step_below(b) == steps()[if 0 < i { i - 1 } else { i }],
{
    lemma_table_shape();
    let up = steps()[if i < 33 { i } else { i - 1 }];
    let down = steps()[if 0 < i { i - 1 } else { i }];
    lemma_steps_determined(b, up, down);
}

/// Finds `brightness` in the table by binary search: `Ok` with its index
/// when it is a level, `Err` with its insertion index when it is not.
pub fn find_step(brightness: u32) -> (found: Result<usize, usize>)
    ensures
        found is Ok <==> is_step(brightness),
        match found {
            Ok(i) => i < steps().len() && steps()[i as int] == brightness,
            Err(i) => is_insertion_index(brightness, i as int),
        },
{
    proof {
        lemma_table_shape();
    }
    let mut low: usize = 0;
    let mut high: usize = SMART_STEPS.len();
    while low < high
        invariant
            low <= high <= 33,
            steps().len() == 33,
            forall|i: int, j: int| 0 <= i < j < 33 ==> steps()[i] < steps()[j],
            forall|j: int| 0 <= j < low ==> steps()[j] < brightness,
            forall|j: int| high <= j < 33 ==> brightness < steps()[j],
        decreases high - low,
    {
        let middle: usize = low + (high - low) / 2;
        let level: u32 = SMART_STEPS[middle];
        if level == brightness {
            return Ok(middle);
        } else if level < brightness {
            low = middle + 1;
        } else {
            high = middle;
        }
    }
    Err(low)
}

/// Returns the levels that a smart decrease and a smart increase from
/// `brightness` go to, in that order. At the lowest level the decrease stays
/// there; at the highest level, and beyond it, the increase gives the highest
/// level.
pub fn get_smart_steps(brightness: u32) -> (around: (u32, u32))
    ensures
        around.0 == step_below(brightness),
        around.1 == step_above(brightness),
        is_step_below(brightness, around.0),
        is_step_above(brightness, around.1),
{
    proof {
        lemma_table_shape();
    }
    let last: usize = SMART_STEPS.len() - 1;
    let (down_index, up_index): (usize, usize) = match find_step(brightness) {
        // the level at the found index is the value itself: take those around it
        Ok(index) => (index.saturating_sub(1), index + 1),
        // the level to the right is at the insertion index, the one to the
        // left is just before it
        Err(insert_index) => (insert_index.saturating_sub(1), insert_index),
    };
    let up_index: usize = if up_index < last { up_index } else { last };
    let around = (SMART_STEPS[down_index], SMART_STEPS[up_index]);
    proof {
        lemma_steps_determined(brightness, around.1, around.0);
    }
    around
}

} // verus!
