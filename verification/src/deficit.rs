//! The deficit policy: how far below capacity a battery must be for an
//! auction to open, and how much charge that auction asks for.
//!
//! Quantities are unsigned fixed-point numbers: `UNIT` stands for one whole
//! energy unit, and likewise for one percentage point.

use vstd::arithmetic::div_mod::{lemma_div_is_ordered, lemma_fundamental_div_mod};
use vstd::arithmetic::div_mod::lemma_div_multiples_vanish;
use vstd::prelude::*;

verus! {

/// One whole energy unit, or one percentage point, in fixed-point form.
pub const UNIT: u64 = 1_000_000;

/// The deficit, in whole percentage points, from which an auction opens.
pub const DEFICIT_THRESHOLD_PCT: u64 = 20;

/// The share of `max_capacity` that is missing from the battery, in
/// fixed-point percentage points, rounded down. A station without capacity,
/// or one charged to its capacity or beyond, has no deficit.
pub open spec fn deficit_pct(max_capacity: u64, battery_level: u64) -> nat {
    if max_capacity == 0 || battery_level >= max_capacity {
        0
    } else {
        ((max_capacity - battery_level) * 100 * UNIT / (max_capacity as int)) as nat
    }
}

/// The deficit is large enough for an auction to open.
pub open spec fn deficit_triggers(max_capacity: u64, battery_level: u64) -> bool {
    deficit_pct(max_capacity, battery_level) >= DEFICIT_THRESHOLD_PCT * UNIT
}

/// The charge that an auction opened on a deficit of `pct` asks for: one
/// energy unit for each percentage point.
pub open spec fn charge_for_deficit(pct: u64) -> u64 {
    pct
}

/// A deficit is at most a hundred percent.
pub proof fn lemma_deficit_pct_bounded(max_capacity: u64, battery_level: u64)
    ensures
        deficit_pct(max_capacity, battery_level) <= 100 * UNIT,
{
    if max_capacity == 0 || battery_level >= max_capacity {
    } else {
        let missing = (max_capacity - battery_level) as int;
        let capacity = max_capacity as int;
        let factor = 100 * UNIT as int;
        assert(missing * factor <= capacity * factor) by (nonlinear_arith)
            requires
                missing <= capacity,
                factor >= 0,
        ;
        lemma_div_is_ordered(missing * factor, capacity * factor, capacity);
        lemma_div_multiples_vanish(factor, capacity);
        assert(capacity * factor == factor * capacity) by (nonlinear_arith);
        assert(missing * factor == (max_capacity - battery_level) * 100 * UNIT)
            by (nonlinear_arith)
            requires
                missing == max_capacity - battery_level,
                factor == 100 * UNIT,
        ;
    }
}

/// Rounding down loses nothing at the threshold: an auction opens exactly
/// when at least a fifth of the capacity is missing.
pub proof fn lemma_deficit_trigger_exact(max_capacity: u64, battery_level: u64)
    ensures
        deficit_triggers(max_capacity, battery_level) <==> (max_capacity > 0 && battery_level
            <= max_capacity && (max_capacity - battery_level) * 100 >= DEFICIT_THRESHOLD_PCT
            * max_capacity),
{
    if max_capacity == 0 || battery_level >= max_capacity {
    } else {
        let capacity = max_capacity as int;
        let scaled = (max_capacity - battery_level) * 100 * UNIT;
        let floor = DEFICIT_THRESHOLD_PCT * UNIT as int;
        lemma_fundamental_div_mod(scaled, capacity);
        let quotient = scaled / capacity;
        let rest = scaled % capacity;
        assert(0 <= rest < capacity);
        assert(quotient >= floor <==> scaled >= floor * capacity) by (nonlinear_arith)
            requires
                scaled == capacity * quotient + rest,
                0 <= rest < capacity,
        ;
        assert(scaled >= floor * capacity <==> (max_capacity - battery_level) * 100
            >= DEFICIT_THRESHOLD_PCT * max_capacity) by (nonlinear_arith)
            requires
                scaled == (max_capacity - battery_level) * 100 * UNIT,
                floor == DEFICIT_THRESHOLD_PCT * UNIT,
                capacity == max_capacity,
                UNIT > 0,
        ;
    }
}

/// Computes [`deficit_pct`].
pub fn battery_deficit_pct(max_capacity: u64, battery_level: u64) -> (pct: u64)
    ensures
        pct == deficit_pct(max_capacity, battery_level),
        pct <= 100 * UNIT,
{
    if max_capacity == 0 || battery_level >= max_capacity {
        return 0;
    }
    let missing: u128 = (max_capacity - battery_level) as u128;
    assert(missing * 100 * UNIT <= u128::MAX) by (nonlinear_arith)
        requires
            missing <= u64::MAX,
            UNIT == 1_000_000,
    ;
    let scaled: u128 = missing * 100 * (UNIT as u128);
    let pct: u128 = scaled / (max_capacity as u128);
    proof {
        lemma_deficit_pct_bounded(max_capacity, battery_level);
    }
    pct as u64
}

} // verus!
