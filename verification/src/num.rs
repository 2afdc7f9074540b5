//! Saturating unsigned arithmetic shared by the counting and aggregation
//! code: counters cap at the largest representable value instead of
//! overflowing.

use vstd::prelude::*;

verus! {

/// A mathematical count clamped to the `u64` range.
pub open spec fn sat_u64(n: nat) -> u64 {
    if n <= u64::MAX {
        n as u64
    } else {
        u64::MAX
    }
}

/// Saturating addition.
pub fn sat_add_u64(a: u64, b: u64) -> (r: u64)
    ensures
        r == sat_u64(a as nat + b as nat),
{
    match a.checked_add(b) {
        Some(v) => v,
        None => u64::MAX,
    }
}

/// Saturating multiplication.
pub fn sat_mul_u64(a: u64, b: u64) -> (r: u64)
    ensures
        r == sat_u64(a as nat * b as nat),
{
    match a.checked_mul(b) {
        Some(v) => v,
        None => u64::MAX,
    }
}

/// Clamping an already clamped count and then adding more clamps the same
/// way as adding first and clamping once.
pub proof fn lemma_sat_u64_absorb(a: nat, b: nat)
    ensures
        sat_u64(sat_u64(a) as nat + b) == sat_u64(a + b),
{
}

} // verus!
