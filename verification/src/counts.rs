//! Counters: what a sum is once it no longer fits.
use vstd::prelude::*;

verus! {

/// A sum of 64-bit counters; past the largest value it starts over.
pub open spec fn wrapping_sum(a: u64, b: u64) -> u64 {
    ((a + b) % 0x1_0000_0000_0000_0000) as u64
}

pub fn wrapping_total(a: u64, b: u64) -> (r: u64)
    ensures
        r == wrapping_sum(a, b),
{
    a.wrapping_add(b)
}

/// A sum of 32-bit counters; past the largest value it stays there.
pub open spec fn held_sum(a: u32, b: u32) -> u32 {
    if a + b > u32::MAX {
        u32::MAX
    } else {
        (a + b) as u32
    }
}

pub fn held_total(a: u32, b: u32) -> (r: u32)
    ensures
        r == held_sum(a, b),
{
    a.saturating_add(b)
}

/// The same for 64-bit counters.
pub open spec fn held_sum_u64(a: u64, b: u64) -> u64 {
    if a + b > u64::MAX {
        u64::MAX
    } else {
        (a + b) as u64
    }
}

pub fn held_total_u64(a: u64, b: u64) -> (r: u64)
    ensures
        r == held_sum_u64(a, b),
{
    a.saturating_add(b)
}

} // verus!
