//! Wrapping arithmetic used by the generation counters.
//!
//! Cache generations are `u64` counters that advance once per rendered frame
//! and are allowed to wrap. Age comparisons must therefore be made in
//! modular arithmetic: the age of an entry stamped `s` when the clock reads
//! `g` is `wrap_sub(g, s)`, which counts the ticks from `s` to `g` even when
//! the counter has wrapped in between.

use vstd::prelude::*;

verus! {

/// The spec-level wrapping successor of a `u64` counter.
pub open spec fn wrap_inc_spec(a: u64) -> u64 {
    vstd::wrapping::u64_specs::wrapping_add(a, 1)
}

/// The spec-level wrapping difference `a - b` of two `u64` counters.
pub open spec fn wrap_sub_spec(a: u64, b: u64) -> u64 {
    vstd::wrapping::u64_specs::wrapping_sub(a, b)
}

/// The spec-level wrapping sum of a `u64` counter and a non-negative advance.
pub open spec fn wrap_add_int(a: u64, k: int) -> u64 {
    (((a + k) % 0x1_0000_0000_0000_0000) as u64)
}

/// Wrapping increment of a generation counter.
pub fn wrap_add_u64(a: u64, b: u64) -> (r: u64)
    ensures
        r == vstd::wrapping::u64_specs::wrapping_add(a, b),
{
    a.wrapping_add(b)
}

/// Wrapping difference of two generation counters: the number of ticks from
/// `b` up to `a`, taken modulo `2^64`.
pub fn wrap_sub_u64(a: u64, b: u64) -> (r: u64)
    ensures
        r == wrap_sub_spec(a, b),
{
    a.wrapping_sub(b)
}

/// Advancing a counter `k` times from `g` and then measuring the distance
/// back to `g` recovers `k`, for every `k` below the counter's modulus and
/// every starting point `g` — including starting points next to `u64::MAX`.
pub proof fn lemma_wrap_round_trip(g: u64, k: int)
    requires
        0 <= k < 0x1_0000_0000_0000_0000,
    ensures
        wrap_sub_spec(wrap_add_int(g, k), g) == k,
{
}

/// One more tick after `k` wrapping ticks from `g` lands at `k + 1`
/// wrapping ticks from `g`.
pub proof fn lemma_wrap_add_step(g: u64, k: int)
    requires
        0 <= k,
    ensures
        wrap_inc_spec(wrap_add_int(g, k)) == wrap_add_int(g, k + 1),
{
    let m = 0x1_0000_0000_0000_0000int;
    let x = (g + k) % m;
    assert((g + k + 1) % m == (x + 1) % m) by {
        vstd::arithmetic::div_mod::lemma_add_mod_noop(g + k, 1, m);
        vstd::arithmetic::div_mod::lemma_mod_twice(g + k, m);
        vstd::arithmetic::div_mod::lemma_small_mod(1nat, m as nat);
    }
    if x + 1 < m {
        vstd::arithmetic::div_mod::lemma_small_mod((x + 1) as nat, m as nat);
    } else {
        vstd::arithmetic::div_mod::lemma_mod_self_0(m);
    }
}

} // verus!
