//! Monotonic time for the timer subsystem.
//!
//! Time is a fixed-width tick counter: an [`Instant`] is a point on that
//! counter and a [`Duration`] a tick count added to it.  The counter wraps
//! at `2^64`, so two instants are ordered by the wraparound-aware
//! comparison [`instant_le`], which is meaningful only while the two
//! instants lie less than half the counter range apart.  Instants exactly
//! half the range apart, or further, are not orderable; this is a
//! documented limitation of the comparison, not a defect.

use vstd::prelude::*;

verus! {

/// Half of the `u64` counter range.  Two instants are orderable when the
/// tick distance between them is below this bound.
pub const HALF_RANGE: u64 = 0x8000_0000_0000_0000;

/// A point in monotonic time, counted in timer ticks modulo `2^64`.
#[derive(Clone, Copy, PartialEq, Eq, Structural, Debug)]
pub struct Instant {
    pub ticks: u64,
}

/// A span of monotonic time, counted in timer ticks.
#[derive(Clone, Copy, PartialEq, Eq, Structural, Debug)]
pub struct Duration {
    pub ticks: u64,
}

/// The tick count from `a` forward to `b`, modulo the counter width.
pub open spec fn ticks_from(a: u64, b: u64) -> u64 {
    if b >= a {
        (b - a) as u64
    } else {
        (b - a + 0x1_0000_0000_0000_0000) as u64
    }
}

/// `a` lies at or before `b`: walking forward from `a`, the counter meets
/// `b` within half its range.
pub open spec fn spec_le(a: u64, b: u64) -> bool {
    ticks_from(a, b) < HALF_RANGE
}

/// The instant `d` ticks after `a`, modulo the counter width.
pub open spec fn spec_add(a: u64, d: u64) -> u64 {
    vstd::wrapping::u64_specs::wrapping_add(a, d)
}

impl Instant {
    /// An instant from a raw tick count.
    pub fn from_ticks(ticks: u64) -> (r: Instant)
        ensures
            r.ticks == ticks,
    {
        Instant { ticks }
    }

    /// The instant `d` after `self`, wrapping at the counter width.
    pub fn plus(self, d: Duration) -> (r: Instant)
        ensures
            r.ticks == spec_add(self.ticks, d.ticks),
    {
        Instant { ticks: self.ticks.wrapping_add(d.ticks) }
    }
}

impl Duration {
    /// A duration from a raw tick count.
    pub fn from_ticks(ticks: u64) -> (r: Duration)
        ensures
            r.ticks == ticks,
    {
        Duration { ticks }
    }
}

/// Wraparound-aware order: `a` fires no later than `b`.
pub fn instant_le(a: Instant, b: Instant) -> (r: bool)
    ensures
        r == spec_le(a.ticks, b.ticks),
{
    b.ticks.wrapping_sub(a.ticks) < HALF_RANGE
}

/// Wraparound-aware expiry: the wake instant `wake` is due at `now`.
pub fn instant_reached(now: Instant, wake: Instant) -> (r: bool)
    ensures
        r == spec_le(wake.ticks, now.ticks),
{
    instant_le(wake, now)
}

/// Stepping from `a` to `b` and on from `b` to `c` covers the distance
/// from `a` to `c`, modulo the counter width.
pub proof fn lemma_ticks_from_additive(a: u64, b: u64, c: u64)
    ensures
        ticks_from(a, c) == if ticks_from(a, b) + ticks_from(b, c) < 0x1_0000_0000_0000_0000 {
            ticks_from(a, b) + ticks_from(b, c)
        } else {
            ticks_from(a, b) + ticks_from(b, c) - 0x1_0000_0000_0000_0000
        },
{
}

/// The tick count from `a` forward to `b` on a counter of modulus `m`.
pub open spec fn mod_ticks_from(m: int, a: int, b: int) -> int {
    if b >= a {
        b - a
    } else {
        b - a + m
    }
}

/// `a` lies at or before `b` on a counter of modulus `m`: walking
/// forward from `a`, the counter meets `b` within half its range.
pub open spec fn mod_le(m: int, a: int, b: int) -> bool {
    mod_ticks_from(m, a, b) < m / 2
}

/// Wraparound correctness, for a counter of any modulus `m`: an instant
/// just under half the counter range ahead of `now` compares as
/// strictly after `now`.  At half the range or beyond the comparison is
/// undefined by design and nothing is claimed of it.
pub proof fn lemma_half_range_orderable(m: int, now: int, wake: int)
    requires
        4 <= m,
        0 <= now < m,
        0 <= wake < m,
        mod_ticks_from(m, now, wake) == m / 2 - 1,
    ensures
        mod_le(m, now, wake),
        !mod_le(m, wake, now),
{
}

/// The `u64` comparison is the general one at modulus `2^64`.
pub proof fn lemma_spec_le_is_mod_le(a: u64, b: u64)
    ensures
        spec_le(a, b) == mod_le(0x1_0000_0000_0000_0000, a as int, b as int),
{
}

/// Wraparound correctness of the `u64` comparison: an instant just
/// under half the counter range ahead of `now` still compares as
/// strictly after `now`.  At half the range or beyond the comparison is
/// undefined by design and nothing is claimed of it.
pub proof fn lemma_half_range_minus_one_is_after(now: u64)
    ensures
        spec_le(now, spec_add(now, (HALF_RANGE - 1) as u64)),
        !spec_le(spec_add(now, (HALF_RANGE - 1) as u64), now),
{
}

} // verus!
