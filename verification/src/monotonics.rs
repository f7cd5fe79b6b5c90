//! The monotonic timers that drive the timer queue.
//!
//! [`Systick`] is a 100 Hz monotonic derived from the platform's system
//! timer; [`Systimer`] exposes the same timer at its full 16 MHz tick
//! rate with a 64-bit count.  Each owns a [`TimerQueue`] and forwards
//! the suspension API to it; reading the hardware counter, programming
//! the compare register and pending the interrupt are the platform's
//! work, which hands the observed values in and carries the decisions
//! out.

use vstd::prelude::*;

use crate::time::{spec_add, spec_le, Duration, Instant};
use crate::timer_queue::{contains_waiter, insert_pos, spec_fits, Timeout, TimerQueue, WakeEntry};

verus! {

/// A 100 Hz monotonic timer and its queue of suspended tasks.
pub struct Systick {
    /// Reload value the hardware tick counter was configured with.
    pub reload: u32,
    /// The pending wake-ups keyed by 100 Hz tick instants.
    pub queue: TimerQueue,
}

impl Systick {
    /// The queue is well-formed.
    pub open spec fn wf(&self) -> bool {
        self.queue.wf()
    }

    /// Start the monotonic from the clock frequency `sysclk` the timer
    /// runs at: the hardware reload value divides it down to 100 Hz,
    /// rounding to nearest, and must fit the 24-bit counter.  The queue
    /// starts empty.
    pub fn start(sysclk: u32) -> (s: Systick)
        requires
            sysclk <= 0xffff_ffff - 50,
            (sysclk + 50) / 100 >= 2,
            (sysclk + 50) / 100 - 1 <= 0xff_ffff,
        ensures
            s.wf(),
            s.reload == (sysclk + 50) / 100 - 1,
            s.queue@.len() == 0,
    {
        let reload = (sysclk + 50) / 100 - 1;
        Systick { reload, queue: TimerQueue::new() }
    }

    /// The 100 Hz instant a raw 16 MHz counter value corresponds to.
    pub fn instant_from_raw(raw: u32) -> (r: Instant)
        ensures
            r.ticks == raw / 160_000,
    {
        Instant { ticks: (raw / 160_000) as u64 }
    }

    /// The underlying timer queue.
    pub fn __tq(&self) -> (q: &TimerQueue)
        ensures
            q == &self.queue,
    {
        &self.queue
    }

    /// Suspend `waiter` until `instant`; see [`TimerQueue::delay_until`].
    pub fn delay_until(&mut self, instant: Instant, waiter: u32) -> (new_head: bool)
        requires
            old(self).wf(),
            !contains_waiter(old(self).queue@, waiter),
            spec_fits(old(self).queue@, instant.ticks),
        ensures
            final(self).wf(),
            final(self).reload == old(self).reload,
            final(self).queue@ == old(self).queue@.insert(
                insert_pos(old(self).queue@, instant.ticks),
                WakeEntry { waiter, instant },
            ),
            new_head == (old(self).queue@.len() == 0 || (spec_le(
                instant.ticks,
                old(self).queue@[0].instant.ticks,
            ) && instant.ticks != old(self).queue@[0].instant.ticks)),
    {
        self.queue.delay_until(instant, waiter)
    }

    /// Suspend `waiter` for `duration` past `now`; see
    /// [`TimerQueue::delay`].
    pub fn delay(&mut self, now: Instant, duration: Duration, waiter: u32) -> (new_head: bool)
        requires
            old(self).wf(),
            !contains_waiter(old(self).queue@, waiter),
            spec_fits(old(self).queue@, spec_add(now.ticks, duration.ticks)),
        ensures
            final(self).wf(),
            final(self).reload == old(self).reload,
            final(self).queue@ == old(self).queue@.insert(
                insert_pos(old(self).queue@, spec_add(now.ticks, duration.ticks)),
                WakeEntry { waiter, instant: Instant { ticks: spec_add(now.ticks, duration.ticks) } },
            ),
            new_head == (old(self).queue@.len() == 0 || (spec_le(
                spec_add(now.ticks, duration.ticks),
                old(self).queue@[0].instant.ticks,
            ) && spec_add(now.ticks, duration.ticks) != old(self).queue@[0].instant.ticks)),
    {
        self.queue.delay(now, duration, waiter)
    }

    /// Race the awaited inner operation against `instant`; see
    /// [`TimerQueue::timeout_at`].
    pub fn timeout_at(&mut self, instant: Instant, waiter: u32) -> (t: Timeout)
        requires
            old(self).wf(),
            !contains_waiter(old(self).queue@, waiter),
            spec_fits(old(self).queue@, instant.ticks),
        ensures
            final(self).wf(),
            final(self).reload == old(self).reload,
            final(self).queue@ == old(self).queue@.insert(
                insert_pos(old(self).queue@, instant.ticks),
                WakeEntry { waiter, instant },
            ),
            t == (Timeout { deadline: instant, waiter, done: false }),
    {
        self.queue.timeout_at(instant, waiter)
    }

    /// Race the awaited inner operation against the deadline `duration`
    /// past `now`; see [`TimerQueue::timeout_after`].
    pub fn timeout_after(&mut self, now: Instant, duration: Duration, waiter: u32) -> (t: Timeout)
        requires
            old(self).wf(),
            !contains_waiter(old(self).queue@, waiter),
            spec_fits(old(self).queue@, spec_add(now.ticks, duration.ticks)),
        ensures
            final(self).wf(),
            final(self).reload == old(self).reload,
            t == (Timeout {
                deadline: Instant { ticks: spec_add(now.ticks, duration.ticks) },
                waiter,
                done: false,
            }),
            final(self).queue@ == old(self).queue@.insert(
                insert_pos(old(self).queue@, spec_add(now.ticks, duration.ticks)),
                WakeEntry {
                    waiter,
                    instant: Instant { ticks: spec_add(now.ticks, duration.ticks) },
                },
            ),
    {
        self.queue.timeout_after(now, duration, waiter)
    }
}

/// The 16 MHz, 64-bit system timer and its queue of suspended tasks.
pub struct Systimer {
    /// The pending wake-ups keyed by 16 MHz tick instants.
    pub queue: TimerQueue,
}

impl Systimer {
    /// The queue is well-formed.
    pub open spec fn wf(&self) -> bool {
        self.queue.wf()
    }

    /// Start the monotonic with an empty queue.
    pub fn start() -> (s: Systimer)
        ensures
            s.wf(),
            s.queue@.len() == 0,
    {
        Systimer { queue: TimerQueue::new() }
    }

    /// The instant read from the counter's low and high hardware words.
    pub fn instant_from_parts(lo: u32, hi: u32) -> (r: Instant)
        ensures
            r.ticks == lo + hi * 0x1_0000_0000u64,
    {
        let l: u64 = lo as u64;
        let h: u64 = hi as u64;
        proof {
            assert(l | (h << 32u64) == l + h * 0x1_0000_0000) by (bit_vector)
                requires
                    l <= 0xffff_ffffu64,
                    h <= 0xffff_ffffu64,
            ;
        }
        Instant { ticks: l | (h << 32) }
    }

    /// The low and high hardware words that program the compare
    /// register for `instant`.
    pub fn compare_parts(instant: Instant) -> (r: (u32, u32))
        ensures
            r.0 + r.1 * 0x1_0000_0000u64 == instant.ticks,
    {
        let t = instant.ticks;
        proof {
            assert((t & 0xffff_ffffu64) + (t >> 32u64) * 0x1_0000_0000 == t) by (bit_vector);
            assert((t & 0xffff_ffffu64) <= 0xffff_ffffu64) by (bit_vector);
            assert((t >> 32u64) <= 0xffff_ffffu64) by (bit_vector);
        }
        let lo = (t & 0xffff_ffff) as u32;
        let hi = (t >> 32) as u32;
        (lo, hi)
    }

    /// The underlying timer queue.
    pub fn __tq(&self) -> (q: &TimerQueue)
        ensures
            q == &self.queue,
    {
        &self.queue
    }

    /// Suspend `waiter` until `instant`; see [`TimerQueue::delay_until`].
    pub fn delay_until(&mut self, instant: Instant, waiter: u32) -> (new_head: bool)
        requires
            old(self).wf(),
            !contains_waiter(old(self).queue@, waiter),
            spec_fits(old(self).queue@, instant.ticks),
        ensures
            final(self).wf(),
            final(self).queue@ == old(self).queue@.insert(
                insert_pos(old(self).queue@, instant.ticks),
                WakeEntry { waiter, instant },
            ),
            new_head == (old(self).queue@.len() == 0 || (spec_le(
                instant.ticks,
                old(self).queue@[0].instant.ticks,
            ) && instant.ticks != old(self).queue@[0].instant.ticks)),
    {
        self.queue.delay_until(instant, waiter)
    }

    /// Suspend `waiter` for `duration` past `now`; see
    /// [`TimerQueue::delay`].
    pub fn delay(&mut self, now: Instant, duration: Duration, waiter: u32) -> (new_head: bool)
        requires
            old(self).wf(),
            !contains_waiter(old(self).queue@, waiter),
            spec_fits(old(self).queue@, spec_add(now.ticks, duration.ticks)),
        ensures
            final(self).wf(),
            final(self).queue@ == old(self).queue@.insert(
                insert_pos(old(self).queue@, spec_add(now.ticks, duration.ticks)),
                WakeEntry { waiter, instant: Instant { ticks: spec_add(now.ticks, duration.ticks) } },
            ),
            new_head == (old(self).queue@.len() == 0 || (spec_le(
                spec_add(now.ticks, duration.ticks),
                old(self).queue@[0].instant.ticks,
            ) && spec_add(now.ticks, duration.ticks) != old(self).queue@[0].instant.ticks)),
    {
        self.queue.delay(now, duration, waiter)
    }

    /// Race the awaited inner operation against `instant`; see
    /// [`TimerQueue::timeout_at`].
    pub fn timeout_at(&mut self, instant: Instant, waiter: u32) -> (t: Timeout)
        requires
            old(self).wf(),
            !contains_waiter(old(self).queue@, waiter),
            spec_fits(old(self).queue@, instant.ticks),
        ensures
            final(self).wf(),
            final(self).queue@ == old(self).queue@.insert(
                insert_pos(old(self).queue@, instant.ticks),
                WakeEntry { waiter, instant },
            ),
            t == (Timeout { deadline: instant, waiter, done: false }),
    {
        self.queue.timeout_at(instant, waiter)
    }

    /// Race the awaited inner operation against the deadline `duration`
    /// past `now`; see [`TimerQueue::timeout_after`].
    pub fn timeout_after(&mut self, now: Instant, duration: Duration, waiter: u32) -> (t: Timeout)
        requires
            old(self).wf(),
            !contains_waiter(old(self).queue@, waiter),
            spec_fits(old(self).queue@, spec_add(now.ticks, duration.ticks)),
        ensures
            final(self).wf(),
            t == (Timeout {
                deadline: Instant { ticks: spec_add(now.ticks, duration.ticks) },
                waiter,
                done: false,
            }),
            final(self).queue@ == old(self).queue@.insert(
                insert_pos(old(self).queue@, spec_add(now.ticks, duration.ticks)),
                WakeEntry {
                    waiter,
                    instant: Instant { ticks: spec_add(now.ticks, duration.ticks) },
                },
            ),
    {
        self.queue.timeout_after(now, duration, waiter)
    }
}

} // verus!
