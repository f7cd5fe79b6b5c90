//! The timer queue: an ordered wait-list of suspended tasks keyed by wake
//! instant.
//!
//! Each [`WakeEntry`] pairs a waiter (the suspended continuation, named by
//! an identifier) with its target wake instant.  The pending set is kept
//! ordered by the wraparound-aware instant comparison of the
//! [`crate::time`] module, so the head is always the next instant that
//! needs a hardware compare interrupt, also across the counter wrap.
//! That comparison is meaningful only within half the counter range, so
//! the queue keeps every pending instant within half a range forward of
//! its head, and a client must not queue an instant further than that
//! from the already queued ones — the documented limitation of the
//! counter, not a defect.

use vstd::prelude::*;

use crate::time::{
    lemma_ticks_from_additive, spec_add, spec_le, ticks_from, Duration, Instant, instant_reached,
    HALF_RANGE,
};

verus! {

/// One suspended waiter and the instant at which it must be resumed.
#[derive(Clone, Copy, PartialEq, Eq, Structural, Debug)]
pub struct WakeEntry {
    /// Identifier of the suspended continuation to resume.
    pub waiter: u32,
    /// Target wake instant.
    pub instant: Instant,
}

/// The error returned to a caller whose deadline won the timeout race.
#[derive(Clone, Copy, PartialEq, Eq, Structural, Debug)]
pub struct TimeoutError;

/// The pending wake entries, ordered by wake instant.
pub struct TimerQueue {
    entries: Vec<WakeEntry>,
}

/// The suspended side of a timeout race: a deadline queued for `waiter`,
/// racing the awaited inner operation.  `done` becomes true once the race
/// is decided, after which the caller must not poll again; if the
/// deadline won, the abandoned inner operation is never resumed.
#[derive(Clone, Copy, PartialEq, Eq, Structural, Debug)]
pub struct Timeout {
    /// The instant at which the race is lost.
    pub deadline: Instant,
    /// Identifier of the continuation awaiting the race.
    pub waiter: u32,
    /// Whether the race has been decided.
    pub done: bool,
}

/// The tick distance of entry `i` past the queue head: the key the
/// queue is ordered by.
pub open spec fn key(s: Seq<WakeEntry>, i: int) -> u64 {
    ticks_from(s[0].instant.ticks, s[i].instant.ticks)
}

/// Entries lie within half the counter range forward of the head and
/// appear in ascending wraparound order from it; equal instants keep
/// their insertion order.
pub open spec fn sorted(s: Seq<WakeEntry>) -> bool {
    &&& forall|i: int| 0 <= i < s.len() ==> #[trigger] key(s, i) < HALF_RANGE
    &&& forall|i: int, j: int| 0 <= i < j < s.len() ==> #[trigger] key(s, i) <= #[trigger] key(s, j)
}

/// No waiter is queued twice.
pub open spec fn waiters_distinct(s: Seq<WakeEntry>) -> bool {
    forall|i: int, j: int|
        0 <= i < j < s.len() ==> #[trigger] s[i].waiter != #[trigger] s[j].waiter
}

/// Some entry of `s` belongs to `waiter`.
pub open spec fn contains_waiter(s: Seq<WakeEntry>, waiter: u32) -> bool {
    exists|i: int| 0 <= i < s.len() && #[trigger] s[i].waiter == waiter
}

/// The instant the queue window is measured from once an entry with
/// wake instant `t` joins: `t` itself if it fires no later than the
/// current head, otherwise the current head.
pub open spec fn insert_base(s: Seq<WakeEntry>, t: u64) -> u64 {
    if s.len() == 0 {
        t
    } else if spec_le(t, s[0].instant.ticks) {
        t
    } else {
        s[0].instant.ticks
    }
}

/// A new wake instant `t` fits the queue: measured from the window base
/// it would establish, `t` and every queued instant lie within half the
/// counter range.  Instants further apart are not orderable and must
/// not share a queue.
pub open spec fn spec_fits(s: Seq<WakeEntry>, t: u64) -> bool {
    &&& ticks_from(insert_base(s, t), t) < HALF_RANGE
    &&& forall|i: int|
        0 <= i < s.len() ==> ticks_from(insert_base(s, t), #[trigger] s[i].instant.ticks)
            < HALF_RANGE
}

/// The position at which an entry with wake instant `t` is inserted:
/// after every queued entry that fires no later than `t`, measured from
/// the window base `b`.
pub open spec fn insert_pos_from(b: u64, s: Seq<WakeEntry>, t: u64) -> int
    decreases s.len(),
{
    if s.len() == 0 {
        0
    } else if ticks_from(b, t) < ticks_from(b, s[0].instant.ticks) {
        0
    } else {
        1 + insert_pos_from(b, s.drop_first(), t)
    }
}

/// The position at which an entry with wake instant `t` is inserted.
pub open spec fn insert_pos(s: Seq<WakeEntry>, t: u64) -> int {
    insert_pos_from(insert_base(s, t), s, t)
}

/// The number of leading entries of `s` that are due at `now`.
pub open spec fn expired_prefix_len(s: Seq<WakeEntry>, now: u64) -> int
    decreases s.len(),
{
    if s.len() == 0 {
        0
    } else if spec_le(s[0].instant.ticks, now) {
        1 + expired_prefix_len(s.drop_first(), now)
    } else {
        0
    }
}

/// The index of the entry that belongs to `waiter`, when there is one.
pub open spec fn waiter_pos(s: Seq<WakeEntry>, waiter: u32) -> int
    decreases s.len(),
{
    if s.len() == 0 {
        0
    } else if s[0].waiter == waiter {
        0
    } else {
        1 + waiter_pos(s.drop_first(), waiter)
    }
}

/// `insert_pos_from` is the length of the longest prefix whose keys do
/// not exceed the key of `t`.
pub proof fn lemma_insert_pos_props(b: u64, s: Seq<WakeEntry>, t: u64)
    ensures
        0 <= insert_pos_from(b, s, t) <= s.len(),
        forall|j: int|
            0 <= j < insert_pos_from(b, s, t) ==> ticks_from(b, #[trigger] s[j].instant.ticks)
                <= ticks_from(b, t),
        insert_pos_from(b, s, t) < s.len() ==> ticks_from(b, t) < ticks_from(
            b,
            s[insert_pos_from(b, s, t)].instant.ticks,
        ),
    decreases s.len(),
{
    if s.len() > 0 && !(ticks_from(b, t) < ticks_from(b, s[0].instant.ticks)) {
        lemma_insert_pos_props(b, s.drop_first(), t);
        assert forall|j: int| 0 <= j < insert_pos_from(b, s, t) implies ticks_from(
            b,
            #[trigger] s[j].instant.ticks,
        ) <= ticks_from(b, t) by {
            if j > 0 {
                assert(s.drop_first()[j - 1] == s[j]);
            }
        }
        if insert_pos_from(b, s, t) < s.len() {
            assert(s.drop_first()[insert_pos_from(b, s, t) - 1] == s[insert_pos_from(b, s, t)]);
        }
    }
}

/// `expired_prefix_len` is the length of the longest prefix due at `now`.
pub proof fn lemma_expired_prefix_props(s: Seq<WakeEntry>, now: u64)
    ensures
        0 <= expired_prefix_len(s, now) <= s.len(),
        forall|j: int|
            0 <= j < expired_prefix_len(s, now) ==> spec_le(#[trigger] s[j].instant.ticks, now),
        expired_prefix_len(s, now) < s.len() ==> !spec_le(
            s[expired_prefix_len(s, now)].instant.ticks,
            now,
        ),
    decreases s.len(),
{
    if s.len() > 0 && spec_le(s[0].instant.ticks, now) {
        lemma_expired_prefix_props(s.drop_first(), now);
        assert forall|j: int| 0 <= j < expired_prefix_len(s, now) implies spec_le(
            #[trigger] s[j].instant.ticks,
            now,
        ) by {
            if j > 0 {
                assert(s.drop_first()[j - 1] == s[j]);
            }
        }
        if expired_prefix_len(s, now) < s.len() {
            assert(s.drop_first()[expired_prefix_len(s, now) - 1] == s[expired_prefix_len(
                s,
                now,
            )]);
        }
    }
}

/// When `waiter` is queued, `waiter_pos` finds its (unique) entry.
pub proof fn lemma_waiter_pos_props(s: Seq<WakeEntry>, waiter: u32)
    requires
        contains_waiter(s, waiter),
    ensures
        0 <= waiter_pos(s, waiter) < s.len(),
        s[waiter_pos(s, waiter)].waiter == waiter,
        forall|j: int| 0 <= j < waiter_pos(s, waiter) ==> #[trigger] s[j].waiter != waiter,
    decreases s.len(),
{
    if s.len() > 0 && s[0].waiter != waiter {
        assert(contains_waiter(s.drop_first(), waiter)) by {
            let i = choose|i: int| 0 <= i < s.len() && #[trigger] s[i].waiter == waiter;
            assert(s.drop_first()[i - 1] == s[i]);
        }
        lemma_waiter_pos_props(s.drop_first(), waiter);
        assert forall|j: int| 0 <= j < waiter_pos(s, waiter) implies #[trigger] s[j].waiter
            != waiter by {
            if j > 0 {
                assert(s.drop_first()[j - 1] == s[j]);
            }
        }
        assert(s.drop_first()[waiter_pos(s, waiter) - 1] == s[waiter_pos(s, waiter)]);
    }
}

/// Between two entries of an ordered queue, the wraparound distance is
/// the difference of their keys.
pub proof fn lemma_key_distance(s: Seq<WakeEntry>, i: int, j: int)
    requires
        sorted(s),
        0 <= i <= j < s.len(),
    ensures
        ticks_from(s[i].instant.ticks, s[j].instant.ticks) == key(s, j) - key(s, i),
{
    lemma_ticks_from_additive(s[0].instant.ticks, s[i].instant.ticks, s[j].instant.ticks);
}

/// Within an ordered queue, the wraparound comparison agrees with the
/// key order: an entry fires no later than another exactly when its key
/// does not exceed the other's.
pub proof fn lemma_key_order(s: Seq<WakeEntry>, i: int, j: int)
    requires
        sorted(s),
        0 <= i < s.len(),
        0 <= j < s.len(),
    ensures
        spec_le(s[i].instant.ticks, s[j].instant.ticks) == (key(s, i) <= key(s, j)),
{
    if i <= j {
        lemma_key_distance(s, i, j);
    } else {
        lemma_key_distance(s, j, i);
    }
}

/// Dropping leading entries keeps the queue ordered; the new head
/// becomes the window base.
pub proof fn lemma_sorted_skip(s: Seq<WakeEntry>, n: int)
    requires
        sorted(s),
        0 <= n <= s.len(),
    ensures
        sorted(s.skip(n)),
    decreases s.len() - n,
{
    let r = s.skip(n);
    assert forall|i: int| 0 <= i < r.len() implies #[trigger] key(r, i) < HALF_RANGE by {
        assert(r[0] == s[n]);
        assert(r[i] == s[n + i]);
        lemma_key_distance(s, n, n + i);
    }
    assert forall|i: int, j: int| 0 <= i < j < r.len() implies #[trigger] key(r, i)
        <= #[trigger] key(r, j) by {
        assert(r[0] == s[n]);
        assert(r[i] == s[n + i]);
        assert(r[j] == s[n + j]);
        lemma_key_distance(s, n, n + i);
        lemma_key_distance(s, n, n + j);
    }
}

impl TimerQueue {
    /// The queued entries, head first.
    pub closed spec fn view(&self) -> Seq<WakeEntry> {
        self.entries@
    }

    /// Well-formed: ordered by wake instant, one entry per waiter.
    pub open spec fn wf(&self) -> bool {
        sorted(self@) && waiters_distinct(self@)
    }

    /// An empty queue.
    pub fn new() -> (q: TimerQueue)
        ensures
            q@ == Seq::<WakeEntry>::empty(),
            q.wf(),
    {
        TimerQueue { entries: Vec::new() }
    }

    /// The number of pending entries.
    pub fn len(&self) -> (n: usize)
        ensures
            n == self@.len(),
    {
        self.entries.len()
    }

    /// Whether any entry is pending.
    pub fn is_empty(&self) -> (r: bool)
        ensures
            r == (self@.len() == 0),
    {
        self.entries.is_empty()
    }

    /// The entry at position `i`, head first.
    pub fn entry_at(&self, i: usize) -> (e: WakeEntry)
        requires
            i < self@.len(),
        ensures
            e == self@[i as int],
    {
        self.entries[i]
    }

    /// The next instant that requires a hardware compare interrupt, if
    /// any entry is pending.
    pub fn next_wake(&self) -> (r: Option<Instant>)
        ensures
            self@.len() == 0 ==> r is None,
            self@.len() > 0 ==> r == Some(self@[0].instant),
    {
        if self.entries.is_empty() {
            None
        } else {
            Some(self.entries[0].instant)
        }
    }

    /// Queue `entry`, keeping the pending set ordered by wake instant
    /// under the wraparound comparison.  Returns whether the queue head
    /// changed, in which case the hardware compare register must be
    /// reprogrammed to the new earliest deadline.
    pub fn insert(&mut self, entry: WakeEntry) -> (new_head: bool)
        requires
            old(self).wf(),
            !contains_waiter(old(self)@, entry.waiter),
            spec_fits(old(self)@, entry.instant.ticks),
        ensures
            final(self).wf(),
            final(self)@ == old(self)@.insert(insert_pos(old(self)@, entry.instant.ticks), entry),
            new_head == (old(self)@.len() == 0 || (spec_le(
                entry.instant.ticks,
                old(self)@[0].instant.ticks,
            ) && entry.instant.ticks != old(self)@[0].instant.ticks)),
    {
        let ghost s = self.entries@;
        let t = entry.instant.ticks;
        let base: u64 = if self.entries.len() == 0 {
            t
        } else {
            let h = self.entries[0].instant.ticks;
            if h.wrapping_sub(t) < HALF_RANGE {
                t
            } else {
                h
            }
        };
        proof {
            assert(base == insert_base(s, t));
        }
        let key_t = t.wrapping_sub(base);
        let mut i: usize = 0;
        while i < self.entries.len() && self.entries[i].instant.ticks.wrapping_sub(base) <= key_t
            invariant
                self.entries@ == s,
                base == insert_base(s, t),
                key_t == ticks_from(base, t),
                0 <= i <= s.len(),
                forall|j: int|
                    0 <= j < i ==> ticks_from(base, #[trigger] s[j].instant.ticks) <= ticks_from(
                        base,
                        t,
                    ),
            decreases s.len() - i,
        {
            i += 1;
        }
        proof {
            lemma_insert_pos_props(base, s, t);
            // the scan stopped exactly at the insertion position
            let p = insert_pos_from(base, s, t);
            if p < i {
                assert(ticks_from(base, s[p].instant.ticks) <= ticks_from(base, t));
            }
            if i < p {
                assert(ticks_from(base, t) < ticks_from(base, s[i as int].instant.ticks));
            }
        }
        self.entries.insert(i, entry);
        proof {
            let p = i as int;
            let ns = self.entries@;
            // the new head's instant is the window base
            if s.len() > 0 {
                if p == 0 {
                    // the scan stopped before the old head, so the new
                    // entry strictly precedes it and supplied the base
                    assert(ticks_from(base, t) < ticks_from(base, s[0].instant.ticks));
                    assert(base == t);
                } else {
                    // the old head was scanned over, so it keeps the base
                    assert(ticks_from(base, s[0].instant.ticks) <= ticks_from(base, t));
                    assert(base == s[0].instant.ticks);
                }
            }
            assert(ns[0] == if p == 0 {
                entry
            } else {
                s[0]
            });
            assert(ns[0].instant.ticks == base);
            // distances from the base order the old entries as their
            // keys do: the base precedes the old head within the window
            if s.len() > 0 {
                let c = ticks_from(base, s[0].instant.ticks);
                assert(c < HALF_RANGE);
                assert forall|m: int| 0 <= m < s.len() implies ticks_from(
                    base,
                    #[trigger] s[m].instant.ticks,
                ) == c + key(s, m) by {
                    lemma_ticks_from_additive(base, s[0].instant.ticks, s[m].instant.ticks);
                }
            }
            assert forall|a: int| 0 <= a < ns.len() implies #[trigger] key(ns, a)
                < HALF_RANGE by {
                assert(ns[a] == if a < p {
                    s[a]
                } else if a == p {
                    entry
                } else {
                    s[a - 1]
                });
                assert(ticks_from(base, ns[a].instant.ticks) < HALF_RANGE);
            }
            assert forall|a: int, b: int| 0 <= a < b < ns.len() implies #[trigger] key(ns, a)
                <= #[trigger] key(ns, b) by {
                assert(ns[a] == if a < p {
                    s[a]
                } else if a == p {
                    entry
                } else {
                    s[a - 1]
                });
                assert(ns[b] == if b < p {
                    s[b]
                } else if b == p {
                    entry
                } else {
                    s[b - 1]
                });
                if a < p && b < p {
                    assert(key(s, a) <= key(s, b));
                } else if a < p && b == p {
                    assert(ticks_from(base, s[a].instant.ticks) <= ticks_from(base, t));
                } else if a < p && b > p {
                    assert(key(s, a) <= key(s, b - 1));
                } else if a == p && b > p {
                    assert(ticks_from(base, t) < ticks_from(base, s[p].instant.ticks));
                    assert(key(s, p) <= key(s, b - 1));
                } else {
                    assert(key(s, a - 1) <= key(s, b - 1));
                }
            }
            assert forall|a: int, b: int| 0 <= a < b < ns.len() implies #[trigger] ns[a].waiter
                != #[trigger] ns[b].waiter by {
                if a != p && b != p {
                    let oa = if a < p {
                        a
                    } else {
                        a - 1
                    };
                    let ob = if b < p {
                        b
                    } else {
                        b - 1
                    };
                    assert(ns[a] == s[oa] && ns[b] == s[ob]);
                } else if a == p {
                    assert(ns[b] == s[b - 1]);
                } else {
                    assert(ns[a] == s[a]);
                }
            }
            // whether the head changed
            if s.len() > 0 {
                if spec_le(t, s[0].instant.ticks) && t != s[0].instant.ticks {
                    assert(base == t);
                    assert(ticks_from(t, t) == 0);
                    assert(ticks_from(t, s[0].instant.ticks) > 0);
                    assert(i == 0);
                } else {
                    assert(ticks_from(base, s[0].instant.ticks) <= ticks_from(base, t));
                    assert(i > 0);
                }
            }
        }
        i == 0
    }

    /// Remove and return, head first, every entry whose wake instant is
    /// due at `now` under the wraparound-aware comparison.
    pub fn pop_expired(&mut self, now: Instant) -> (woken: Vec<WakeEntry>)
        requires
            old(self).wf(),
        ensures
            final(self).wf(),
            woken@ == old(self)@.take(expired_prefix_len(old(self)@, now.ticks)),
            final(self)@ == old(self)@.skip(expired_prefix_len(old(self)@, now.ticks)),
    {
        let ghost s = self.entries@;
        let mut woken: Vec<WakeEntry> = Vec::new();
        let mut k: usize = 0;
        while k < self.entries.len() && instant_reached(now, self.entries[k].instant)
            invariant
                self.entries@ == s,
                0 <= k <= s.len(),
                forall|j: int| 0 <= j < k ==> spec_le(#[trigger] s[j].instant.ticks, now.ticks),
                woken@ == s.take(k as int),
            decreases s.len() - k,
        {
            woken.push(self.entries[k]);
            proof {
                assert(s.take(k + 1) == s.take(k as int).push(s[k as int]));
            }
            k += 1;
        }
        proof {
            lemma_expired_prefix_props(s, now.ticks);
            let p = expired_prefix_len(s, now.ticks);
            if p < k {
                assert(spec_le(s[p].instant.ticks, now.ticks));
            }
            if k < p {
                assert(spec_le(s[k as int].instant.ticks, now.ticks));
            }
        }
        let mut r: usize = 0;
        while r < k
            invariant
                r <= k,
                k <= s.len(),
                self.entries@ == s.skip(r as int),
            decreases k - r,
        {
            self.entries.remove(0);
            proof {
                assert(s.skip(r as int).remove(0) == s.skip(r + 1));
            }
            r += 1;
        }
        proof {
            lemma_sorted_skip(s, k as int);
            let ns = self.entries@;
            assert(ns == s.skip(k as int));
            assert forall|a: int, b: int| 0 <= a < b < ns.len() implies #[trigger] ns[a].waiter
                != #[trigger] ns[b].waiter by {
                assert(ns[a] == s[a + k] && ns[b] == s[b + k]);
            }
        }
        woken
    }

    /// Remove the entry of `waiter` without resuming it, as happens when
    /// the awaiting continuation is dropped before firing.  Returns
    /// whether an entry was removed.
    pub fn cancel(&mut self, waiter: u32) -> (found: bool)
        requires
            old(self).wf(),
        ensures
            final(self).wf(),
            found == contains_waiter(old(self)@, waiter),
            found ==> final(self)@ == old(self)@.remove(waiter_pos(old(self)@, waiter)),
            !found ==> final(self)@ == old(self)@,
            !contains_waiter(final(self)@, waiter),
    {
        let ghost s = self.entries@;
        let mut i: usize = 0;
        while i < self.entries.len() && self.entries[i].waiter != waiter
            invariant
                self.entries@ == s,
                0 <= i <= s.len(),
                forall|j: int| 0 <= j < i ==> #[trigger] s[j].waiter != waiter,
            decreases s.len() - i,
        {
            i += 1;
        }
        if i == self.entries.len() {
            assert(!contains_waiter(s, waiter));
            false
        } else {
            proof {
                lemma_waiter_pos_props(s, waiter);
                let p = waiter_pos(s, waiter);
                if p < i {
                    assert(s[p].waiter == waiter);
                }
                if i < p {
                    assert(s[i as int].waiter != waiter);
                }
            }
            self.entries.remove(i);
            proof {
                let p = i as int;
                let ns = self.entries@;
                if p == 0 {
                    lemma_sorted_skip(s, 1);
                    assert(ns =~= s.skip(1));
                } else {
                    assert forall|a: int| 0 <= a < ns.len() implies #[trigger] key(ns, a)
                        < HALF_RANGE by {
                        let oa = if a < p {
                            a
                        } else {
                            a + 1
                        };
                        assert(ns[a] == s[oa]);
                        assert(ns[0] == s[0]);
                        assert(key(s, oa) < HALF_RANGE);
                        assert(key(ns, a) == key(s, oa));
                    }
                    assert forall|a: int, b: int| 0 <= a < b < ns.len() implies #[trigger] key(
                        ns,
                        a,
                    ) <= #[trigger] key(ns, b) by {
                        let oa = if a < p {
                            a
                        } else {
                            a + 1
                        };
                        let ob = if b < p {
                            b
                        } else {
                            b + 1
                        };
                        assert(ns[a] == s[oa] && ns[b] == s[ob]);
                        assert(ns[0] == s[0]);
                        assert(key(s, oa) <= key(s, ob));
                        assert(key(ns, a) == key(s, oa) && key(ns, b) == key(s, ob));
                    }
                }
                assert forall|a: int, b: int| 0 <= a < b < ns.len() implies #[trigger] ns[a].waiter
                    != #[trigger] ns[b].waiter by {
                    let oa = if a < p {
                        a
                    } else {
                        a + 1
                    };
                    let ob = if b < p {
                        b
                    } else {
                        b + 1
                    };
                    assert(ns[a] == s[oa] && ns[b] == s[ob]);
                }
                assert forall|a: int| 0 <= a < ns.len() implies #[trigger] ns[a].waiter
                    != waiter by {
                    let oa = if a < p {
                        a
                    } else {
                        a + 1
                    };
                    assert(ns[a] == s[oa]);
                }
            }
            true
        }
    }

    /// The timer interrupt's work, after the hardware compare flag is
    /// cleared: remove and return every entry now due, so the caller
    /// can resume each one, and say what to program the compare
    /// register with — the new head's instant, or nothing, in which
    /// case the timer is disabled until the next insertion.
    pub fn on_monotonic_interrupt(&mut self, now: Instant) -> (r: (
        Vec<WakeEntry>,
        Option<Instant>,
    ))
        requires
            old(self).wf(),
        ensures
            final(self).wf(),
            r.0@ == old(self)@.take(expired_prefix_len(old(self)@, now.ticks)),
            final(self)@ == old(self)@.skip(expired_prefix_len(old(self)@, now.ticks)),
            final(self)@.len() == 0 ==> r.1 is None,
            final(self)@.len() > 0 ==> r.1 == Some(final(self)@[0].instant),
    {
        let woken = self.pop_expired(now);
        let reprogram = self.next_wake();
        (woken, reprogram)
    }

    /// Suspend `waiter` until the monotonic clock reaches `instant`.
    /// Returns whether the hardware compare register must be
    /// reprogrammed because the queue head changed.
    pub fn delay_until(&mut self, instant: Instant, waiter: u32) -> (new_head: bool)
        requires
            old(self).wf(),
            !contains_waiter(old(self)@, waiter),
            spec_fits(old(self)@, instant.ticks),
        ensures
            final(self).wf(),
            final(self)@ == old(self)@.insert(
                insert_pos(old(self)@, instant.ticks),
                WakeEntry { waiter, instant },
            ),
            new_head == (old(self)@.len() == 0 || (spec_le(
                instant.ticks,
                old(self)@[0].instant.ticks,
            ) && instant.ticks != old(self)@[0].instant.ticks)),
    {
        self.insert(WakeEntry { waiter, instant })
    }

    /// Suspend `waiter` for `duration` past `now`.
    pub fn delay(&mut self, now: Instant, duration: Duration, waiter: u32) -> (new_head: bool)
        requires
            old(self).wf(),
            !contains_waiter(old(self)@, waiter),
            spec_fits(old(self)@, spec_add(now.ticks, duration.ticks)),
        ensures
            final(self).wf(),
            final(self)@ == old(self)@.insert(
                insert_pos(old(self)@, spec_add(now.ticks, duration.ticks)),
                WakeEntry { waiter, instant: Instant { ticks: spec_add(now.ticks, duration.ticks) } },
            ),
            new_head == (old(self)@.len() == 0 || (spec_le(
                spec_add(now.ticks, duration.ticks),
                old(self)@[0].instant.ticks,
            ) && spec_add(now.ticks, duration.ticks) != old(self)@[0].instant.ticks)),
    {
        self.delay_until(now.plus(duration), waiter)
    }

    /// Start racing the awaited inner operation against `deadline`: queue
    /// a wake for `waiter` and hand back the undecided race.
    pub fn timeout_at(&mut self, deadline: Instant, waiter: u32) -> (t: Timeout)
        requires
            old(self).wf(),
            !contains_waiter(old(self)@, waiter),
            spec_fits(old(self)@, deadline.ticks),
        ensures
            final(self).wf(),
            final(self)@ == old(self)@.insert(
                insert_pos(old(self)@, deadline.ticks),
                WakeEntry { waiter, instant: deadline },
            ),
            t == (Timeout { deadline, waiter, done: false }),
    {
        self.insert(WakeEntry { waiter, instant: deadline });
        Timeout { deadline, waiter, done: false }
    }

    /// Start racing the awaited inner operation against the deadline
    /// `duration` past `now`.
    pub fn timeout_after(&mut self, now: Instant, duration: Duration, waiter: u32) -> (t: Timeout)
        requires
            old(self).wf(),
            !contains_waiter(old(self)@, waiter),
            spec_fits(old(self)@, spec_add(now.ticks, duration.ticks)),
        ensures
            final(self).wf(),
            final(self)@ == old(self)@.insert(
                insert_pos(old(self)@, spec_add(now.ticks, duration.ticks)),
                WakeEntry {
                    waiter,
                    instant: Instant { ticks: spec_add(now.ticks, duration.ticks) },
                },
            ),
            t == (Timeout {
                deadline: Instant { ticks: spec_add(now.ticks, duration.ticks) },
                waiter,
                done: false,
            }),
    {
        self.timeout_at(now.plus(duration), waiter)
    }

    /// Decide one round of the timeout race.  `inner_ready` reports
    /// whether the awaited inner operation has completed by `now`.
    ///
    /// The race is deterministic: if the inner operation completes before
    /// the deadline is due it wins, its result is handed through, and the
    /// wake entry is removed without firing; once the deadline is due and
    /// the inner operation has not completed, the caller gets
    /// [`TimeoutError`] and the inner operation is abandoned — `done`
    /// forbids any further poll, so its remaining execution never runs to
    /// completion.  While neither has happened the race stays open and
    /// the queue is untouched.
    pub fn poll_timeout(&mut self, t: &mut Timeout, now: Instant, inner_ready: bool) -> (r: Option<
        Result<(), TimeoutError>,
    >)
        requires
            old(self).wf(),
            !old(t).done,
        ensures
            final(self).wf(),
            final(t).deadline == old(t).deadline,
            final(t).waiter == old(t).waiter,
            inner_ready ==> r == Some(Result::<(), TimeoutError>::Ok(())),
            !inner_ready && spec_le(old(t).deadline.ticks, now.ticks) ==> r == Some(
                Result::<(), TimeoutError>::Err(TimeoutError),
            ),
            !inner_ready && !spec_le(old(t).deadline.ticks, now.ticks) ==> r is None,
            r is Some ==> final(t).done && !contains_waiter(final(self)@, old(t).waiter) && (
            if contains_waiter(old(self)@, old(t).waiter) {
                final(self)@ == old(self)@.remove(waiter_pos(old(self)@, old(t).waiter))
            } else {
                final(self)@ == old(self)@
            }),
            r is None ==> final(self)@ == old(self)@ && *final(t) == *old(t),
    {
        if inner_ready {
            self.cancel(t.waiter);
            t.done = true;
            Some(Ok(()))
        } else if instant_reached(now, t.deadline) {
            self.cancel(t.waiter);
            t.done = true;
            Some(Err(TimeoutError))
        } else {
            None
        }
    }
}

/// Wake instants are pairwise distinct.
pub open spec fn instants_distinct(s: Seq<WakeEntry>) -> bool {
    forall|i: int, j: int|
        0 <= i < j < s.len() ==> #[trigger] s[i].instant.ticks != #[trigger] s[j].instant.ticks
}

/// Entries fire in queue order, and queue order is the wraparound
/// instant order: an entry never fires before one with an earlier wake
/// instant.
pub proof fn lemma_fire_order(q: TimerQueue, i: int, j: int)
    requires
        q.wf(),
        0 <= i < j < q@.len(),
    ensures
        spec_le(q@[i].instant.ticks, q@[j].instant.ticks),
{
    lemma_key_order(q@, i, j);
}

/// When every queued entry is due at `now`, one `pop_expired` drains the
/// whole queue.
pub proof fn lemma_all_due_pop_all(s: Seq<WakeEntry>, now: u64)
    requires
        forall|i: int| 0 <= i < s.len() ==> spec_le(#[trigger] s[i].instant.ticks, now),
    ensures
        expired_prefix_len(s, now) == s.len(),
    decreases s.len(),
{
    if s.len() > 0 {
        assert(spec_le(s[0].instant.ticks, now));
        assert forall|i: int| 0 <= i < s.drop_first().len() implies spec_le(
            #[trigger] s.drop_first()[i].instant.ticks,
            now,
        ) by {
            assert(s.drop_first()[i] == s[i + 1]);
        }
        lemma_all_due_pop_all(s.drop_first(), now);
    }
}

/// Under the documented operating conditions — the current time within
/// half a range past the head, or every pending instant still within
/// half a range ahead of the current time — the popped prefix is
/// exactly the due set: no due entry is ever left waiting behind a
/// not-yet-due head.
pub proof fn lemma_pop_expired_complete(s: Seq<WakeEntry>, now: u64)
    requires
        sorted(s),
        s.len() > 0 ==> ticks_from(s[0].instant.ticks, now) < HALF_RANGE || (forall|i: int|
            0 <= i < s.len() ==> ticks_from(now, #[trigger] s[i].instant.ticks) < HALF_RANGE),
    ensures
        forall|i: int|
            0 <= i < s.len() ==> (spec_le(#[trigger] s[i].instant.ticks, now) <==> i
                < expired_prefix_len(s, now)),
{
    if s.len() > 0 {
        lemma_expired_prefix_props(s, now);
        let pl = expired_prefix_len(s, now);
        if ticks_from(s[0].instant.ticks, now) < HALF_RANGE {
            let t_now = ticks_from(s[0].instant.ticks, now);
            // an entry is due exactly when its key lies at or below the
            // current time's key
            assert forall|i: int| 0 <= i < s.len() implies (spec_le(
                #[trigger] s[i].instant.ticks,
                now,
            ) <==> key(s, i) <= t_now) by {
                lemma_ticks_from_additive(s[0].instant.ticks, s[i].instant.ticks, now);
            }
            assert forall|i: int| 0 <= i < s.len() implies (spec_le(
                #[trigger] s[i].instant.ticks,
                now,
            ) <==> i < pl) by {
                if i < pl {
                    assert(spec_le(s[i].instant.ticks, now));
                } else {
                    assert(pl < s.len());
                    assert(!spec_le(s[pl].instant.ticks, now));
                    assert(key(s, pl) > t_now);
                    assert(key(s, pl) <= key(s, i));
                }
            }
        } else {
            // every pending instant is still strictly ahead of now
            assert forall|i: int| 0 <= i < s.len() implies !spec_le(
                #[trigger] s[i].instant.ticks,
                now,
            ) by {
                if spec_le(s[i].instant.ticks, now) {
                    lemma_ticks_from_additive(s[i].instant.ticks, now, s[i].instant.ticks);
                    assert(s[i].instant.ticks == now);
                    assert(ticks_from(s[0].instant.ticks, now) == key(s, i));
                }
            }
            assert(pl == 0);
        }
    }
}

/// Timer queue ordering is insertion-order independent: two well-formed
/// queues that hold the same pending set of wake-ups, with pairwise
/// distinct wake instants, are identical — so however the entries were
/// inserted, they fire in the wraparound order of their instants.
pub proof fn lemma_insertion_order_irrelevant(a: Seq<WakeEntry>, b: Seq<WakeEntry>)
    requires
        sorted(a),
        sorted(b),
        instants_distinct(a),
        a.to_multiset() == b.to_multiset(),
    ensures
        a == b,
    decreases a.len(),
{
    broadcast use vstd::seq_lib::group_to_multiset_ensures;

    assert(a.to_multiset().len() == a.len());
    assert(b.to_multiset().len() == b.len());
    if a.len() == 0 {
        assert(b.len() == 0);
        assert(a =~= b);
    } else {
        assert(b.len() == a.len());
        // the head of each queue is the entry with the least wake
        // instant in wraparound order, which distinct instants make
        // unique
        assert(a.to_multiset().contains(a[0]));
        assert(b.contains(a[0]));
        let k = choose|k: int| 0 <= k < b.len() && b[k] == a[0];
        assert(b.to_multiset().contains(b[0]));
        assert(a.contains(b[0]));
        let m = choose|m: int| 0 <= m < a.len() && a[m] == b[0];
        if m > 0 {
            lemma_key_order(a, 0, m);
            lemma_key_order(b, 0, k);
            assert(spec_le(a[0].instant.ticks, b[0].instant.ticks));
            assert(spec_le(b[0].instant.ticks, a[0].instant.ticks));
            lemma_ticks_from_additive(a[0].instant.ticks, b[0].instant.ticks, a[0].instant.ticks);
            assert(a[0].instant.ticks == b[0].instant.ticks);
            assert(a[0].instant.ticks != a[m].instant.ticks);
            assert(false);
        }
        assert(a[0] == b[0]);
        // the tails hold the same remaining set; recurse
        assert(a.remove(0).to_multiset() =~= a.to_multiset().remove(a[0]));
        assert(b.remove(0).to_multiset() =~= b.to_multiset().remove(b[0]));
        let at = a.drop_first();
        let bt = b.drop_first();
        assert(a.remove(0) =~= at);
        assert(b.remove(0) =~= bt);
        assert(at.to_multiset() == bt.to_multiset());
        lemma_sorted_skip(a, 1);
        lemma_sorted_skip(b, 1);
        assert(at =~= a.skip(1));
        assert(bt =~= b.skip(1));
        assert forall|i: int, j: int| 0 <= i < j < at.len() implies #[trigger] at[i].instant.ticks
            != #[trigger] at[j].instant.ticks by {
            assert(at[i] == a[i + 1] && at[j] == a[j + 1]);
        }
        lemma_insertion_order_irrelevant(at, bt);
        assert forall|i: int| 0 <= i < a.len() implies a[i] == b[i] by {
            if i > 0 {
                assert(at[i - 1] == bt[i - 1]);
            }
        }
        assert(a =~= b);
    }
}

/// Three pending wake-ups in ascending wraparound order stand in the
/// queue earliest first, however they were inserted; firing the clock
/// past the latest then resumes them in exactly that order.
pub proof fn lemma_three_wakeups_fire_in_order(
    q: TimerQueue,
    now: u64,
    e1: WakeEntry,
    e2: WakeEntry,
    e3: WakeEntry,
)
    requires
        q.wf(),
        q@.len() == 3,
        q@.contains(e1),
        q@.contains(e2),
        q@.contains(e3),
        spec_le(e1.instant.ticks, e2.instant.ticks),
        e1.instant.ticks != e2.instant.ticks,
        spec_le(e2.instant.ticks, e3.instant.ticks),
        e2.instant.ticks != e3.instant.ticks,
        spec_le(e3.instant.ticks, now),
        spec_le(e2.instant.ticks, now),
        spec_le(e1.instant.ticks, now),
    ensures
        q@ == seq![e1, e2, e3],
        expired_prefix_len(q@, now) == 3,
{
    let i1 = choose|i: int| 0 <= i < q@.len() && q@[i] == e1;
    let i2 = choose|i: int| 0 <= i < q@.len() && q@[i] == e2;
    let i3 = choose|i: int| 0 <= i < q@.len() && q@[i] == e3;
    // ascending wraparound order forces the three positions into order
    lemma_key_order(q@, i1, i2);
    lemma_key_order(q@, i2, i3);
    assert(i1 < i2) by {
        if i2 <= i1 {
            assert(key(q@, i2) <= key(q@, i1));
            assert(key(q@, i1) <= key(q@, i2));
            lemma_key_distance(q@, if i1 <= i2 {
                i1
            } else {
                i2
            }, if i1 <= i2 {
                i2
            } else {
                i1
            });
        }
    }
    assert(i2 < i3) by {
        if i3 <= i2 {
            assert(key(q@, i3) <= key(q@, i2));
            assert(key(q@, i2) <= key(q@, i3));
            lemma_key_distance(q@, if i2 <= i3 {
                i2
            } else {
                i3
            }, if i2 <= i3 {
                i3
            } else {
                i2
            });
        }
    }
    assert(i1 == 0 && i2 == 1 && i3 == 2);
    assert(q@ =~= seq![e1, e2, e3]);
    lemma_all_due_pop_all(q@, now);
}

} // verus!
