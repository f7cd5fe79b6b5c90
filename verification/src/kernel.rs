//! The priority-ceiling lock protocol and a simulated single core.
//!
//! A critical section on a resource with ceiling `c` raises the core's
//! effective priority threshold to at least `c` for its duration and
//! restores the previous threshold on exit.  While the threshold is
//! raised, no task with priority at or below it can begin or resume on
//! the core, which is what makes the access exclusive: every accessor of
//! the resource runs at or below the ceiling by construction of the
//! ceiling analysis.
//!
//! [`Core`] models the threshold and the stack of open critical
//! sections; [`run_trace`] replays a trace of lock, unlock and access
//! events against that model and is the vehicle for stating the
//! protocol's two central properties: the threshold dominates the
//! ceiling of every open lock for as long as the lock is held, and a
//! balanced trace leaves the threshold exactly where it started,
//! whatever the nesting depth.  [`Sim`] adds pending interrupts and
//! preemptive dispatch on top, so that whole scheduling scenarios can be
//! replayed and observed.

use vstd::prelude::*;

verus! {

/// One open critical section: the threshold saved on entry and the
/// ceiling it raised the threshold to.
#[derive(Clone, Copy, PartialEq, Eq, Structural, Debug)]
pub struct LockFrame {
    /// Threshold to restore when this section exits.
    pub saved: u8,
    /// Ceiling of the resource this section protects.
    pub ceiling: u8,
}

/// A simulated core: the current priority threshold and the stack of
/// open critical sections, innermost last.
pub struct Core {
    /// Current effective priority threshold.
    pub threshold: u8,
    /// Open critical sections, outermost first.
    pub frames: Vec<LockFrame>,
}

impl Core {
    /// The threshold dominates the ceiling of every open section, and
    /// every saved threshold dominates the ceilings of the sections that
    /// were already open when it was saved.
    pub open spec fn wf(self) -> bool {
        &&& forall|i: int|
            0 <= i < self.frames@.len() ==> #[trigger] self.frames@[i].ceiling <= self.threshold
        &&& forall|i: int, j: int|
            0 <= i < j < self.frames@.len() ==> #[trigger] self.frames@[i].ceiling
                <= #[trigger] self.frames@[j].saved
    }

    /// A core running with no open critical section at `threshold`.
    pub fn new(threshold: u8) -> (c: Core)
        ensures
            c.wf(),
            c.threshold == threshold,
            c.frames@.len() == 0,
    {
        Core { threshold, frames: Vec::new() }
    }

    /// Enter a critical section on a resource with the given ceiling.
    ///
    /// When the current threshold already dominates the ceiling the
    /// caller already excludes every conflicting preemption and the
    /// threshold is left untouched (the no-overhead case); otherwise the
    /// threshold is raised to the ceiling.  On hardware the raise is a
    /// priority-threshold write, or a global interrupt disable when the
    /// ceiling is the maximum configurable priority; which of the two a
    /// given controller needs is a platform decision outside this model.
    pub fn lock_enter(&mut self, ceiling: u8)
        requires
            old(self).wf(),
        ensures
            final(self).wf(),
            final(self).threshold == if old(self).threshold >= ceiling {
                old(self).threshold
            } else {
                ceiling
            },
            final(self).threshold >= ceiling,
            final(self).frames@ == old(self).frames@.push(
                LockFrame { saved: old(self).threshold, ceiling },
            ),
    {
        let saved = self.threshold;
        if self.threshold < ceiling {
            self.threshold = ceiling;
        }
        self.frames.push(LockFrame { saved, ceiling });
    }

    /// Leave the innermost critical section, restoring the threshold
    /// saved on entry.  This runs on every exit path from the section,
    /// so a failure inside the section never leaves the core at an
    /// elevated threshold.
    pub fn lock_exit(&mut self)
        requires
            old(self).wf(),
            old(self).frames@.len() > 0,
        ensures
            final(self).wf(),
            final(self).threshold == old(self).frames@.last().saved,
            final(self).frames@ == old(self).frames@.drop_last(),
    {
        match self.frames.pop() {
            Some(f) => {
                self.threshold = f.saved;
            },
            None => {
            },
        }
    }
}

/// Run `body` with the core's threshold raised to `ceiling` and restore
/// the previous threshold afterwards: the critical section every
/// resource access goes through.  Calls may nest — a higher-ceiling
/// section inside a lower one — and however deep the nesting, the
/// threshold after the outer call returns equals the threshold before
/// it began.  The body here returns normally; there is no unwinding to
/// escape the restore.
pub fn with_ceiling<F: FnOnce() -> R, R>(core: &mut Core, ceiling: u8, body: F) -> (r: R)
    requires
        old(core).wf(),
        call_requires(body, ()),
    ensures
        final(core).wf(),
        final(core).threshold == old(core).threshold,
        final(core).frames@ == old(core).frames@,
        call_ensures(body, (), r),
{
    core.lock_enter(ceiling);
    let r = body();
    core.lock_exit();
    proof {
        assert(final(core).frames@ =~= old(core).frames@);
    }
    r
}

/// While a critical section on a ceiling-`c` resource is open, the
/// effective threshold is at least `c`: no task with priority at or
/// below the ceiling can run, so no accessor of the resource can
/// preempt the access.
pub proof fn lemma_ceiling_protects(core: Core, i: int)
    requires
        core.wf(),
        0 <= i < core.frames@.len(),
    ensures
        core.frames@[i].ceiling <= core.threshold,
{
}

/// The exclusion the protocol is for: while a critical section on a
/// resource's computed ceiling is open, no task that accesses the
/// resource can be dispatched, because every accessor's priority is at
/// most the ceiling, which the threshold dominates for as long as the
/// section is held.
pub proof fn lemma_ceiling_masks_accessors(
    sim: Sim,
    accesses: Seq<crate::analysis::ResourceAccess>,
    r: int,
    k: int,
    j: int,
    t: int,
)
    requires
        sim.wf(),
        0 <= k < sim.core.frames@.len(),
        sim.core.frames@[k].ceiling == crate::analysis::spec_ceiling(accesses, r),
        0 <= j < accesses.len(),
        accesses[j].resource == r,
        0 <= t < sim.tasks@.len(),
        sim.tasks@[t].priority == accesses[j].priority,
    ensures
        !sim.eligible(t),
{
    crate::analysis::lemma_ceiling_dominates(accesses, j);
}

/// One event of a simulated interrupt trace.
#[derive(Clone, Copy, PartialEq, Eq, Structural, Debug)]
pub enum LockEvent {
    /// Enter a critical section on a resource with this ceiling.
    Enter(u8),
    /// Leave the innermost critical section.
    Exit,
    /// Touch a resource with this ceiling; legal only directly inside a
    /// critical section opened for that ceiling.
    Access(u8),
}

/// The threshold observed while one access ran.
#[derive(Clone, Copy, PartialEq, Eq, Structural, Debug)]
pub struct AccessRecord {
    /// Ceiling of the resource accessed.
    pub ceiling: u8,
    /// Threshold in force during the access.
    pub threshold: u8,
}

/// A way a trace can break the locking discipline.
#[derive(Clone, Copy, PartialEq, Eq, Structural, Debug)]
pub enum TraceError {
    /// An exit with no critical section open.
    UnbalancedExit,
    /// An access outside a critical section opened for its ceiling.
    AccessOutsideLock,
}

/// The state a trace replay passes through: the threshold, the open
/// critical sections, the accesses recorded so far, and the first
/// discipline violation if one occurred, after which the state is
/// frozen.
pub struct Replay {
    /// Current threshold.
    pub threshold: u8,
    /// Open critical sections, outermost first.
    pub frames: Seq<LockFrame>,
    /// One record per access replayed so far, in order.
    pub records: Seq<AccessRecord>,
    /// The first discipline violation, if any.
    pub failed: Option<TraceError>,
}

/// What one event does to a replay state: entering raises the threshold
/// to the ceiling and saves the old one, leaving restores it, and an
/// access records the threshold in force — provided it happens directly
/// inside a section opened for its ceiling.
pub open spec fn spec_trace_step(s: Replay, e: LockEvent) -> Replay {
    if s.failed is Some {
        s
    } else {
        match e {
            LockEvent::Enter(c) => Replay {
                threshold: if s.threshold >= c {
                    s.threshold
                } else {
                    c
                },
                frames: s.frames.push(LockFrame { saved: s.threshold, ceiling: c }),
                records: s.records,
                failed: None,
            },
            LockEvent::Exit => if s.frames.len() == 0 {
                Replay {
                    threshold: s.threshold,
                    frames: s.frames,
                    records: s.records,
                    failed: Some(TraceError::UnbalancedExit),
                }
            } else {
                Replay {
                    threshold: s.frames.last().saved,
                    frames: s.frames.drop_last(),
                    records: s.records,
                    failed: None,
                }
            },
            LockEvent::Access(c) => if s.frames.len() == 0 || s.frames.last().ceiling != c {
                Replay {
                    threshold: s.threshold,
                    frames: s.frames,
                    records: s.records,
                    failed: Some(TraceError::AccessOutsideLock),
                }
            } else {
                Replay {
                    threshold: s.threshold,
                    frames: s.frames,
                    records: s.records.push(
                        AccessRecord { ceiling: c, threshold: s.threshold },
                    ),
                    failed: None,
                }
            },
        }
    }
}

/// The replay of a whole trace from `s`.
pub open spec fn spec_replay(s: Replay, events: Seq<LockEvent>) -> Replay
    decreases events.len(),
{
    if events.len() == 0 {
        s
    } else {
        spec_replay(spec_trace_step(s, events[0]), events.drop_first())
    }
}

/// The replay state a core starts a trace in.
pub open spec fn spec_replay_start(core: Core) -> Replay {
    Replay {
        threshold: core.threshold,
        frames: core.frames@,
        records: Seq::empty(),
        failed: None,
    }
}

/// Once a replay has failed, the remaining events change nothing.
proof fn lemma_replay_frozen(s: Replay, events: Seq<LockEvent>)
    requires
        s.failed is Some,
    ensures
        spec_replay(s, events) == s,
    decreases events.len(),
{
    if events.len() > 0 {
        lemma_replay_frozen(s, events.drop_first());
    }
}

/// Replay a trace of lock, unlock and access events on `core`: the
/// result, the record list and the core's end state are exactly those
/// of the spec-level replay of the trace.
///
/// Two guarantees follow for every trace the discipline admits: each
/// recorded access ran with the threshold at or above the accessed
/// resource's ceiling, and a balanced trace — one that closes every
/// section it opens, at any nesting depth — leaves the threshold exactly
/// as it found it.
pub fn run_trace(core: &mut Core, events: &Vec<LockEvent>) -> (r: Result<
    Vec<AccessRecord>,
    TraceError,
>)
    requires
        old(core).wf(),
    ensures
        final(core).wf(),
        final(core).threshold == spec_replay(spec_replay_start(*old(core)), events@).threshold,
        final(core).frames@ == spec_replay(spec_replay_start(*old(core)), events@).frames,
        (match r {
            Ok(recs) => spec_replay(spec_replay_start(*old(core)), events@).failed is None && recs@
                == spec_replay(spec_replay_start(*old(core)), events@).records,
            Err(e) => spec_replay(spec_replay_start(*old(core)), events@).failed == Some(e),
        }),
        r matches Ok(recs) ==> forall|i: int|
            0 <= i < recs@.len() ==> #[trigger] recs@[i].ceiling <= recs@[i].threshold,
        r is Ok && old(core).frames@.len() == 0 && final(core).frames@.len() == 0
            ==> final(core).threshold == old(core).threshold,
{
    let ghost t0 = core.threshold;
    let ghost f0 = core.frames@.len();
    let ghost total = spec_replay(spec_replay_start(*old(core)), events@);
    let mut recs: Vec<AccessRecord> = Vec::new();
    let mut idx: usize = 0;
    proof {
        assert(events@.skip(0) =~= events@);
    }
    while idx < events.len()
        invariant
            core.wf(),
            idx <= events@.len(),
            total == spec_replay(spec_replay_start(*old(core)), events@),
            total == spec_replay(
                Replay {
                    threshold: core.threshold,
                    frames: core.frames@,
                    records: recs@,
                    failed: None,
                },
                events@.skip(idx as int),
            ),
            f0 == 0 && core.frames@.len() == 0 ==> core.threshold == t0,
            f0 == 0 && core.frames@.len() > 0 ==> core.frames@[0].saved == t0,
            forall|i: int| 0 <= i < recs@.len() ==> #[trigger] recs@[i].ceiling
                <= recs@[i].threshold,
        decreases events.len() - idx,
    {
        let ghost cur = Replay {
            threshold: core.threshold,
            frames: core.frames@,
            records: recs@,
            failed: None,
        };
        proof {
            assert(events@.skip(idx as int)[0] == events@[idx as int]);
            assert(events@.skip(idx as int).drop_first() =~= events@.skip(idx + 1));
        }
        match events[idx] {
            LockEvent::Enter(c) => {
                core.lock_enter(c);
                proof {
                    assert(spec_trace_step(cur, events@[idx as int]) == (Replay {
                        threshold: core.threshold,
                        frames: core.frames@,
                        records: recs@,
                        failed: None,
                    }));
                }
            },
            LockEvent::Exit => {
                if core.frames.len() == 0 {
                    proof {
                        lemma_replay_frozen(
                            spec_trace_step(cur, events@[idx as int]),
                            events@.skip(idx + 1),
                        );
                    }
                    return Err(TraceError::UnbalancedExit);
                }
                core.lock_exit();
                proof {
                    assert(spec_trace_step(cur, events@[idx as int]) == (Replay {
                        threshold: core.threshold,
                        frames: core.frames@,
                        records: recs@,
                        failed: None,
                    }));
                }
            },
            LockEvent::Access(c) => {
                let n = core.frames.len();
                if n == 0 {
                    proof {
                        lemma_replay_frozen(
                            spec_trace_step(cur, events@[idx as int]),
                            events@.skip(idx + 1),
                        );
                    }
                    return Err(TraceError::AccessOutsideLock);
                }
                let top = core.frames[n - 1];
                if top.ceiling != c {
                    proof {
                        lemma_replay_frozen(
                            spec_trace_step(cur, events@[idx as int]),
                            events@.skip(idx + 1),
                        );
                    }
                    return Err(TraceError::AccessOutsideLock);
                }
                recs.push(AccessRecord { ceiling: c, threshold: core.threshold });
                proof {
                    assert(spec_trace_step(cur, events@[idx as int]) == (Replay {
                        threshold: core.threshold,
                        frames: core.frames@,
                        records: recs@,
                        failed: None,
                    }));
                }
            },
        }
        idx += 1;
    }
    proof {
        assert(events@.skip(events@.len() as int).len() == 0);
    }
    Ok(recs)
}

/// A sequence that matches a longer one elementwise is a prefix of it.
proof fn lemma_prefix_from_elements(a: Seq<LogEntry>, b: Seq<LogEntry>)
    requires
        a.len() <= b.len(),
        forall|m: int| 0 <= m < a.len() ==> a[m] == b[m],
    ensures
        a.is_prefix_of(b),
{
    assert(a =~= b.subrange(0, a.len() as int));
}

/// A prefix matches the longer sequence elementwise.
proof fn lemma_elements_from_prefix(a: Seq<LogEntry>, b: Seq<LogEntry>, m: int)
    requires
        a.is_prefix_of(b),
        0 <= m < a.len(),
    ensures
        a[m] == b[m],
{
    assert(a[m] == b.subrange(0, a.len() as int)[m]);
}

/// The larger of two priorities.
pub open spec fn spec_max(a: u8, b: u8) -> u8 {
    if a >= b {
        a
    } else {
        b
    }
}

/// One step of a simulated task body.
#[derive(Clone, Copy, PartialEq, Eq, Structural, Debug)]
pub enum Action {
    /// Enter a critical section on a resource with this ceiling.
    Lock(u8),
    /// Leave the innermost critical section.
    Unlock,
    /// Pend the task with this index, as hardware or a spawn would.
    Pend(usize),
    /// Some ordinary work; only its place in the execution log matters.
    Work,
}

/// A task of the simulated application: a fixed priority and a fixed
/// body of steps, as the static task set has at build time.
pub struct SimTask {
    /// Dispatch priority; larger is more urgent.
    pub priority: u8,
    /// The steps the task performs each time it runs.
    pub body: Vec<Action>,
}

/// One executed step: which task ran which step of its body.
#[derive(Clone, Copy, PartialEq, Eq, Structural, Debug)]
pub struct LogEntry {
    /// Index of the task that ran.
    pub task: usize,
    /// Index of the executed step within that task's body.
    pub step: usize,
}

/// How one simulation step went.
#[derive(Clone, Copy, PartialEq, Eq, Structural, Debug)]
pub enum StepOutcome {
    /// Nothing is pending and nothing is running.
    Idle,
    /// The simulation advanced: a dispatch, one body step, or a return.
    Progress,
    /// A task body broke the locking discipline or named a task that
    /// does not exist.
    Fault,
}

/// A simulated single-core application: a static task set, the pending
/// flags of the interrupt controller, the stack of preempted tasks, the
/// core's threshold state, and the log of executed steps.
pub struct Sim {
    /// The static task set.
    pub tasks: Vec<SimTask>,
    /// Per task, the index of its next body step; equal to the body
    /// length when the task is not started or has returned.
    pub pc: Vec<usize>,
    /// Per task, whether its interrupt line is pended.
    pub pending: Vec<bool>,
    /// Preempted and running task indices, outermost first; the running
    /// task is last.
    pub stack: Vec<usize>,
    /// The core's threshold and open critical sections.
    pub core: Core,
    /// Every step executed so far, in order.
    pub log: Vec<LogEntry>,
}

impl Sim {
    /// Basic consistency of the simulated state: indices in range, the
    /// preemption stack strictly increasing in priority (each entry
    /// preempted the one below), stacked tasks not pending, and the
    /// core well-formed.
    pub open spec fn wf(self) -> bool {
        &&& self.pc@.len() == self.tasks@.len()
        &&& self.pending@.len() == self.tasks@.len()
        &&& forall|i: int|
            0 <= i < self.tasks@.len() ==> #[trigger] self.pc@[i] <= self.tasks@[i].body@.len()
        &&& forall|i: int| 0 <= i < self.stack@.len() ==> #[trigger] self.stack@[i]
            < self.tasks@.len()
        &&& forall|i: int, j: int|
            0 <= i < j < self.stack@.len() ==> self.tasks@[#[trigger] self.stack@[i] as int].priority
                < self.tasks@[#[trigger] self.stack@[j] as int].priority
        &&& forall|i: int|
            0 <= i < self.stack@.len() ==> !self.pending@[#[trigger] self.stack@[i] as int]
        &&& self.core.wf()
    }

    /// The priority level that currently masks dispatch: the threshold,
    /// raised to the running task's own priority while one runs.
    pub open spec fn mask(self) -> u8 {
        if self.stack@.len() == 0 {
            self.core.threshold
        } else {
            spec_max(
                self.core.threshold,
                self.tasks@[self.stack@.last() as int].priority,
            )
        }
    }

    /// Task `i` can be dispatched now: pended, and urgent enough to pass
    /// the mask.
    pub open spec fn eligible(self, i: int) -> bool {
        &&& 0 <= i < self.tasks@.len()
        &&& self.pending@[i]
        &&& self.tasks@[i].priority > self.mask()
    }

    /// A fresh simulation of the given task set: nothing pending,
    /// nothing running, threshold zero, empty log.
    pub fn new(tasks: Vec<SimTask>) -> (s: Sim)
        ensures
            s.wf(),
            s.tasks@ == tasks@,
            s.log@.len() == 0,
            s.stack@.len() == 0,
            s.core.threshold == 0,
            s.core.frames@.len() == 0,
            forall|i: int| 0 <= i < s.tasks@.len() ==> !s.pending@[i],
            forall|i: int| 0 <= i < s.tasks@.len() ==> #[trigger] s.pc@[i]
                == s.tasks@[i].body@.len(),
    {
        let n = tasks.len();
        let mut pc: Vec<usize> = Vec::new();
        let mut pending: Vec<bool> = Vec::new();
        let mut i: usize = 0;
        while i < n
            invariant
                i <= n,
                n == tasks@.len(),
                pc@.len() == i,
                pending@.len() == i,
                forall|j: int| 0 <= j < i ==> #[trigger] pc@[j] == tasks@[j].body@.len(),
                forall|j: int| 0 <= j < i ==> !pending@[j],
            decreases n - i,
        {
            pc.push(tasks[i].body.len());
            pending.push(false);
            i += 1;
        }
        Sim { tasks, pc, pending, stack: Vec::new(), core: Core::new(0), log: Vec::new() }
    }

    /// Pend the interrupt line of task `i`, as hardware, a software
    /// spawn, or the timer queue would.  A pend of a task that is
    /// already running or preempted is dropped by the model, which does
    /// not simulate re-entrant interrupt lines.
    pub fn pend(&mut self, i: usize)
        requires
            old(self).wf(),
            i < old(self).tasks@.len(),
        ensures
            final(self).wf(),
            final(self).tasks@ == old(self).tasks@,
            final(self).pc@ == old(self).pc@,
            final(self).stack@ == old(self).stack@,
            final(self).core == old(self).core,
            final(self).log@ == old(self).log@,
            old(self).stack@.contains(i) ==> final(self).pending@ == old(self).pending@,
            !old(self).stack@.contains(i) ==> final(self).pending@ == old(self).pending@.update(
                i as int,
                true,
            ),
    {
        let mut k: usize = 0;
        let mut stacked = false;
        while k < self.stack.len()
            invariant
                k <= self.stack@.len(),
                stacked == exists|j: int| 0 <= j < k && self.stack@[j] == i,
                self.stack@ == old(self).stack@,
                *self == *old(self),
            decreases self.stack@.len() - k,
        {
            if self.stack[k] == i {
                stacked = true;
            }
            k += 1;
        }
        if !stacked {
            assert(!self.stack@.contains(i));
            self.pending[i] = true;
        } else {
            assert(self.stack@.contains(i));
        }
    }

    /// Clear the pending flag of task `i`, as the dispatcher does on
    /// entry.
    pub fn unpend(&mut self, i: usize)
        requires
            old(self).wf(),
            i < old(self).tasks@.len(),
        ensures
            final(self).wf(),
            final(self).tasks@ == old(self).tasks@,
            final(self).pc@ == old(self).pc@,
            final(self).stack@ == old(self).stack@,
            final(self).core == old(self).core,
            final(self).log@ == old(self).log@,
            final(self).pending@ == old(self).pending@.update(i as int, false),
    {
        self.pending[i] = false;
    }

    /// Choose the task to dispatch: the pended task with the highest
    /// priority above the mask, the lowest index breaking ties.
    pub fn schedule(&self) -> (r: Option<usize>)
        requires
            self.wf(),
        ensures
            match r {
                Some(i) => self.eligible(i as int) && (forall|j: int|
                    self.eligible(j) ==> self.tasks@[j].priority <= self.tasks@[i as int].priority)
                    && (forall|j: int|
                    self.eligible(j) && self.tasks@[j].priority == self.tasks@[i as int].priority
                        ==> i <= j),
                None => forall|j: int| !self.eligible(j),
            },
    {
        let mask = if self.stack.len() == 0 {
            self.core.threshold
        } else {
            let cur = self.stack[self.stack.len() - 1];
            let p = self.tasks[cur].priority;
            if self.core.threshold >= p {
                self.core.threshold
            } else {
                p
            }
        };
        let mut best: Option<usize> = None;
        let mut j: usize = 0;
        while j < self.tasks.len()
            invariant
                self.wf(),
                j <= self.tasks@.len(),
                mask == self.mask(),
                match best {
                    Some(i) => self.eligible(i as int) && i < j && (forall|k: int|
                        0 <= k < j && self.eligible(k) ==> self.tasks@[k].priority
                            <= self.tasks@[i as int].priority) && (forall|k: int|
                        0 <= k < j && self.eligible(k) && self.tasks@[k].priority
                            == self.tasks@[i as int].priority ==> i <= k),
                    None => forall|k: int| 0 <= k < j ==> !self.eligible(k),
                },
            decreases self.tasks@.len() - j,
        {
            if self.pending[j] && self.tasks[j].priority > mask {
                match best {
                    Some(i) => {
                        if self.tasks[j].priority > self.tasks[i].priority {
                            best = Some(j);
                        }
                    },
                    None => {
                        best = Some(j);
                    },
                }
            }
            j += 1;
        }
        best
    }

    /// A dispatch: the most urgent eligible pend, lowest index breaking
    /// ties, starts running on top of whatever ran before.
    pub open spec fn spec_dispatched(pre: Sim, post: Sim, i: int) -> bool {
        &&& pre.eligible(i)
        &&& (forall|j: int|
            pre.eligible(j) ==> pre.tasks@[j].priority <= pre.tasks@[i].priority)
        &&& (forall|j: int|
            pre.eligible(j) && pre.tasks@[j].priority == pre.tasks@[i].priority ==> i <= j)
        &&& post.tasks@ == pre.tasks@
        &&& post.pending@ == pre.pending@.update(i, false)
        &&& post.pc@ == pre.pc@.update(i, 0usize)
        &&& post.stack@ == pre.stack@.push(i as usize)
        &&& post.core == pre.core
        &&& post.log@ == pre.log@
    }

    /// One step of the running task's body, or its return: what it does
    /// to the simulated state and how the step ends.
    pub open spec fn spec_executed(pre: Sim, post: Sim, o: StepOutcome) -> bool {
        let cur = pre.stack@.last() as int;
        let pcur = pre.pc@[cur];
        if pcur == pre.tasks@[cur].body@.len() {
            // the body returned: resume whatever it preempted
            &&& o is Progress
            &&& post.tasks@ == pre.tasks@
            &&& post.pending@ == pre.pending@
            &&& post.pc@ == pre.pc@
            &&& post.stack@ == pre.stack@.drop_last()
            &&& post.core == pre.core
            &&& post.log@ == pre.log@
        } else {
            &&& post.tasks@ == pre.tasks@
            &&& post.log@ == pre.log@.push(LogEntry { task: pre.stack@.last(), step: pcur })
            &&& post.pc@ == pre.pc@.update(cur, (pcur + 1) as usize)
            &&& post.stack@ == pre.stack@
            &&& match pre.tasks@[cur].body@[pcur as int] {
                Action::Lock(c) => {
                    &&& o is Progress
                    &&& post.pending@ == pre.pending@
                    &&& post.core.threshold == if pre.core.threshold >= c {
                        pre.core.threshold
                    } else {
                        c
                    }
                    &&& post.core.frames@ == pre.core.frames@.push(
                        LockFrame { saved: pre.core.threshold, ceiling: c },
                    )
                },
                Action::Unlock => {
                    &&& post.pending@ == pre.pending@
                    &&& if pre.core.frames@.len() == 0 {
                        o is Fault && post.core == pre.core
                    } else {
                        o is Progress && post.core.threshold == pre.core.frames@.last().saved
                            && post.core.frames@ == pre.core.frames@.drop_last()
                    }
                },
                Action::Pend(j) => {
                    &&& post.core == pre.core
                    &&& if j >= pre.tasks@.len() {
                        o is Fault && post.pending@ == pre.pending@
                    } else if pre.stack@.contains(j) {
                        o is Progress && post.pending@ == pre.pending@
                    } else {
                        o is Progress && post.pending@ == pre.pending@.update(j as int, true)
                    }
                },
                Action::Work => o is Progress && post.pending@ == pre.pending@ && post.core
                    == pre.core,
            }
        }
    }

    /// Advance the simulation by one event: dispatch the most urgent
    /// eligible pend, or run the next step of the running task's body,
    /// or return from a finished task to whatever it preempted.  A
    /// higher-priority pend always preempts the running task, except
    /// while the threshold masks it.
    pub fn step(&mut self) -> (o: StepOutcome)
        requires
            old(self).wf(),
        ensures
            final(self).wf(),
            final(self).tasks@ == old(self).tasks@,
            old(self).log@.is_prefix_of(final(self).log@),
            o is Idle <==> ((forall|j: int| !old(self).eligible(j)) && old(self).stack@.len()
                == 0),
            o is Idle ==> *final(self) == *old(self),
            (exists|j: int| old(self).eligible(j)) ==> o is Progress && (exists|i: int|
                Sim::spec_dispatched(*old(self), *final(self), i)),
            ((forall|j: int| !old(self).eligible(j)) && old(self).stack@.len() > 0)
                ==> Sim::spec_executed(*old(self), *final(self), o),
    {
        match self.schedule() {
            Some(i) => {
                // dispatch: clear the pend, start the body, preempt
                self.pending[i] = false;
                self.pc[i] = 0;
                self.stack.push(i);
                proof {
                    assert(Sim::spec_dispatched(*old(self), *final(self), i as int));
                }
                StepOutcome::Progress
            },
            None => {
                if self.stack.len() == 0 {
                    return StepOutcome::Idle;
                }
                let cur = self.stack[self.stack.len() - 1];
                let pcur = self.pc[cur];
                if pcur == self.tasks[cur].body.len() {
                    // the body returned: resume whatever it preempted
                    self.stack.pop();
                    assert(final(self).log@ == old(self).log@);
                    return StepOutcome::Progress;
                }
                let act = self.tasks[cur].body[pcur];
                self.log.push(LogEntry { task: cur, step: pcur });
                self.pc[cur] = pcur + 1;
                match act {
                    Action::Lock(c) => {
                        self.core.lock_enter(c);
                    },
                    Action::Unlock => {
                        if self.core.frames.len() == 0 {
                            return StepOutcome::Fault;
                        }
                        self.core.lock_exit();
                    },
                    Action::Pend(j) => {
                        if j >= self.tasks.len() {
                            return StepOutcome::Fault;
                        }
                        self.pend(j);
                    },
                    Action::Work => {},
                }
                StepOutcome::Progress
            },
        }
    }

    /// One `Progress` transition of the simulation: a dispatch when a
    /// pend is eligible, otherwise one step or return of the running
    /// task's body.
    pub open spec fn spec_step_rel(pre: Sim, post: Sim) -> bool {
        if exists|j: int| pre.eligible(j) {
            exists|i: int| Sim::spec_dispatched(pre, post, i)
        } else {
            pre.stack@.len() > 0 && Sim::spec_executed(pre, post, StepOutcome::Progress)
        }
    }

    /// `post` is reachable from `pre` by exactly `n` `Progress`
    /// transitions.
    pub open spec fn spec_steps(pre: Sim, post: Sim, n: nat) -> bool
        decreases n,
    {
        if n == 0 {
            post == pre
        } else {
            exists|mid: Sim| Sim::spec_steps(pre, mid, (n - 1) as nat) && Sim::spec_step_rel(
                mid,
                post,
            )
        }
    }

    /// Run the simulation until it idles, faults, or `fuel` events have
    /// been spent; the outcome is `Progress` exactly when the fuel ran
    /// out first.  The end state is what iterating [`Sim::step`]'s
    /// transition relation from the start state yields: `Idle` after
    /// some number of transitions reaching a state with nothing pending
    /// and nothing running, `Fault` when the next body step breaks the
    /// discipline, and `Progress` after exactly `fuel` transitions.
    pub fn run(&mut self, fuel: usize) -> (o: StepOutcome)
        requires
            old(self).wf(),
        ensures
            final(self).wf(),
            final(self).tasks@ == old(self).tasks@,
            old(self).log@.is_prefix_of(final(self).log@),
            o is Idle ==> exists|n: nat|
                n <= fuel && Sim::spec_steps(*old(self), *final(self), n) && (forall|j: int|
                    !final(self).eligible(j)) && final(self).stack@.len() == 0,
            o is Progress ==> Sim::spec_steps(*old(self), *final(self), fuel as nat),
            o is Fault ==> exists|mid: Sim, n: nat|
                n < fuel && Sim::spec_steps(*old(self), mid, n) && mid.stack@.len() > 0 && (forall|
                    j: int,
                | !mid.eligible(j)) && Sim::spec_executed(mid, *final(self), StepOutcome::Fault),
    {
        let ghost l0 = self.log@;
        let mut k: usize = 0;
        proof {
            assert(Sim::spec_steps(*old(self), *self, 0));
        }
        while k < fuel
            invariant
                self.wf(),
                self.tasks@ == old(self).tasks@,
                k <= fuel,
                l0 == old(self).log@,
                l0.is_prefix_of(self.log@),
                Sim::spec_steps(*old(self), *self, k as nat),
            decreases fuel - k,
        {
            let ghost before = self.log@;
            let ghost prev = *self;
            let o = self.step();
            proof {
                assert forall|m: int| 0 <= m < l0.len() implies l0[m] == self.log@[m] by {
                    lemma_elements_from_prefix(l0, before, m);
                    lemma_elements_from_prefix(before, self.log@, m);
                }
                lemma_prefix_from_elements(l0, self.log@);
            }
            match o {
                StepOutcome::Progress => {
                    proof {
                        assert(Sim::spec_step_rel(prev, *self));
                        assert(Sim::spec_steps(*old(self), *self, (k + 1) as nat)) by {
                            assert(Sim::spec_steps(*old(self), prev, k as nat));
                        }
                    }
                },
                StepOutcome::Idle => {
                    return o;
                },
                StepOutcome::Fault => {
                    proof {
                        assert(Sim::spec_executed(prev, *self, StepOutcome::Fault));
                    }
                    return o;
                },
            }
            k += 1;
        }
        StepOutcome::Progress
    }
}

} // verus!
