//! Resource ceiling analysis and task-set validation.
//!
//! The application declares a static set of tasks — hardware tasks bound
//! to interrupt or exception vectors, software tasks dispatched through
//! repurposed interrupt lines — plus the shared resources they touch and
//! the platform configuration.  This module walks those declarations and
//! either derives everything the runtime needs (a priority ceiling for
//! every resource, a dispatcher for every priority level in use, the
//! platform configuration) or rejects the application with a diagnostic
//! bound to the offending declaration.  Every violation is a build-time
//! failure; none of these conditions can arise at run time.

use vstd::prelude::*;

verus! {

broadcast use vstd::set::group_set_axioms;

/// The kind of vector a hardware task binds to.
#[derive(Clone, Copy, PartialEq, Eq, Structural, Debug)]
pub enum HardwareTaskKind {
    /// A device interrupt line.
    Interrupt,
    /// An architecture exception vector.
    Exception,
}

/// A task bound directly to a hardware interrupt or exception.
pub struct HardwareTask {
    /// Declared task name.
    pub name: String,
    /// Name of the vector the task binds to.
    pub binds: String,
    /// Whether the vector is an interrupt or an exception.
    pub kind: HardwareTaskKind,
    /// The core the task runs on.
    pub core: u8,
    /// Dispatch priority; larger is more urgent.
    pub priority: u8,
}

/// A software task, dispatched through a repurposed interrupt line.
pub struct SoftwareTask {
    /// Declared task name.
    pub name: String,
    /// The core the task runs on.
    pub core: u8,
    /// Dispatch priority; larger is more urgent.
    pub priority: u8,
}

/// A core's timer queue, present when any task on the core suspends on
/// time, and the priority its handler dispatches at.
#[derive(Clone, Copy, PartialEq, Eq, Structural, Debug)]
pub struct TimerQueueUse {
    /// The core whose timer queue this is.
    pub core: u8,
    /// Priority of the timer-queue handler.
    pub priority: u8,
}

/// The interrupt lines a core declares free for software-task dispatch.
pub struct ExternInterrupts {
    /// The declaring core.
    pub core: u8,
    /// The declared vector names.
    pub names: Vec<String>,
}

/// The value of one configuration argument.
pub enum CustomArg {
    /// A path, as for the device or monotonic timer.
    Path(String),
    /// A boolean.
    Bool(bool),
    /// An unsigned integer.
    UInt(u64),
}

/// One configuration argument: a key and its value.
pub struct CustomSetting {
    /// Argument key.
    pub key: String,
    /// Argument value.
    pub value: CustomArg,
}

/// The static application declaration handed to the analysis.
pub struct AppModel {
    /// Number of cores the application dispatches on.
    pub cores: u8,
    /// Tasks bound to hardware vectors.
    pub hardware_tasks: Vec<HardwareTask>,
    /// Software tasks.
    pub software_tasks: Vec<SoftwareTask>,
    /// Free interrupt lines per core.
    pub extern_interrupts: Vec<ExternInterrupts>,
    /// Declared dispatcher vector names, for controllers that take them
    /// as a flat list.
    pub dispatchers: Vec<String>,
    /// Timer queues per core.
    pub timer_queues: Vec<TimerQueueUse>,
    /// Configuration arguments, in declaration order.
    pub custom: Vec<CustomSetting>,
}

impl AppModel {
    /// Structural validity of the declaration, guaranteed by the parser
    /// that produced it: per-core entries are keyed uniquely.
    pub open spec fn wf(&self) -> bool {
        &&& forall|i: int, j: int|
            0 <= i < j < self.extern_interrupts@.len()
                ==> #[trigger] self.extern_interrupts@[i].core
                != #[trigger] self.extern_interrupts@[j].core
        &&& forall|i: int, j: int|
            0 <= i < j < self.timer_queues@.len() ==> #[trigger] self.timer_queues@[i].core
                != #[trigger] self.timer_queues@[j].core
    }
}

/// The platform configuration the analysis extracts.
pub struct Extra {
    /// Path of the device (peripheral access) declaration.
    pub device: String,
    /// Path of the monotonic timer declaration, when one is configured.
    pub monotonic: Option<String>,
    /// Which core owns the shared peripherals, when they are taken.
    pub peripherals: Option<u8>,
}

impl Extra {
    /// The configured monotonic timer path; callable only once the
    /// analysis has established that one is configured.
    pub fn monotonic(&self) -> (m: &String)
        requires
            self.monotonic is Some,
        ensures
            m == self.monotonic.unwrap(),
    {
        self.monotonic.as_ref().unwrap()
    }
}

/// The priority of `core`'s timer queue, if it has one.
pub open spec fn spec_tq_for_core(tqs: Seq<TimerQueueUse>, core: u8) -> Option<u8>
    decreases tqs.len(),
{
    if tqs.len() == 0 {
        None
    } else if tqs[0].core == core {
        Some(tqs[0].priority)
    } else {
        spec_tq_for_core(tqs.drop_first(), core)
    }
}

/// The distinct priorities of the software tasks on `core`.
pub open spec fn spec_sw_prio_set(tasks: Seq<SoftwareTask>, core: u8) -> Set<u8>
    decreases tasks.len(),
{
    if tasks.len() == 0 {
        Set::empty()
    } else if tasks.last().core == core {
        spec_sw_prio_set(tasks.drop_last(), core).insert(tasks.last().priority)
    } else {
        spec_sw_prio_set(tasks.drop_last(), core)
    }
}

/// The priority levels on `core` that each need a dedicated dispatcher:
/// every software-task priority, plus the timer-queue priority if the
/// core has a timer queue.
pub open spec fn spec_core_prio_set(app: &AppModel, core: u8) -> Set<u8> {
    match spec_tq_for_core(app.timer_queues@, core) {
        Some(p) => spec_sw_prio_set(app.software_tasks@, core).insert(p),
        None => spec_sw_prio_set(app.software_tasks@, core),
    }
}

/// How many dispatchers `core` needs.
pub open spec fn spec_need(app: &AppModel, core: u8) -> nat {
    spec_core_prio_set(app, core).len()
}

/// How many free interrupt lines `core` declares.
pub open spec fn spec_given(app: &AppModel, core: u8) -> nat {
    spec_given_rec(app.extern_interrupts@, core)
}

/// How many free interrupt lines the first declaration for `core` holds.
pub open spec fn spec_given_rec(groups: Seq<ExternInterrupts>, core: u8) -> nat
    decreases groups.len(),
{
    if groups.len() == 0 {
        0
    } else if groups[0].core == core {
        groups[0].names@.len()
    } else {
        spec_given_rec(groups.drop_first(), core)
    }
}

/// The priorities below `n`.
spec fn u8s_below(n: nat) -> Set<u8>
    decreases n,
{
    if n == 0 {
        Set::empty()
    } else {
        u8s_below((n - 1) as nat).insert((n - 1) as u8)
    }
}

proof fn lemma_u8s_below(n: nat)
    requires
        n <= 256,
    ensures
        u8s_below(n).finite(),
        u8s_below(n).len() <= n,
        forall|p: u8| p < n ==> u8s_below(n).contains(p),
    decreases n,
{
    if n > 0 {
        lemma_u8s_below((n - 1) as nat);
    }
}

/// No set of priorities has more than 256 elements.
pub(crate) proof fn lemma_prio_set_card(s: Set<u8>)
    requires
        s.finite(),
    ensures
        s.len() <= 256,
{
    lemma_u8s_below(256);
    assert(s.subset_of(u8s_below(256)));
    vstd::set_lib::lemma_len_subset(s, u8s_below(256));
}

impl AppModel {
    /// The priority of `core`'s timer queue, if it has one.
    pub fn tq_for_core(&self, core: u8) -> (r: Option<u8>)
        ensures
            r == spec_tq_for_core(self.timer_queues@, core),
    {
        let ghost whole = self.timer_queues@;
        proof {
            assert(whole.skip(0) =~= whole);
        }
        let mut i: usize = 0;
        while i < self.timer_queues.len()
            invariant
                whole == self.timer_queues@,
                i <= whole.len(),
                spec_tq_for_core(whole, core) == spec_tq_for_core(whole.skip(i as int), core),
                forall|j: int| 0 <= j < i ==> #[trigger] whole[j].core != core,
            decreases whole.len() - i,
        {
            let tq = self.timer_queues[i];
            proof {
                assert(whole.skip(i as int)[0] == whole[i as int]);
                assert(whole.skip(i as int).drop_first() =~= whole.skip(i + 1));
            }
            if tq.core == core {
                return Some(tq.priority);
            }
            i += 1;
        }
        proof {
            assert(whole.skip(i as int).len() == 0);
        }
        None
    }

    /// How many free interrupt lines `core` declares.
    pub fn given_for_core(&self, core: u8) -> (n: usize)
        ensures
            n == spec_given(self, core),
    {
        let ghost whole = self.extern_interrupts@;
        proof {
            assert(whole.skip(0) =~= whole);
        }
        let mut i: usize = 0;
        while i < self.extern_interrupts.len()
            invariant
                whole == self.extern_interrupts@,
                i <= whole.len(),
                spec_given_rec(whole, core) == spec_given_rec(whole.skip(i as int), core),
                forall|j: int| 0 <= j < i ==> #[trigger] whole[j].core != core,
            decreases whole.len() - i,
        {
            proof {
                assert(whole.skip(i as int)[0] == whole[i as int]);
                assert(whole.skip(i as int).drop_first() =~= whole.skip(i + 1));
            }
            if self.extern_interrupts[i].core == core {
                return self.extern_interrupts[i].names.len();
            }
            i += 1;
        }
        proof {
            assert(whole.skip(i as int).len() == 0);
        }
        0
    }

    /// How many dispatchers `core` needs: the number of distinct
    /// priority levels among its software tasks and timer queue.
    pub fn need_for_core(&self, core: u8) -> (n: usize)
        ensures
            n == spec_need(self, core),
    {
        let ghost tasks = self.software_tasks@;
        let mut seen: Vec<bool> = Vec::new();
        let mut k: usize = 0;
        while k < 256
            invariant
                seen@.len() == k,
                k <= 256,
                forall|p: int| 0 <= p < k ==> !seen@[p],
            decreases 256 - k,
        {
            seen.push(false);
            k += 1;
        }
        let ghost mut pset = Set::<u8>::empty();
        proof {
            assert(spec_sw_prio_set(tasks.take(0), core) =~= pset);
        }
        let mut count: usize = 0;
        let mut i: usize = 0;
        while i < self.software_tasks.len()
            invariant
                tasks == self.software_tasks@,
                i <= tasks.len(),
                seen@.len() == 256,
                pset == spec_sw_prio_set(tasks.take(i as int), core),
                pset.finite(),
                count == pset.len(),
                count <= i,
                forall|p: u8| #[trigger] pset.contains(p) <==> seen@[p as int],
            decreases tasks.len() - i,
        {
            let t_core = self.software_tasks[i].core;
            let t_prio = self.software_tasks[i].priority;
            proof {
                assert(tasks.take(i + 1).drop_last() =~= tasks.take(i as int));
                assert(tasks.take(i + 1).last() == tasks[i as int]);
            }
            if t_core == core {
                if !seen[t_prio as usize] {
                    seen[t_prio as usize] = true;
                    count += 1;
                    proof {
                        pset = pset.insert(t_prio);
                    }
                } else {
                    proof {
                        assert(pset.insert(t_prio) =~= pset);
                        pset = pset.insert(t_prio);
                    }
                }
            }
            i += 1;
        }
        proof {
            assert(tasks.take(tasks.len() as int) =~= tasks);
        }
        match self.tq_for_core(core) {
            Some(p) => {
                if !seen[p as usize] {
                    proof {
                        assert(spec_core_prio_set(self, core) == pset.insert(p));
                        lemma_prio_set_card(pset.insert(p));
                    }
                    count + 1
                } else {
                    proof {
                        assert(spec_core_prio_set(self, core) =~= pset);
                    }
                    count
                }
            },
            None => {
                count
            },
        }
    }
}

/// One access of a task to a shared resource: which resource, and the
/// accessing task's priority.
#[derive(Clone, Copy, PartialEq, Eq, Structural, Debug)]
pub struct ResourceAccess {
    /// Index of the accessed resource.
    pub resource: usize,
    /// Priority of the accessing task.
    pub priority: u8,
}

/// The ceiling of resource `r`: the maximum priority over every task
/// that accesses it, and 0 when nothing does.
pub open spec fn spec_ceiling(accesses: Seq<ResourceAccess>, r: int) -> u8
    decreases accesses.len(),
{
    if accesses.len() == 0 {
        0
    } else {
        let rest = spec_ceiling(accesses.drop_last(), r);
        if accesses.last().resource == r && accesses.last().priority > rest {
            accesses.last().priority
        } else {
            rest
        }
    }
}

/// Compute the ceiling of every resource from the static access graph.
/// Access mode does not matter: the protocol prevents concurrent
/// execution at conflicting priorities, so readers count like writers.
pub fn compute_ceilings(n_resources: usize, accesses: &Vec<ResourceAccess>) -> (c: Vec<u8>)
    requires
        forall|i: int| 0 <= i < accesses@.len() ==> #[trigger] accesses@[i].resource < n_resources,
    ensures
        c@.len() == n_resources,
        forall|r: int| 0 <= r < n_resources ==> #[trigger] c@[r] == spec_ceiling(accesses@, r),
{
    let ghost all = accesses@;
    let mut c: Vec<u8> = Vec::new();
    let mut k: usize = 0;
    while k < n_resources
        invariant
            k <= n_resources,
            c@.len() == k,
            forall|r: int| 0 <= r < k ==> #[trigger] c@[r] == 0,
        decreases n_resources - k,
    {
        c.push(0);
        k += 1;
    }
    proof {
        assert forall|r: int| 0 <= r < n_resources implies #[trigger] c@[r] == spec_ceiling(
            all.take(0),
            r,
        ) by {
            assert(all.take(0).len() == 0);
        }
    }
    let mut i: usize = 0;
    while i < accesses.len()
        invariant
            all == accesses@,
            i <= all.len(),
            c@.len() == n_resources,
            forall|j: int| 0 <= j < all.len() ==> #[trigger] all[j].resource < n_resources,
            forall|r: int| 0 <= r < n_resources ==> #[trigger] c@[r] == spec_ceiling(
                all.take(i as int),
                r,
            ),
        decreases all.len() - i,
    {
        proof {
            assert(all.take(i + 1).drop_last() =~= all.take(i as int));
            assert(all.take(i + 1).last() == all[i as int]);
        }
        let a = accesses[i];
        if c[a.resource] < a.priority {
            c[a.resource] = a.priority;
        }
        i += 1;
    }
    proof {
        assert(all.take(all.len() as int) =~= all);
    }
    c
}

/// The ceiling dominates every accessor: a task that touches a resource
/// never has a priority above the resource's ceiling.
pub proof fn lemma_ceiling_dominates(accesses: Seq<ResourceAccess>, i: int)
    requires
        0 <= i < accesses.len(),
    ensures
        accesses[i].priority <= spec_ceiling(accesses, accesses[i].resource as int),
    decreases accesses.len(),
{
    if i < accesses.len() - 1 {
        lemma_ceiling_dominates(accesses.drop_last(), i);
    }
}

/// The free interrupt lines the first declaration for `core` holds.
pub open spec fn spec_extern_names_rec(groups: Seq<ExternInterrupts>, core: u8) -> Seq<String>
    decreases groups.len(),
{
    if groups.len() == 0 {
        Seq::empty()
    } else if groups[0].core == core {
        groups[0].names@
    } else {
        spec_extern_names_rec(groups.drop_first(), core)
    }
}

/// A core declares as many free lines as its declaration names.
pub proof fn lemma_extern_names_len(groups: Seq<ExternInterrupts>, core: u8)
    ensures
        spec_extern_names_rec(groups, core).len() == spec_given_rec(groups, core),
    decreases groups.len(),
{
    if groups.len() > 0 && groups[0].core != core {
        lemma_extern_names_len(groups.drop_first(), core);
    }
}

/// A dispatcher assignment is complete and consistent: one entry per
/// distinct priority level on the core, each level exactly once, the
/// lines drawn in order from the core's free-interrupt declaration.
pub open spec fn spec_assignment_ok(app: &AppModel, core: u8, v: Seq<DispatcherAssignment>) -> bool {
    &&& v.len() == spec_need(app, core)
    &&& (forall|k: int|
        0 <= k < v.len() ==> spec_core_prio_set(app, core).contains(#[trigger] v[k].priority))
    &&& (forall|k1: int, k2: int|
        0 <= k1 < k2 < v.len() ==> #[trigger] v[k1].priority != #[trigger] v[k2].priority)
    &&& (forall|p: u8|
        spec_core_prio_set(app, core).contains(p) ==> exists|k: int|
            0 <= k < v.len() && #[trigger] v[k].priority == p)
    &&& (forall|k: int|
        0 <= k < v.len() ==> #[trigger] v[k].name@ == spec_extern_names_rec(
            app.extern_interrupts@,
            core,
        )[k]@)
}

/// One dispatcher assignment: a priority level that has software tasks
/// or the timer queue to run, and the free interrupt line that serves
/// it.
pub struct DispatcherAssignment {
    /// The priority level served.
    pub priority: u8,
    /// The assigned free interrupt line.
    pub name: String,
}

impl AppModel {
    /// The position of `core`'s free-interrupt declaration, if any.
    fn extern_group_for_core(&self, core: u8) -> (r: Option<usize>)
        ensures
            match r {
                Option::Some(g) => g < self.extern_interrupts@.len()
                    && self.extern_interrupts@[g as int].core == core && spec_extern_names_rec(
                    self.extern_interrupts@,
                    core,
                ) == self.extern_interrupts@[g as int].names@,
                Option::None => spec_extern_names_rec(self.extern_interrupts@, core)
                    == Seq::<String>::empty(),
            },
    {
        let ghost whole = self.extern_interrupts@;
        proof {
            assert(whole.skip(0) =~= whole);
        }
        let mut i: usize = 0;
        while i < self.extern_interrupts.len()
            invariant
                whole == self.extern_interrupts@,
                i <= whole.len(),
                spec_extern_names_rec(whole, core) == spec_extern_names_rec(
                    whole.skip(i as int),
                    core,
                ),
            decreases whole.len() - i,
        {
            proof {
                assert(whole.skip(i as int)[0] == whole[i as int]);
                assert(whole.skip(i as int).drop_first() =~= whole.skip(i + 1));
            }
            if self.extern_interrupts[i].core == core {
                return Some(i);
            }
            i += 1;
        }
        proof {
            assert(whole.skip(i as int).len() == 0);
        }
        None
    }

    /// Assign a dedicated dispatcher to every distinct priority level on
    /// `core` that has software tasks or the timer queue to run: the
    /// levels, each exactly once, paired in order with the first free
    /// interrupt lines the core declares.  Fails exactly when the core
    /// is short of free lines.
    pub fn assign_dispatchers(&self, core: u8) -> (r: Option<Vec<DispatcherAssignment>>)
        ensures
            r is Some <==> spec_need(self, core) <= spec_given(self, core),
            r matches Some(v) ==> spec_assignment_ok(self, core, v@),
    {
        let ghost tasks = self.software_tasks@;
        let mut seen: Vec<bool> = Vec::new();
        let mut k: usize = 0;
        while k < 256
            invariant
                seen@.len() == k,
                k <= 256,
                forall|p: int| 0 <= p < k ==> !seen@[p],
            decreases 256 - k,
        {
            seen.push(false);
            k += 1;
        }
        let ghost mut pset = Set::<u8>::empty();
        proof {
            assert(spec_sw_prio_set(tasks.take(0), core) =~= pset);
        }
        let mut levels: Vec<u8> = Vec::new();
        let mut i: usize = 0;
        while i < self.software_tasks.len()
            invariant
                tasks == self.software_tasks@,
                i <= tasks.len(),
                seen@.len() == 256,
                pset == spec_sw_prio_set(tasks.take(i as int), core),
                pset.finite(),
                levels@.len() == pset.len(),
                forall|p: u8| #[trigger] pset.contains(p) <==> seen@[p as int],
                forall|k: int| 0 <= k < levels@.len() ==> pset.contains(#[trigger] levels@[k]),
                forall|k1: int, k2: int|
                    0 <= k1 < k2 < levels@.len() ==> #[trigger] levels@[k1]
                        != #[trigger] levels@[k2],
                forall|p: u8|
                    #[trigger] pset.contains(p) ==> exists|k: int|
                        0 <= k < levels@.len() && levels@[k] == p,
            decreases tasks.len() - i,
        {
            let t_core = self.software_tasks[i].core;
            let t_prio = self.software_tasks[i].priority;
            proof {
                assert(tasks.take(i + 1).drop_last() =~= tasks.take(i as int));
                assert(tasks.take(i + 1).last() == tasks[i as int]);
            }
            if t_core == core {
                if !seen[t_prio as usize] {
                    seen[t_prio as usize] = true;
                    let ghost before = levels@;
                    levels.push(t_prio);
                    proof {
                        pset = pset.insert(t_prio);
                        assert(levels@[before.len() as int] == t_prio);
                        assert forall|p: u8| #[trigger] pset.contains(p) implies exists|k: int|
                            0 <= k < levels@.len() && levels@[k] == p by {
                            if p != t_prio {
                                let k = choose|k: int|
                                    0 <= k < before.len() && before[k] == p;
                                assert(levels@[k] == p);
                            }
                        }
                    }
                } else {
                    proof {
                        assert(pset.insert(t_prio) =~= pset);
                        pset = pset.insert(t_prio);
                    }
                }
            }
            i += 1;
        }
        proof {
            assert(tasks.take(tasks.len() as int) =~= tasks);
        }
        match self.tq_for_core(core) {
            Some(p) => {
                if !seen[p as usize] {
                    let ghost before = levels@;
                    levels.push(p);
                    proof {
                        assert(spec_core_prio_set(self, core) == pset.insert(p));
                        lemma_prio_set_card(pset.insert(p));
                        assert(pset.insert(p).len() == pset.len() + 1);
                        assert(levels@[before.len() as int] == p);
                        assert forall|q: u8|
                            #[trigger] spec_core_prio_set(self, core).contains(q) implies exists|
                            k: int,
                        |
                            0 <= k < levels@.len() && levels@[k] == q by {
                            if q != p {
                                let k = choose|k: int|
                                    0 <= k < before.len() && before[k] == q;
                                assert(levels@[k] == q);
                            }
                        }
                        assert forall|k: int|
                            0 <= k < levels@.len() implies spec_core_prio_set(self, core).contains(
                            #[trigger] levels@[k],
                        ) by {
                            if k < before.len() {
                                assert(levels@[k] == before[k]);
                                assert(pset.contains(before[k]));
                            }
                        }
                        assert forall|k1: int, k2: int|
                            0 <= k1 < k2 < levels@.len() implies #[trigger] levels@[k1]
                            != #[trigger] levels@[k2] by {
                            if k2 == before.len() {
                                assert(levels@[k1] == before[k1]);
                                assert(pset.contains(before[k1]));
                                assert(!pset.contains(p));
                            }
                        }
                    }
                } else {
                    proof {
                        assert(spec_core_prio_set(self, core) =~= pset);
                    }
                }
            },
            None => {
            },
        }
        let ghost chosen = levels@;
        proof {
            lemma_extern_names_len(self.extern_interrupts@, core);
            assert(chosen.len() == spec_need(self, core));
        }
        let group = self.extern_group_for_core(core);
        let given = match group {
            Some(g) => self.extern_interrupts[g].names.len(),
            None => 0,
        };
        if levels.len() > given {
            return None;
        }
        let mut assignments: Vec<DispatcherAssignment> = Vec::new();
        let mut a: usize = 0;
        while a < levels.len()
            invariant
                a <= levels@.len(),
                assignments@.len() == a,
                levels@ == chosen,
                chosen.len() == spec_need(self, core),
                forall|k: int|
                    0 <= k < chosen.len() ==> spec_core_prio_set(self, core).contains(
                        #[trigger] chosen[k],
                    ),
                forall|k1: int, k2: int|
                    0 <= k1 < k2 < chosen.len() ==> #[trigger] chosen[k1] != #[trigger] chosen[k2],
                forall|p: u8|
                    #[trigger] spec_core_prio_set(self, core).contains(p) ==> exists|k: int|
                        0 <= k < chosen.len() && chosen[k] == p,
                group matches Some(g) && g < self.extern_interrupts@.len() && levels@.len()
                    <= self.extern_interrupts@[g as int].names@.len() && spec_extern_names_rec(
                    self.extern_interrupts@,
                    core,
                ) == self.extern_interrupts@[g as int].names@ || levels@.len() == 0,
                forall|k: int| 0 <= k < a ==> #[trigger] assignments@[k].priority == levels@[k],
                forall|k: int|
                    0 <= k < a ==> #[trigger] assignments@[k].name@ == spec_extern_names_rec(
                        self.extern_interrupts@,
                        core,
                    )[k]@,
            decreases levels@.len() - a,
        {
            let name = match group {
                Some(g) => self.extern_interrupts[g].names[a].clone(),
                None => String::new(),
            };
            assignments.push(DispatcherAssignment { priority: levels[a], name });
            a += 1;
        }
        proof {
            assert forall|p: u8| #[trigger] spec_core_prio_set(self, core).contains(
                p,
            ) implies exists|k: int|
                0 <= k < assignments@.len() && #[trigger] assignments@[k].priority == p by {
                let k = choose|k: int| 0 <= k < chosen.len() && chosen[k] == p;
                assert(assignments@[k].priority == p);
            }
        }
        proof {
            assert(spec_assignment_ok(self, core, assignments@));
        }
        Some(assignments)
    }
}

/// Whether `s` names one of the exception vectors whose priority is
/// always configurable, and which a hardware task may therefore bind.
pub open spec fn spec_is_allowed_exception(s: Seq<char>) -> bool {
    ||| s == "MemoryManagement"@
    ||| s == "BusFault"@
    ||| s == "UsageFault"@
    ||| s == "SecureFault"@
    ||| s == "SVCall"@
    ||| s == "DebugMonitor"@
    ||| s == "PendSV"@
}

/// Whether `s` names the tick exception the runtime reserves for its
/// timer queue.
pub open spec fn spec_is_tick_exception(s: Seq<char>) -> bool {
    s == "SysTick"@
}

/// Whether `s` names any architecture exception vector, none of which a
/// free interrupt declaration may shadow.
pub open spec fn spec_is_exception_name(s: Seq<char>) -> bool {
    ||| spec_is_allowed_exception(s)
    ||| spec_is_tick_exception(s)
    ||| s == "NonMaskableInt"@
    ||| s == "HardFault"@
}

/// String comparison against a literal.
fn string_is(s: &String, lit: &str) -> (r: bool)
    ensures
        r == (s@ == lit@),
{
    let l = String::from_str(lit);
    *s == l
}

/// Exec test for `spec_is_allowed_exception`.
fn is_allowed_exception(name: &String) -> (r: bool)
    ensures
        r == spec_is_allowed_exception(name@),
{
    string_is(name, "MemoryManagement") || string_is(name, "BusFault") || string_is(
        name,
        "UsageFault",
    ) || string_is(name, "SecureFault") || string_is(name, "SVCall") || string_is(
        name,
        "DebugMonitor",
    ) || string_is(name, "PendSV")
}

/// Exec test for `spec_is_exception_name`.
fn is_exception_name(name: &String) -> (r: bool)
    ensures
        r == spec_is_exception_name(name@),
{
    is_allowed_exception(name) || string_is(name, "SysTick") || string_is(name, "NonMaskableInt")
        || string_is(name, "HardFault")
}

/// Hardware task `i` binds an exception it must not: either a vector
/// with no configurable priority, or the tick exception while the
/// runtime itself needs it for the core's timer queue.
pub open spec fn spec_hw_offending(app: &AppModel, i: int) -> bool {
    let t = app.hardware_tasks@[i];
    &&& t.kind is Exception
    &&& !spec_is_allowed_exception(t.binds@)
    &&& (spec_is_tick_exception(t.binds@) ==> spec_tq_for_core(app.timer_queues@, t.core) is Some)
}

/// No hardware task binds a forbidden exception.
pub open spec fn spec_no_hw_violation(app: &AppModel) -> bool {
    forall|i: int| 0 <= i < app.hardware_tasks@.len() ==> !spec_hw_offending(app, i)
}

/// The free-interrupt declaration at group `g`, name `k` shadows an
/// exception name.
pub open spec fn spec_extern_offending(app: &AppModel, g: int, k: int) -> bool {
    spec_is_exception_name(app.extern_interrupts@[g].names@[k]@)
}

/// No free-interrupt declaration shadows an exception name.
pub open spec fn spec_no_extern_violation(app: &AppModel) -> bool {
    forall|g: int, k: int|
        0 <= g < app.extern_interrupts@.len() && 0 <= k
            < app.extern_interrupts@[g].names@.len() ==> !spec_extern_offending(app, g, k)
}

/// Every core declares enough free interrupts for its software tasks
/// and timer queue.
pub open spec fn spec_dispatch_ok(app: &AppModel) -> bool {
    forall|c: u8| c < app.cores ==> spec_need(app, c) <= spec_given(app, c)
}

/// Configuration argument `c` is ill-formed for an application with
/// `cores` cores.
pub open spec fn spec_custom_bad(c: &CustomSetting, cores: u8) -> bool {
    if c.key@ == "device"@ {
        !(c.value is Path)
    } else if c.key@ == "monotonic"@ {
        !(c.value is Path)
    } else if c.key@ == "peripherals"@ {
        if cores == 1 {
            !(c.value is Bool)
        } else {
            match c.value {
                CustomArg::UInt(x) => x >= cores as u64,
                _ => true,
            }
        }
    } else {
        true
    }
}

/// Every configuration argument is well-formed.
pub open spec fn spec_no_custom_violation(app: &AppModel) -> bool {
    forall|i: int| 0 <= i < app.custom@.len() ==> !spec_custom_bad(&app.custom@[i], app.cores)
}

/// The configured device path: the last well-formed `device` argument.
pub open spec fn spec_device(custom: Seq<CustomSetting>) -> Option<Seq<char>>
    decreases custom.len(),
{
    if custom.len() == 0 {
        None
    } else if custom.last().key@ == "device"@ {
        match custom.last().value {
            CustomArg::Path(p) => Some(p@),
            _ => spec_device(custom.drop_last()),
        }
    } else {
        spec_device(custom.drop_last())
    }
}

/// The configured monotonic timer path: the last well-formed
/// `monotonic` argument.
pub open spec fn spec_monotonic(custom: Seq<CustomSetting>) -> Option<Seq<char>>
    decreases custom.len(),
{
    if custom.len() == 0 {
        None
    } else if custom.last().key@ == "monotonic"@ {
        match custom.last().value {
            CustomArg::Path(p) => Some(p@),
            _ => spec_monotonic(custom.drop_last()),
        }
    } else {
        spec_monotonic(custom.drop_last())
    }
}

/// The configured peripheral owner: the last well-formed `peripherals`
/// argument decides, a boolean on single-core applications and a core
/// index otherwise.
pub open spec fn spec_peripherals(custom: Seq<CustomSetting>, cores: u8) -> Option<u8>
    decreases custom.len(),
{
    if custom.len() == 0 {
        None
    } else if custom.last().key@ == "peripherals"@ {
        if cores == 1 {
            match custom.last().value {
                CustomArg::Bool(x) => if x {
                    Some(0)
                } else {
                    None
                },
                _ => spec_peripherals(custom.drop_last(), cores),
            }
        } else {
            match custom.last().value {
                CustomArg::UInt(x) => if x < cores as u64 {
                    Some(x as u8)
                } else {
                    spec_peripherals(custom.drop_last(), cores)
                },
                _ => spec_peripherals(custom.drop_last(), cores),
            }
        }
    } else {
        spec_peripherals(custom.drop_last(), cores)
    }
}

/// The application passes every check of the analysis.
pub open spec fn spec_accepted(app: &AppModel) -> bool {
    &&& spec_no_hw_violation(app)
    &&& spec_no_extern_violation(app)
    &&& spec_dispatch_ok(app)
    &&& spec_no_custom_violation(app)
    &&& (app.timer_queues@.len() > 0 ==> spec_monotonic(app.custom@) is Some)
    &&& spec_device(app.custom@) is Some
}

/// The last software task declared on `core`, which a dispatcher
/// shortfall diagnostic is attributed to.
pub open spec fn spec_blamed_task(tasks: Seq<SoftwareTask>, core: u8) -> Option<int>
    decreases tasks.len(),
{
    if tasks.len() == 0 {
        None
    } else if tasks.last().core == core {
        Some(tasks.len() - 1)
    } else {
        spec_blamed_task(tasks.drop_last(), core)
    }
}

/// A build-time diagnostic of the analysis, bound to the offending
/// declaration.
#[derive(Debug)]
pub enum AnalysisError {
    /// A hardware task binds the tick exception while the runtime needs
    /// it for the core's timer queue.
    ExceptionUsedByRuntime {
        /// The offending task.
        task: String,
    },
    /// A hardware task binds an exception whose priority is not
    /// configurable.
    ExceptionNotConfigurable {
        /// The offending task.
        task: String,
    },
    /// A free-interrupt declaration shadows an exception name.
    ExceptionAsExternInterrupt {
        /// The offending vector name.
        name: String,
    },
    /// A core needs more dispatchers than it declares free interrupts;
    /// the shortfall is `need - given`.
    NotEnoughInterrupts {
        /// The core that is short of dispatchers.
        core: u8,
        /// Distinct priority levels that need a dispatcher.
        need: usize,
        /// Free interrupt lines declared.
        given: usize,
        /// The last software task declared on the core, when one exists.
        task: Option<String>,
    },
    /// A `device` or `monotonic` argument whose value is not a path.
    ArgNotAPath {
        /// The argument's key.
        key: String,
    },
    /// A `peripherals` argument on a single-core application whose value
    /// is not a boolean.
    PeripheralsNotBool,
    /// A `peripherals` argument on a multi-core application whose value
    /// is not an integer.
    PeripheralsNotUInt,
    /// A `peripherals` core index at or above the core count.
    PeripheralsOutOfRange {
        /// The out-of-range index.
        value: u64,
        /// The application's core count.
        cores: u8,
    },
    /// A configuration argument with an unknown key.
    UnknownArg {
        /// The unknown key.
        key: String,
    },
    /// A dispatcher name the target controller cannot dispatch through.
    UnsupportedDispatcher {
        /// The unsupported vector name.
        name: String,
    },
    /// An interrupt vector configured with a priority the hardware
    /// cannot represent.
    PriorityTooHigh {
        /// The offending vector name.
        name: String,
        /// The configured priority.
        priority: u8,
        /// The highest hardware-supported priority bound.
        max: u8,
    },
    /// A task suspends on time but no monotonic timer is configured.
    MissingMonotonic,
    /// No device was configured.
    MissingDevice,
}

/// Pairs the analysis result with the condition that produced it.
pub open spec fn spec_error_matches(app: &AppModel, e: &AnalysisError) -> bool {
    match e {
        AnalysisError::ExceptionUsedByRuntime { task } => exists|i: int|
            0 <= i < app.hardware_tasks@.len() && #[trigger] spec_hw_offending(app, i)
                && (forall|j: int| 0 <= j < i ==> !spec_hw_offending(app, j))
                && spec_is_tick_exception(app.hardware_tasks@[i].binds@) && task@
                == app.hardware_tasks@[i].name@,
        AnalysisError::ExceptionNotConfigurable { task } => exists|i: int|
            0 <= i < app.hardware_tasks@.len() && #[trigger] spec_hw_offending(app, i)
                && (forall|j: int| 0 <= j < i ==> !spec_hw_offending(app, j))
                && !spec_is_tick_exception(app.hardware_tasks@[i].binds@) && task@
                == app.hardware_tasks@[i].name@,
        AnalysisError::ExceptionAsExternInterrupt { name } => spec_no_hw_violation(app)
            && exists|g: int, k: int|
            0 <= g < app.extern_interrupts@.len() && 0 <= k
                < app.extern_interrupts@[g].names@.len() && #[trigger] spec_extern_offending(
                app,
                g,
                k,
            ) && (forall|g2: int, k2: int|
                0 <= g2 < app.extern_interrupts@.len() && 0 <= k2
                    < app.extern_interrupts@[g2].names@.len() && (g2 < g || (g2 == g && k2 < k))
                    ==> !spec_extern_offending(app, g2, k2)) && name@
                == app.extern_interrupts@[g].names@[k]@,
        AnalysisError::NotEnoughInterrupts { core, need, given, task } => {
            &&& spec_no_hw_violation(app)
            &&& spec_no_extern_violation(app)
            &&& core < app.cores
            &&& spec_need(app, *core) > spec_given(app, *core)
            &&& forall|c: u8| c < *core ==> spec_need(app, c) <= spec_given(app, c)
            &&& need == spec_need(app, *core)
            &&& given == spec_given(app, *core)
            &&& match (task, spec_blamed_task(app.software_tasks@, *core)) {
                (Option::None, Option::None) => true,
                (Option::Some(t), Option::Some(ix)) => t@ == app.software_tasks@[ix].name@,
                _ => false,
            }
        },
        AnalysisError::ArgNotAPath { key } => spec_pre_custom_ok(app) && exists|i: int|
            #![trigger app.custom@[i]]
            0 <= i < app.custom@.len() && spec_custom_bad(&app.custom@[i], app.cores) && (forall|
                j: int,
            |
                0 <= j < i ==> !spec_custom_bad(&app.custom@[j], app.cores)) && (app.custom@[i].key@
                == "device"@ || app.custom@[i].key@ == "monotonic"@) && key@ == app.custom@[i].key@,
        AnalysisError::PeripheralsNotBool => spec_pre_custom_ok(app) && app.cores == 1
            && exists|i: int|
            #![trigger app.custom@[i]]
            0 <= i < app.custom@.len() && spec_custom_bad(&app.custom@[i], app.cores) && (forall|
                j: int,
            |
                0 <= j < i ==> !spec_custom_bad(&app.custom@[j], app.cores)) && app.custom@[i].key@
                == "peripherals"@,
        AnalysisError::PeripheralsNotUInt => spec_pre_custom_ok(app) && app.cores != 1
            && exists|i: int|
            #![trigger app.custom@[i]]
            0 <= i < app.custom@.len() && spec_custom_bad(&app.custom@[i], app.cores) && (forall|
                j: int,
            |
                0 <= j < i ==> !spec_custom_bad(&app.custom@[j], app.cores)) && app.custom@[i].key@
                == "peripherals"@ && !(app.custom@[i].value is UInt),
        AnalysisError::PeripheralsOutOfRange { value, cores } => spec_pre_custom_ok(app)
            && app.cores != 1 && cores == app.cores && exists|i: int|
            #![trigger app.custom@[i]]
            0 <= i < app.custom@.len() && spec_custom_bad(&app.custom@[i], app.cores) && (forall|
                j: int,
            |
                0 <= j < i ==> !spec_custom_bad(&app.custom@[j], app.cores)) && app.custom@[i].key@
                == "peripherals"@ && app.custom@[i].value == CustomArg::UInt(*value) && value
                >= app.cores as u64,
        AnalysisError::UnknownArg { key } => spec_pre_custom_ok(app) && exists|i: int|
            #![trigger app.custom@[i]]
            0 <= i < app.custom@.len() && spec_custom_bad(&app.custom@[i], app.cores) && (forall|
                j: int,
            |
                0 <= j < i ==> !spec_custom_bad(&app.custom@[j], app.cores)) && app.custom@[i].key@
                != "device"@ && app.custom@[i].key@ != "monotonic"@ && app.custom@[i].key@
                != "peripherals"@ && key@ == app.custom@[i].key@,
        AnalysisError::UnsupportedDispatcher { .. } => false,
        AnalysisError::PriorityTooHigh { .. } => false,
        AnalysisError::MissingMonotonic => spec_pre_custom_ok(app) && spec_no_custom_violation(app)
            && app.timer_queues@.len() > 0 && spec_monotonic(app.custom@) is None,
        AnalysisError::MissingDevice => spec_pre_custom_ok(app) && spec_no_custom_violation(app)
            && (app.timer_queues@.len() > 0 ==> spec_monotonic(app.custom@) is Some)
            && spec_device(app.custom@) is None,
    }
}

/// The three configuration keys are distinct words.
proof fn lemma_config_keys_distinct()
    ensures
        "device"@ != "monotonic"@,
        "device"@ != "peripherals"@,
        "monotonic"@ != "peripherals"@,
{
    reveal_strlit("device");
    reveal_strlit("monotonic");
    reveal_strlit("peripherals");
    assert("device"@.len() == 6);
    assert("monotonic"@.len() == 9);
    assert("peripherals"@.len() == 11);
}

/// The checks that precede configuration-argument parsing all passed.
pub open spec fn spec_pre_custom_ok(app: &AppModel) -> bool {
    spec_no_hw_violation(app) && spec_no_extern_violation(app) && spec_dispatch_ok(app)
}

impl AppModel {
    /// The name of the last software task declared on `core`, to blame
    /// a dispatcher shortfall on.
    fn blamed_task(&self, core: u8) -> (r: Option<String>)
        ensures
            match (r, spec_blamed_task(self.software_tasks@, core)) {
                (Option::None, Option::None) => true,
                (Option::Some(t), Option::Some(ix)) => t@ == self.software_tasks@[ix].name@,
                _ => false,
            },
    {
        let ghost tasks = self.software_tasks@;
        let mut found: Option<usize> = None;
        let mut i: usize = 0;
        proof {
            assert(tasks.take(0).len() == 0);
        }
        while i < self.software_tasks.len()
            invariant
                tasks == self.software_tasks@,
                i <= tasks.len(),
                match found {
                    Option::None => spec_blamed_task(tasks.take(i as int), core) is None,
                    Option::Some(f) => f < i && spec_blamed_task(tasks.take(i as int), core)
                        == Some(f as int),
                },
            decreases tasks.len() - i,
        {
            proof {
                assert(tasks.take(i + 1).drop_last() =~= tasks.take(i as int));
                assert(tasks.take(i + 1).last() == tasks[i as int]);
            }
            if self.software_tasks[i].core == core {
                found = Some(i);
            }
            i += 1;
        }
        proof {
            assert(tasks.take(tasks.len() as int) =~= tasks);
        }
        match found {
            Some(ix) => Some(self.software_tasks[ix].name.clone()),
            None => None,
        }
    }
}

/// Validate the whole application declaration and extract its platform
/// configuration.
///
/// The checks run in declaration order: hardware tasks may bind only
/// exceptions with configurable priorities, and not the tick exception
/// on a core whose timer queue needs it; free-interrupt declarations
/// must not shadow exception names; every core must declare at least as
/// many free interrupts as it has distinct priority levels to dispatch;
/// the configuration arguments must be well-formed; a monotonic timer
/// must be configured as soon as any task suspends on time; and a
/// device must always be configured.  The first violated check decides
/// the diagnostic, which names the offending declaration.
pub fn app(model: &AppModel) -> (r: Result<Extra, AnalysisError>)
    requires
        model.wf(),
    ensures
        r is Ok <==> spec_accepted(model),
        r matches Ok(extra) ==> {
            &&& extra.device@ == spec_device(model.custom@).unwrap()
            &&& (extra.monotonic is Some <==> spec_monotonic(model.custom@) is Some)
            &&& (match extra.monotonic {
                Option::Some(m) => m@ == spec_monotonic(model.custom@).unwrap(),
                Option::None => true,
            })
            &&& extra.peripherals == spec_peripherals(model.custom@, model.cores)
        },
        r matches Err(e) ==> spec_error_matches(model, &e),
{
    // hardware tasks may bind only exceptions with configurable priority
    let mut i: usize = 0;
    while i < model.hardware_tasks.len()
        invariant
            i <= model.hardware_tasks@.len(),
            forall|j: int| 0 <= j < i ==> !spec_hw_offending(model, j),
        decreases model.hardware_tasks@.len() - i,
    {
        let t = &model.hardware_tasks[i];
        let is_exception = match t.kind {
            HardwareTaskKind::Exception => true,
            HardwareTaskKind::Interrupt => false,
        };
        if is_exception && !is_allowed_exception(&t.binds) {
            if string_is(&t.binds, "SysTick") {
                if model.tq_for_core(t.core).is_some() {
                    proof {
                        assert(spec_hw_offending(model, i as int));
                    }
                    return Err(AnalysisError::ExceptionUsedByRuntime { task: t.name.clone() });
                }
            } else {
                proof {
                    assert(spec_hw_offending(model, i as int));
                }
                return Err(AnalysisError::ExceptionNotConfigurable { task: t.name.clone() });
            }
        }
        i += 1;
    }
    // free interrupt lines must not shadow exception names
    let mut g: usize = 0;
    while g < model.extern_interrupts.len()
        invariant
            spec_no_hw_violation(model),
            g <= model.extern_interrupts@.len(),
            forall|g2: int, k2: int|
                0 <= g2 < g && 0 <= k2 < model.extern_interrupts@[g2].names@.len()
                    ==> !spec_extern_offending(model, g2, k2),
        decreases model.extern_interrupts@.len() - g,
    {
        let names = &model.extern_interrupts[g].names;
        let mut k: usize = 0;
        while k < names.len()
            invariant
                spec_no_hw_violation(model),
                g < model.extern_interrupts@.len(),
                names == &model.extern_interrupts@[g as int].names,
                k <= names@.len(),
                forall|g2: int, k2: int|
                    0 <= g2 < g && 0 <= k2 < model.extern_interrupts@[g2].names@.len()
                        ==> !spec_extern_offending(model, g2, k2),
                forall|k2: int| 0 <= k2 < k ==> !spec_extern_offending(model, g as int, k2),
            decreases names@.len() - k,
        {
            if is_exception_name(&names[k]) {
                proof {
                    assert(spec_extern_offending(model, g as int, k as int));
                }
                return Err(AnalysisError::ExceptionAsExternInterrupt { name: names[k].clone() });
            }
            k += 1;
        }
        g += 1;
    }
    // every core needs a dispatcher per distinct priority level
    let mut c: u8 = 0;
    while c < model.cores
        invariant
            spec_no_hw_violation(model),
            spec_no_extern_violation(model),
            c <= model.cores,
            forall|c2: u8| c2 < c ==> spec_need(model, c2) <= spec_given(model, c2),
        decreases model.cores - c,
    {
        let need = model.need_for_core(c);
        let given = model.given_for_core(c);
        if need > given {
            let task = model.blamed_task(c);
            return Err(AnalysisError::NotEnoughInterrupts { core: c, need, given, task });
        }
        c += 1;
    }
    // configuration arguments
    let mut device: Option<String> = None;
    let mut monotonic: Option<String> = None;
    let mut peripherals: Option<u8> = None;
    let mut a: usize = 0;
    proof {
        assert(model.custom@.take(0).len() == 0);
    }
    while a < model.custom.len()
        invariant
            spec_no_hw_violation(model),
            spec_no_extern_violation(model),
            spec_dispatch_ok(model),
            a <= model.custom@.len(),
            forall|j: int| 0 <= j < a ==> !spec_custom_bad(&model.custom@[j], model.cores),
            match device {
                Option::None => spec_device(model.custom@.take(a as int)) is None,
                Option::Some(d) => spec_device(model.custom@.take(a as int)) == Some(d@),
            },
            match monotonic {
                Option::None => spec_monotonic(model.custom@.take(a as int)) is None,
                Option::Some(m) => spec_monotonic(model.custom@.take(a as int)) == Some(m@),
            },
            peripherals == spec_peripherals(model.custom@.take(a as int), model.cores),
        decreases model.custom@.len() - a,
    {
        proof {
            lemma_config_keys_distinct();
            assert(model.custom@.take(a + 1).drop_last() =~= model.custom@.take(a as int));
            assert(model.custom@.take(a + 1).last() == model.custom@[a as int]);
        }
        let s = &model.custom[a];
        let is_device = string_is(&s.key, "device");
        let is_monotonic = string_is(&s.key, "monotonic");
        let is_peripherals = string_is(&s.key, "peripherals");
        if is_device {
            match &s.value {
                CustomArg::Path(p) => {
                    device = Some(p.clone());
                },
                _ => {
                    return Err(AnalysisError::ArgNotAPath { key: s.key.clone() });
                },
            }
        } else if is_monotonic {
            match &s.value {
                CustomArg::Path(p) => {
                    monotonic = Some(p.clone());
                },
                _ => {
                    return Err(AnalysisError::ArgNotAPath { key: s.key.clone() });
                },
            }
        } else if is_peripherals {
            if model.cores == 1 {
                match &s.value {
                    CustomArg::Bool(x) => {
                        peripherals = if *x {
                            Some(0)
                        } else {
                            None
                        };
                    },
                    _ => {
                        return Err(AnalysisError::PeripheralsNotBool);
                    },
                }
            } else {
                match &s.value {
                    CustomArg::UInt(x) => {
                        if *x < model.cores as u64 {
                            peripherals = Some(*x as u8);
                        } else {
                            return Err(
                                AnalysisError::PeripheralsOutOfRange {
                                    value: *x,
                                    cores: model.cores,
                                },
                            );
                        }
                    },
                    _ => {
                        return Err(AnalysisError::PeripheralsNotUInt);
                    },
                }
            }
        } else {
            return Err(AnalysisError::UnknownArg { key: s.key.clone() });
        }
        a += 1;
    }
    proof {
        assert(model.custom@.take(model.custom@.len() as int) =~= model.custom@);
    }
    // a monotonic timer is required as soon as any task suspends on time
    if model.timer_queues.len() > 0 && monotonic.is_none() {
        return Err(AnalysisError::MissingMonotonic);
    }
    // a device is always required
    match device {
        Some(d) => Ok(Extra { device: d, monotonic, peripherals }),
        None => Err(AnalysisError::MissingDevice),
    }
}

} // verus!
