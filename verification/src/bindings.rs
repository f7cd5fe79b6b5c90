//! Controller-specific validation and the startup sequence.
//!
//! Every target interrupt controller imposes its own constraints on the
//! task set: which vectors can serve as software-task dispatchers, and
//! how high a priority the hardware can represent.  This module checks
//! those constraints and derives the startup sequence that configures
//! the controller before the application's init code runs: interrupts
//! globally disabled first, then, for every vector in use, its priority
//! written strictly before it is unmasked — changing the priority of an
//! already-pended interrupt has platform-defined behavior.

use vstd::prelude::*;

use crate::analysis::{lemma_prio_set_card, AnalysisError, AppModel, SoftwareTask};

verus! {

broadcast use vstd::set::group_set_axioms;

/// Whether `s` names a vector this controller can dispatch software
/// tasks through.
pub open spec fn spec_is_supported_dispatcher(s: Seq<char>) -> bool {
    ||| s == "FROM_CPU_INTR0"@
    ||| s == "FROM_CPU_INTR1"@
    ||| s == "FROM_CPU_INTR2"@
    ||| s == "FROM_CPU_INTR3"@
}

/// String comparison against a literal.
fn string_is(s: &String, lit: &str) -> (r: bool)
    ensures
        r == (s@ == lit@),
{
    let l = String::from_str(lit);
    *s == l
}

/// Exec test for `spec_is_supported_dispatcher`.
fn is_supported_dispatcher(name: &String) -> (r: bool)
    ensures
        r == spec_is_supported_dispatcher(name@),
{
    string_is(name, "FROM_CPU_INTR0") || string_is(name, "FROM_CPU_INTR1") || string_is(
        name,
        "FROM_CPU_INTR2",
    ) || string_is(name, "FROM_CPU_INTR3")
}

/// The distinct positive priorities among all software tasks.
pub open spec fn spec_pos_prio_set(tasks: Seq<SoftwareTask>) -> Set<u8>
    decreases tasks.len(),
{
    if tasks.len() == 0 {
        Set::empty()
    } else if tasks.last().priority > 0 {
        spec_pos_prio_set(tasks.drop_last()).insert(tasks.last().priority)
    } else {
        spec_pos_prio_set(tasks.drop_last())
    }
}

/// How many distinct positive priority levels the software tasks use.
fn pos_prio_count(tasks: &Vec<SoftwareTask>) -> (n: usize)
    ensures
        n == spec_pos_prio_set(tasks@).len(),
{
    let ghost all = tasks@;
    let mut seen: Vec<bool> = Vec::new();
    let mut k: usize = 0;
    while k < 256
        invariant
            seen@.len() == k,
            k <= 256,
            forall|p: int| 0 <= p < k ==> !seen@[p],
        decreases 256 - k,
    {
        seen.push(false);
        k += 1;
    }
    let ghost mut pset = Set::<u8>::empty();
    proof {
        assert(spec_pos_prio_set(all.take(0)) =~= pset);
    }
    let mut count: usize = 0;
    let mut i: usize = 0;
    while i < tasks.len()
        invariant
            all == tasks@,
            i <= all.len(),
            seen@.len() == 256,
            pset == spec_pos_prio_set(all.take(i as int)),
            pset.finite(),
            count == pset.len(),
            count <= i,
            forall|p: u8| #[trigger] pset.contains(p) <==> seen@[p as int],
        decreases all.len() - i,
    {
        let t_prio = tasks[i].priority;
        proof {
            assert(all.take(i + 1).drop_last() =~= all.take(i as int));
            assert(all.take(i + 1).last() == all[i as int]);
        }
        if t_prio > 0 {
            if !seen[t_prio as usize] {
                seen[t_prio as usize] = true;
                count += 1;
                proof {
                    pset = pset.insert(t_prio);
                }
            } else {
                proof {
                    assert(pset.insert(t_prio) =~= pset);
                    pset = pset.insert(t_prio);
                }
            }
        }
        i += 1;
    }
    proof {
        assert(all.take(all.len() as int) =~= all);
    }
    count
}

/// Validate what this controller can express: every declared dispatcher
/// must be one of its software-interrupt vectors, and the distinct
/// positive software-task priority levels must not outnumber the
/// dispatchers.
pub fn architecture_specific_analysis(model: &AppModel) -> (r: Result<(), AnalysisError>)
    ensures
        r is Ok <==> ((forall|i: int|
            0 <= i < model.dispatchers@.len() ==> spec_is_supported_dispatcher(
                #[trigger] model.dispatchers@[i]@,
            )) && spec_pos_prio_set(model.software_tasks@).len() <= model.dispatchers@.len()),
        r matches Err(e) ==> match e {
            AnalysisError::UnsupportedDispatcher { name } => exists|i: int|
                0 <= i < model.dispatchers@.len() && !spec_is_supported_dispatcher(
                    #[trigger] model.dispatchers@[i]@,
                ) && (forall|j: int|
                    0 <= j < i ==> spec_is_supported_dispatcher(#[trigger] model.dispatchers@[j]@))
                    && name@ == model.dispatchers@[i]@,
            AnalysisError::NotEnoughInterrupts { core, need, given, task } => {
                &&& (forall|i: int|
                    0 <= i < model.dispatchers@.len() ==> spec_is_supported_dispatcher(
                        #[trigger] model.dispatchers@[i]@,
                    ))
                &&& core == 0
                &&& need == spec_pos_prio_set(model.software_tasks@).len()
                &&& given == model.dispatchers@.len()
                &&& need > given
                &&& match task {
                    Option::Some(t) => model.software_tasks@.len() > 0 && t@
                        == model.software_tasks@.last().name@,
                    Option::None => model.software_tasks@.len() == 0,
                }
            },
            _ => false,
        },
{
    let mut i: usize = 0;
    while i < model.dispatchers.len()
        invariant
            i <= model.dispatchers@.len(),
            forall|j: int|
                0 <= j < i ==> spec_is_supported_dispatcher(#[trigger] model.dispatchers@[j]@),
        decreases model.dispatchers@.len() - i,
    {
        if !is_supported_dispatcher(&model.dispatchers[i]) {
            return Err(
                AnalysisError::UnsupportedDispatcher { name: model.dispatchers[i].clone() },
            );
        }
        i += 1;
    }
    let need = pos_prio_count(&model.software_tasks);
    let given = model.dispatchers.len();
    if need > given {
        let task = if model.software_tasks.len() > 0 {
            Some(model.software_tasks[model.software_tasks.len() - 1].name.clone())
        } else {
            None
        };
        return Err(AnalysisError::NotEnoughInterrupts { core: 0, need, given, task });
    }
    Ok(())
}

/// Whether some vector in `valid` is named `name`.
pub open spec fn spec_vector_known(valid: Seq<String>, name: Seq<char>) -> bool {
    exists|j: int| 0 <= j < valid.len() && #[trigger] valid[j]@ == name
}

/// Check that every declared dispatcher names a real vector of the
/// target, whose authoritative name set the capability layer supplies.
pub fn pre_init_checks(model: &AppModel, valid_vectors: &Vec<String>) -> (r: bool)
    ensures
        r == forall|i: int|
            0 <= i < model.dispatchers@.len() ==> spec_vector_known(
                valid_vectors@,
                #[trigger] model.dispatchers@[i]@,
            ),
{
    let mut i: usize = 0;
    while i < model.dispatchers.len()
        invariant
            i <= model.dispatchers@.len(),
            forall|j: int|
                0 <= j < i ==> spec_vector_known(valid_vectors@, #[trigger] model.dispatchers@[j]@),
        decreases model.dispatchers@.len() - i,
    {
        let name = &model.dispatchers[i];
        let mut k: usize = 0;
        let mut known = false;
        while k < valid_vectors.len()
            invariant
                k <= valid_vectors@.len(),
                known ==> spec_vector_known(valid_vectors@, name@),
                !known ==> forall|j: int| 0 <= j < k ==> #[trigger] valid_vectors@[j]@ != name@,
            decreases valid_vectors@.len() - k,
        {
            if *name == valid_vectors[k] {
                known = true;
            }
            k += 1;
        }
        if !known {
            proof {
                assert(!spec_vector_known(valid_vectors@, model.dispatchers@[i as int]@));
            }
            return false;
        }
        i += 1;
    }
    true
}

/// One interrupt vector in use and the priority it must be configured
/// with: a dispatcher serving a software priority level, or a hardware
/// task's bound vector.
pub struct InterruptBinding {
    /// The vector's name.
    pub name: String,
    /// The logical priority to configure.
    pub priority: u8,
}

/// One step of the generated startup sequence.
pub enum StartupAction {
    /// Globally disable interrupts; init runs with them off.
    DisableInterrupts,
    /// Write a vector's hardware priority.
    SetPriority {
        /// The vector.
        name: String,
        /// The priority to write.
        priority: u8,
    },
    /// Unmask a vector.
    Enable {
        /// The vector.
        name: String,
    },
}

/// Derive the startup sequence that runs before init: disable
/// interrupts globally, then, for every vector in use, configure its
/// priority strictly before unmasking it.  A priority at or above
/// `max_priority` cannot be represented by the hardware and stops the
/// build.
pub fn pre_init(bindings: &Vec<InterruptBinding>, max_priority: u8) -> (r: Result<
    Vec<StartupAction>,
    AnalysisError,
>)
    ensures
        r is Ok <==> (forall|i: int|
            0 <= i < bindings@.len() ==> #[trigger] bindings@[i].priority < max_priority),
        r matches Ok(actions) ==> {
            &&& actions@.len() == 1 + 2 * bindings@.len()
            &&& actions@[0] is DisableInterrupts
            &&& forall|i: int|
                0 <= i < bindings@.len() ==> match #[trigger] actions@[1 + 2 * i] {
                    StartupAction::SetPriority { name, priority } => name@ == bindings@[i].name@
                        && priority == bindings@[i].priority,
                    _ => false,
                }
            &&& forall|i: int|
                0 <= i < bindings@.len() ==> match #[trigger] actions@[2 + 2 * i] {
                    StartupAction::Enable { name } => name@ == bindings@[i].name@,
                    _ => false,
                }
        },
        r matches Err(e) ==> match e {
            AnalysisError::PriorityTooHigh { name, priority, max } => exists|i: int|
                0 <= i < bindings@.len() && #[trigger] bindings@[i].priority >= max_priority && (
                forall|j: int| 0 <= j < i ==> #[trigger] bindings@[j].priority < max_priority)
                    && name@ == bindings@[i].name@ && priority == bindings@[i].priority && max
                    == max_priority,
            _ => false,
        },
{
    let mut actions: Vec<StartupAction> = Vec::new();
    actions.push(StartupAction::DisableInterrupts);
    let mut i: usize = 0;
    while i < bindings.len()
        invariant
            i <= bindings@.len(),
            actions@.len() == 1 + 2 * i,
            actions@[0] is DisableInterrupts,
            forall|j: int| 0 <= j < i ==> #[trigger] bindings@[j].priority < max_priority,
            forall|j: int|
                0 <= j < i ==> match #[trigger] actions@[1 + 2 * j] {
                    StartupAction::SetPriority { name, priority } => name@ == bindings@[j].name@
                        && priority == bindings@[j].priority,
                    _ => false,
                },
            forall|j: int|
                0 <= j < i ==> match #[trigger] actions@[2 + 2 * j] {
                    StartupAction::Enable { name } => name@ == bindings@[j].name@,
                    _ => false,
                },
        decreases bindings@.len() - i,
    {
        let b = &bindings[i];
        if b.priority >= max_priority {
            return Err(
                AnalysisError::PriorityTooHigh {
                    name: b.name.clone(),
                    priority: b.priority,
                    max: max_priority,
                },
            );
        }
        actions.push(StartupAction::SetPriority { name: b.name.clone(), priority: b.priority });
        actions.push(StartupAction::Enable { name: b.name.clone() });
        i += 1;
    }
    Ok(actions)
}

/// The priority bound handed to asynchronous drivers: the analysis'
/// limit when one was derived, otherwise everything the hardware's
/// priority bits can express.
pub fn async_prio_limit(max_async_prio: Option<u8>, prio_bits: u8) -> (r: u8)
    requires
        prio_bits < 8,
    ensures
        r == match max_async_prio {
            Option::Some(m) => m,
            Option::None => (1u8 << prio_bits),
        },
{
    match max_async_prio {
        Some(m) => m,
        None => 1u8 << prio_bits,
    }
}

} // verus!
