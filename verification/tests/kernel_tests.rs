use rtic::export::{assert_send, assert_sync, run, Priority};
use rtic::kernel::{
    run_trace, with_ceiling, Action, Core, LockEvent, Sim, SimTask, StepOutcome, TraceError,
};

#[test]
fn with_ceiling_runs_body_and_restores() {
    let mut core = Core::new(1);
    let out = with_ceiling(&mut core, 4, || 21 * 2);
    assert_eq!(out, 42);
    assert_eq!(core.threshold, 1);
    assert!(core.frames.is_empty());
}

#[test]
fn with_ceiling_nests() {
    let mut core = Core::new(0);
    core.lock_enter(2);
    // a higher-ceiling section inside a lower one
    let out = with_ceiling(&mut core, 5, || 7);
    assert_eq!(out, 7);
    assert_eq!(core.threshold, 2);
    core.lock_exit();
    assert_eq!(core.threshold, 0);
}

#[test]
fn lock_raises_and_restores_threshold() {
    let mut core = Core::new(0);
    core.lock_enter(3);
    assert_eq!(core.threshold, 3);
    core.lock_enter(5);
    assert_eq!(core.threshold, 5);
    core.lock_exit();
    assert_eq!(core.threshold, 3);
    core.lock_exit();
    assert_eq!(core.threshold, 0);
}

#[test]
fn lock_skips_masking_below_current_threshold() {
    // the no-overhead case: a lower-ceiling lock inside a higher one
    let mut core = Core::new(0);
    core.lock_enter(5);
    core.lock_enter(2);
    assert_eq!(core.threshold, 5);
    core.lock_exit();
    assert_eq!(core.threshold, 5);
    core.lock_exit();
    assert_eq!(core.threshold, 0);
}

#[test]
fn trace_keeps_threshold_at_or_above_every_open_ceiling() {
    let mut core = Core::new(0);
    let events = vec![
        LockEvent::Enter(3),
        LockEvent::Access(3),
        LockEvent::Enter(5),
        LockEvent::Access(5),
        LockEvent::Exit,
        LockEvent::Access(3),
        LockEvent::Exit,
    ];
    let recs = run_trace(&mut core, &events).unwrap();
    assert_eq!(recs.len(), 3);
    for r in recs.iter() {
        assert!(r.threshold >= r.ceiling);
    }
    assert_eq!(recs[0].threshold, 3);
    assert_eq!(recs[1].threshold, 5);
    assert_eq!(recs[2].threshold, 3);
    // the balanced trace restored the threshold it started from
    assert_eq!(core.threshold, 0);
    assert!(core.frames.is_empty());
}

#[test]
fn deep_nesting_restores_initial_threshold() {
    let mut core = Core::new(1);
    let mut events = Vec::new();
    for c in 2..10u8 {
        events.push(LockEvent::Enter(c));
    }
    for _ in 2..10u8 {
        events.push(LockEvent::Exit);
    }
    assert!(run_trace(&mut core, &events).is_ok());
    assert_eq!(core.threshold, 1);
}

#[test]
fn trace_rejects_unbalanced_exit() {
    let mut core = Core::new(0);
    let events = vec![LockEvent::Exit];
    assert_eq!(run_trace(&mut core, &events), Err(TraceError::UnbalancedExit));
}

#[test]
fn trace_rejects_access_outside_its_lock() {
    let mut core = Core::new(0);
    let events = vec![LockEvent::Access(3)];
    assert_eq!(run_trace(&mut core, &events), Err(TraceError::AccessOutsideLock));

    let mut core2 = Core::new(0);
    let events2 = vec![LockEvent::Enter(2), LockEvent::Access(3)];
    assert_eq!(run_trace(&mut core2, &events2), Err(TraceError::AccessOutsideLock));
}

#[test]
fn higher_priority_pend_preempts_running_task() {
    let tasks = vec![
        SimTask { priority: 1, body: vec![Action::Work, Action::Pend(1), Action::Work] },
        SimTask { priority: 2, body: vec![Action::Work] },
    ];
    let mut sim = Sim::new(tasks);
    sim.pend(0);
    assert_eq!(sim.run(100), StepOutcome::Idle);
    let log: Vec<(usize, usize)> = sim.log.iter().map(|e| (e.task, e.step)).collect();
    // the priority-2 task runs as soon as it is pended, before the
    // priority-1 task's last step
    assert_eq!(log, vec![(0, 0), (0, 1), (1, 0), (0, 2)]);
}

#[test]
fn ceiling_lock_defers_preemption_until_exit() {
    // one task at priority 2 holds a ceiling-3 resource when a task at
    // priority 3 that shares the resource is pended: the pend stays
    // masked until the critical section exits, then runs at once, and
    // the priority-2 task resumes after it
    let tasks = vec![
        SimTask {
            priority: 2,
            body: vec![
                Action::Lock(3),
                Action::Pend(1),
                Action::Work,
                Action::Unlock,
                Action::Work,
            ],
        },
        SimTask { priority: 3, body: vec![Action::Work] },
    ];
    let mut sim = Sim::new(tasks);
    sim.pend(0);
    assert_eq!(sim.run(100), StepOutcome::Idle);
    let log: Vec<(usize, usize)> = sim.log.iter().map(|e| (e.task, e.step)).collect();
    assert_eq!(
        log,
        vec![
            (0, 0), // enter the ceiling-3 section
            (0, 1), // pend the priority-3 task: masked by the ceiling
            (0, 2), // still inside the critical section
            (0, 3), // exit the section
            (1, 0), // the priority-3 task runs immediately
            (0, 4), // the priority-2 task resumes
        ]
    );
}

#[test]
fn equal_priority_does_not_preempt() {
    let tasks = vec![
        SimTask { priority: 2, body: vec![Action::Pend(1), Action::Work] },
        SimTask { priority: 2, body: vec![Action::Work] },
    ];
    let mut sim = Sim::new(tasks);
    sim.pend(0);
    assert_eq!(sim.run(100), StepOutcome::Idle);
    let log: Vec<(usize, usize)> = sim.log.iter().map(|e| (e.task, e.step)).collect();
    // the pended equal-priority task waits for the running one to return
    assert_eq!(log, vec![(0, 0), (0, 1), (1, 0)]);
}

#[test]
fn unpend_clears_a_pending_task() {
    let tasks = vec![SimTask { priority: 1, body: vec![Action::Work] }];
    let mut sim = Sim::new(tasks);
    sim.pend(0);
    sim.unpend(0);
    assert_eq!(sim.run(10), StepOutcome::Idle);
    assert!(sim.log.is_empty());
}

#[test]
fn unlock_without_lock_faults() {
    let tasks = vec![SimTask { priority: 1, body: vec![Action::Unlock] }];
    let mut sim = Sim::new(tasks);
    sim.pend(0);
    assert_eq!(sim.run(10), StepOutcome::Fault);
}

#[test]
fn preemption_chain_unwinds_in_priority_order() {
    // a cascade: each task pends a more urgent one, which preempts it
    let tasks = vec![
        SimTask { priority: 1, body: vec![Action::Pend(1), Action::Work] },
        SimTask { priority: 2, body: vec![Action::Pend(2), Action::Work] },
        SimTask { priority: 3, body: vec![Action::Work] },
    ];
    let mut sim = Sim::new(tasks);
    sim.pend(0);
    assert_eq!(sim.run(100), StepOutcome::Idle);
    let log: Vec<(usize, usize)> = sim.log.iter().map(|e| (e.task, e.step)).collect();
    assert_eq!(
        log,
        vec![(0, 0), (1, 0), (2, 0), (1, 1), (0, 1)]
    );
}

#[test]
fn pend_of_running_task_is_dropped_by_the_model() {
    let tasks = vec![SimTask { priority: 1, body: vec![Action::Pend(0), Action::Work] }];
    let mut sim = Sim::new(tasks);
    sim.pend(0);
    assert_eq!(sim.run(100), StepOutcome::Idle);
    let log: Vec<(usize, usize)> = sim.log.iter().map(|e| (e.task, e.step)).collect();
    // the self-pend does not run the task a second time
    assert_eq!(log, vec![(0, 0), (0, 1)]);
}

#[test]
fn priority_cell_round_trip() {
    let mut p = Priority::new(2);
    assert_eq!(p.get(), 2);
    p.set(5);
    assert_eq!(p.get(), 5);
}

#[test]
fn run_invokes_the_body_once() {
    let mut hits = 0;
    run(3, || hits += 1);
    assert_eq!(hits, 1);
}

#[test]
fn send_sync_markers_compile() {
    assert_send::<u32>();
    assert_sync::<u32>();
}
