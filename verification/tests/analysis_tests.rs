use rtic::analysis::{
    app, compute_ceilings, AnalysisError, AppModel, CustomArg, CustomSetting, ExternInterrupts,
    HardwareTask, HardwareTaskKind, ResourceAccess, SoftwareTask, TimerQueueUse,
};
use rtic::bindings::{architecture_specific_analysis, async_prio_limit, pre_init, pre_init_checks,
    InterruptBinding, StartupAction};

fn s(text: &str) -> String {
    String::from(text)
}

fn empty_app() -> AppModel {
    AppModel {
        cores: 1,
        hardware_tasks: vec![],
        software_tasks: vec![],
        extern_interrupts: vec![],
        dispatchers: vec![],
        timer_queues: vec![],
        custom: vec![],
    }
}

fn sw(name: &str, core: u8, priority: u8) -> SoftwareTask {
    SoftwareTask { name: s(name), core, priority }
}

fn device_arg() -> CustomSetting {
    CustomSetting { key: s("device"), value: CustomArg::Path(s("pac")) }
}

#[test]
fn accepts_minimal_app_with_device() {
    let mut m = empty_app();
    m.custom.push(device_arg());
    let extra = app(&m).unwrap();
    assert_eq!(extra.device, s("pac"));
    assert_eq!(extra.monotonic, None);
    assert_eq!(extra.peripherals, None);
}

#[test]
fn rejects_missing_device() {
    let m = empty_app();
    match app(&m) {
        Err(AnalysisError::MissingDevice) => {}
        other => panic!("expected MissingDevice, got {:?}", other.is_ok()),
    }
}

#[test]
fn rejects_unconfigurable_exception() {
    let mut m = empty_app();
    m.custom.push(device_arg());
    m.hardware_tasks.push(HardwareTask {
        name: s("watchdog"),
        binds: s("HardFault"),
        kind: HardwareTaskKind::Exception,
        core: 0,
        priority: 1,
    });
    match app(&m) {
        Err(AnalysisError::ExceptionNotConfigurable { task }) => assert_eq!(task, s("watchdog")),
        _ => panic!("expected ExceptionNotConfigurable"),
    }
}

#[test]
fn accepts_configurable_exception() {
    let mut m = empty_app();
    m.custom.push(device_arg());
    m.hardware_tasks.push(HardwareTask {
        name: s("svc"),
        binds: s("SVCall"),
        kind: HardwareTaskKind::Exception,
        core: 0,
        priority: 1,
    });
    assert!(app(&m).is_ok());
}

#[test]
fn tick_exception_free_when_no_timer_queue() {
    let mut m = empty_app();
    m.custom.push(device_arg());
    m.hardware_tasks.push(HardwareTask {
        name: s("tick"),
        binds: s("SysTick"),
        kind: HardwareTaskKind::Exception,
        core: 0,
        priority: 1,
    });
    assert!(app(&m).is_ok());
}

#[test]
fn tick_exception_reserved_while_timer_queue_runs() {
    let mut m = empty_app();
    m.custom.push(device_arg());
    m.custom.push(CustomSetting { key: s("monotonic"), value: CustomArg::Path(s("mono")) });
    m.timer_queues.push(TimerQueueUse { core: 0, priority: 4 });
    m.hardware_tasks.push(HardwareTask {
        name: s("tick"),
        binds: s("SysTick"),
        kind: HardwareTaskKind::Exception,
        core: 0,
        priority: 1,
    });
    match app(&m) {
        Err(AnalysisError::ExceptionUsedByRuntime { task }) => assert_eq!(task, s("tick")),
        _ => panic!("expected ExceptionUsedByRuntime"),
    }
}

#[test]
fn rejects_exception_named_as_extern_interrupt() {
    let mut m = empty_app();
    m.custom.push(device_arg());
    m.extern_interrupts.push(ExternInterrupts { core: 0, names: vec![s("UART0"), s("SysTick")] });
    match app(&m) {
        Err(AnalysisError::ExceptionAsExternInterrupt { name }) => assert_eq!(name, s("SysTick")),
        _ => panic!("expected ExceptionAsExternInterrupt"),
    }
}

#[test]
fn dispatcher_shortfall_reports_need_and_given() {
    // two distinct software priorities plus the timer queue's level need
    // three dispatchers; only one is declared, a shortfall of two
    let mut m = empty_app();
    m.custom.push(device_arg());
    m.custom.push(CustomSetting { key: s("monotonic"), value: CustomArg::Path(s("mono")) });
    m.software_tasks.push(sw("alpha", 0, 1));
    m.software_tasks.push(sw("beta", 0, 2));
    m.timer_queues.push(TimerQueueUse { core: 0, priority: 3 });
    m.extern_interrupts.push(ExternInterrupts { core: 0, names: vec![s("UART0")] });
    match app(&m) {
        Err(AnalysisError::NotEnoughInterrupts { core, need, given, task }) => {
            assert_eq!(core, 0);
            assert_eq!(need, 3);
            assert_eq!(given, 1);
            assert_eq!(need - given, 2);
            assert_eq!(task, Some(s("beta")));
        }
        _ => panic!("expected NotEnoughInterrupts"),
    }
}

#[test]
fn duplicate_priorities_share_one_dispatcher() {
    let mut m = empty_app();
    m.custom.push(device_arg());
    m.software_tasks.push(sw("alpha", 0, 1));
    m.software_tasks.push(sw("beta", 0, 1));
    m.extern_interrupts.push(ExternInterrupts { core: 0, names: vec![s("UART0")] });
    assert!(app(&m).is_ok());
}

#[test]
fn timer_queue_priority_shared_with_task_level() {
    // the timer queue dispatches at a level a software task already uses
    let mut m = empty_app();
    m.custom.push(device_arg());
    m.custom.push(CustomSetting { key: s("monotonic"), value: CustomArg::Path(s("mono")) });
    m.software_tasks.push(sw("alpha", 0, 2));
    m.timer_queues.push(TimerQueueUse { core: 0, priority: 2 });
    m.extern_interrupts.push(ExternInterrupts { core: 0, names: vec![s("UART0")] });
    assert!(app(&m).is_ok());
}

#[test]
fn cores_are_checked_independently() {
    let mut m = empty_app();
    m.cores = 2;
    m.custom.push(device_arg());
    m.software_tasks.push(sw("alpha", 0, 1));
    m.software_tasks.push(sw("beta", 1, 1));
    m.extern_interrupts.push(ExternInterrupts { core: 0, names: vec![s("UART0")] });
    // core 1 declares nothing and needs one dispatcher
    match app(&m) {
        Err(AnalysisError::NotEnoughInterrupts { core, need, given, task }) => {
            assert_eq!(core, 1);
            assert_eq!(need, 1);
            assert_eq!(given, 0);
            assert_eq!(task, Some(s("beta")));
        }
        _ => panic!("expected NotEnoughInterrupts on core 1"),
    }
}

#[test]
fn rejects_device_that_is_not_a_path() {
    let mut m = empty_app();
    m.custom.push(CustomSetting { key: s("device"), value: CustomArg::Bool(true) });
    match app(&m) {
        Err(AnalysisError::ArgNotAPath { key }) => assert_eq!(key, s("device")),
        _ => panic!("expected ArgNotAPath"),
    }
}

#[test]
fn rejects_monotonic_that_is_not_a_path() {
    let mut m = empty_app();
    m.custom.push(CustomSetting { key: s("monotonic"), value: CustomArg::UInt(3) });
    match app(&m) {
        Err(AnalysisError::ArgNotAPath { key }) => assert_eq!(key, s("monotonic")),
        _ => panic!("expected ArgNotAPath"),
    }
}

#[test]
fn rejects_unknown_argument() {
    let mut m = empty_app();
    m.custom.push(CustomSetting { key: s("turbo"), value: CustomArg::Bool(true) });
    match app(&m) {
        Err(AnalysisError::UnknownArg { key }) => assert_eq!(key, s("turbo")),
        _ => panic!("expected UnknownArg"),
    }
}

#[test]
fn single_core_peripherals_must_be_boolean() {
    let mut m = empty_app();
    m.custom.push(CustomSetting { key: s("peripherals"), value: CustomArg::UInt(0) });
    match app(&m) {
        Err(AnalysisError::PeripheralsNotBool) => {}
        _ => panic!("expected PeripheralsNotBool"),
    }
}

#[test]
fn multi_core_peripherals_must_be_integer() {
    let mut m = empty_app();
    m.cores = 2;
    m.custom.push(CustomSetting { key: s("peripherals"), value: CustomArg::Bool(true) });
    match app(&m) {
        Err(AnalysisError::PeripheralsNotUInt) => {}
        _ => panic!("expected PeripheralsNotUInt"),
    }
}

#[test]
fn multi_core_peripherals_index_must_be_in_range() {
    let mut m = empty_app();
    m.cores = 2;
    m.custom.push(CustomSetting { key: s("peripherals"), value: CustomArg::UInt(5) });
    match app(&m) {
        Err(AnalysisError::PeripheralsOutOfRange { value, cores }) => {
            assert_eq!(value, 5);
            assert_eq!(cores, 2);
        }
        _ => panic!("expected PeripheralsOutOfRange"),
    }
}

#[test]
fn peripherals_values_extracted() {
    let mut m = empty_app();
    m.custom.push(device_arg());
    m.custom.push(CustomSetting { key: s("peripherals"), value: CustomArg::Bool(true) });
    assert_eq!(app(&m).unwrap().peripherals, Some(0));

    let mut m2 = empty_app();
    m2.custom.push(device_arg());
    m2.custom.push(CustomSetting { key: s("peripherals"), value: CustomArg::Bool(false) });
    assert_eq!(app(&m2).unwrap().peripherals, None);

    let mut m3 = empty_app();
    m3.cores = 3;
    m3.custom.push(device_arg());
    m3.custom.push(CustomSetting { key: s("peripherals"), value: CustomArg::UInt(2) });
    assert_eq!(app(&m3).unwrap().peripherals, Some(2));
}

#[test]
fn timed_suspension_requires_a_monotonic() {
    let mut m = empty_app();
    m.custom.push(device_arg());
    m.timer_queues.push(TimerQueueUse { core: 0, priority: 3 });
    m.extern_interrupts.push(ExternInterrupts { core: 0, names: vec![s("UART0")] });
    match app(&m) {
        Err(AnalysisError::MissingMonotonic) => {}
        _ => panic!("expected MissingMonotonic"),
    }
}

#[test]
fn monotonic_getter_returns_configured_path() {
    let mut m = empty_app();
    m.custom.push(device_arg());
    m.custom.push(CustomSetting { key: s("monotonic"), value: CustomArg::Path(s("mono")) });
    let extra = app(&m).unwrap();
    assert_eq!(extra.monotonic(), &s("mono"));
}

#[test]
fn dispatchers_assigned_one_per_priority_level() {
    let mut m = empty_app();
    m.software_tasks.push(sw("alpha", 0, 1));
    m.software_tasks.push(sw("beta", 0, 3));
    m.software_tasks.push(sw("gamma", 0, 1));
    m.timer_queues.push(TimerQueueUse { core: 0, priority: 2 });
    m.extern_interrupts.push(ExternInterrupts {
        core: 0,
        names: vec![s("UART0"), s("UART1"), s("GPIO")],
    });
    let v = m.assign_dispatchers(0).unwrap();
    let pairs: Vec<(u8, &str)> = v.iter().map(|d| (d.priority, d.name.as_str())).collect();
    // levels in first-appearance order, lines in declaration order
    assert_eq!(pairs, vec![(1, "UART0"), (3, "UART1"), (2, "GPIO")]);
}

#[test]
fn dispatchers_assignment_fails_on_shortfall() {
    let mut m = empty_app();
    m.software_tasks.push(sw("alpha", 0, 1));
    m.software_tasks.push(sw("beta", 0, 2));
    m.extern_interrupts.push(ExternInterrupts { core: 0, names: vec![s("UART0")] });
    assert!(m.assign_dispatchers(0).is_none());
}

#[test]
fn ceiling_is_max_accessor_priority() {
    let accesses = vec![
        ResourceAccess { resource: 0, priority: 2 },
        ResourceAccess { resource: 0, priority: 3 },
        ResourceAccess { resource: 1, priority: 1 },
    ];
    let ceilings = compute_ceilings(3, &accesses);
    assert_eq!(ceilings, vec![3, 1, 0]);
}

#[test]
fn arch_analysis_rejects_unsupported_dispatcher() {
    let mut m = empty_app();
    m.dispatchers.push(s("FROM_CPU_INTR0"));
    m.dispatchers.push(s("WIFI_MAC"));
    match architecture_specific_analysis(&m) {
        Err(AnalysisError::UnsupportedDispatcher { name }) => assert_eq!(name, s("WIFI_MAC")),
        _ => panic!("expected UnsupportedDispatcher"),
    }
}

#[test]
fn arch_analysis_counts_positive_priorities() {
    let mut m = empty_app();
    m.dispatchers.push(s("FROM_CPU_INTR0"));
    m.software_tasks.push(sw("alpha", 0, 1));
    m.software_tasks.push(sw("beta", 0, 2));
    // priority 0 tasks need no dispatcher
    m.software_tasks.push(sw("idle_helper", 0, 0));
    match architecture_specific_analysis(&m) {
        Err(AnalysisError::NotEnoughInterrupts { core, need, given, task }) => {
            assert_eq!(core, 0);
            assert_eq!(need, 2);
            assert_eq!(given, 1);
            assert_eq!(task, Some(s("idle_helper")));
        }
        _ => panic!("expected NotEnoughInterrupts"),
    }
}

#[test]
fn arch_analysis_accepts_supported_setup() {
    let mut m = empty_app();
    m.dispatchers.push(s("FROM_CPU_INTR0"));
    m.dispatchers.push(s("FROM_CPU_INTR1"));
    m.software_tasks.push(sw("alpha", 0, 1));
    m.software_tasks.push(sw("beta", 0, 2));
    assert!(architecture_specific_analysis(&m).is_ok());
}

#[test]
fn pre_init_checks_names_against_the_vector_set() {
    let mut m = empty_app();
    m.dispatchers.push(s("FROM_CPU_INTR0"));
    let valid = vec![s("FROM_CPU_INTR0"), s("UART0")];
    assert!(pre_init_checks(&m, &valid));
    m.dispatchers.push(s("GPIO"));
    assert!(!pre_init_checks(&m, &valid));
}

#[test]
fn pre_init_configures_priority_before_unmasking() {
    let bindings = vec![
        InterruptBinding { name: s("FROM_CPU_INTR0"), priority: 1 },
        InterruptBinding { name: s("UART0"), priority: 3 },
    ];
    let actions = pre_init(&bindings, 15).unwrap();
    assert_eq!(actions.len(), 5);
    assert!(matches!(actions[0], StartupAction::DisableInterrupts));
    match &actions[1] {
        StartupAction::SetPriority { name, priority } => {
            assert_eq!(name, &s("FROM_CPU_INTR0"));
            assert_eq!(*priority, 1);
        }
        _ => panic!("expected SetPriority first"),
    }
    match &actions[2] {
        StartupAction::Enable { name } => assert_eq!(name, &s("FROM_CPU_INTR0")),
        _ => panic!("expected Enable after SetPriority"),
    }
    match &actions[3] {
        StartupAction::SetPriority { name, priority } => {
            assert_eq!(name, &s("UART0"));
            assert_eq!(*priority, 3);
        }
        _ => panic!("expected SetPriority"),
    }
    match &actions[4] {
        StartupAction::Enable { name } => assert_eq!(name, &s("UART0")),
        _ => panic!("expected Enable"),
    }
}

#[test]
fn pre_init_rejects_unrepresentable_priority() {
    let bindings = vec![InterruptBinding { name: s("UART0"), priority: 15 }];
    match pre_init(&bindings, 15) {
        Err(AnalysisError::PriorityTooHigh { name, priority, max }) => {
            assert_eq!(name, s("UART0"));
            assert_eq!(priority, 15);
            assert_eq!(max, 15);
        }
        _ => panic!("expected PriorityTooHigh"),
    }
}

#[test]
fn async_prio_limit_values() {
    assert_eq!(async_prio_limit(Some(7), 4), 7);
    assert_eq!(async_prio_limit(None, 4), 16);
    assert_eq!(async_prio_limit(None, 0), 1);
}
