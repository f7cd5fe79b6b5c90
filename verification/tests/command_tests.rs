use rtic::command::{
    handle_results, run_successful, BuildMode, CargoCommand, ExtraArguments, FinalRunResult,
    Globals, Package, RunResult, Target, TestRunError,
};

fn s(text: &str) -> String {
    String::from(text)
}

fn target() -> Target {
    Target { triple: s("riscv32imc-unknown-none-elf") }
}

#[test]
fn to_flag_values() {
    assert_eq!(BuildMode::Release.to_flag(), Some("--release"));
    assert_eq!(BuildMode::Debug.to_flag(), None);
}

#[test]
fn run_command_args_full() {
    let cmd = CargoCommand::Run {
        cargoarg: Some(s("--quiet")),
        example: s("blinky"),
        target: target(),
        features: Some(s("board")),
        mode: BuildMode::Release,
    };
    assert_eq!(cmd.executable(), "cargo");
    assert_eq!(cmd.command(), "run");
    assert_eq!(
        cmd.args(),
        vec![
            s("+nightly"),
            s("--quiet"),
            s("run"),
            s("--example"),
            s("blinky"),
            s("--target"),
            s("riscv32imc-unknown-none-elf"),
            s("--features"),
            s("board"),
            s("--release"),
        ]
    );
}

#[test]
fn qemu_command_args_minimal() {
    let cmd = CargoCommand::Qemu {
        cargoarg: None,
        example: s("blinky"),
        target: target(),
        features: None,
        mode: BuildMode::Debug,
    };
    assert_eq!(
        cmd.args(),
        vec![
            s("+nightly"),
            s("run"),
            s("--example"),
            s("blinky"),
            s("--target"),
            s("riscv32imc-unknown-none-elf"),
        ]
    );
}

#[test]
fn build_command_args() {
    let cmd = CargoCommand::Build {
        cargoarg: None,
        package: Some(Package { name: s("runtime") }),
        target: target(),
        features: None,
        mode: BuildMode::Release,
    };
    assert_eq!(
        cmd.args(),
        vec![
            s("+nightly"),
            s("build"),
            s("--target"),
            s("riscv32imc-unknown-none-elf"),
            s("--package"),
            s("runtime"),
            s("--release"),
        ]
    );
}

#[test]
fn check_command_ignores_target() {
    let cmd = CargoCommand::Check {
        cargoarg: None,
        package: Some(Package { name: s("runtime") }),
        target: target(),
        features: Some(s("board")),
        mode: BuildMode::Debug,
    };
    assert_eq!(
        cmd.args(),
        vec![s("+nightly"), s("check"), s("--package"), s("runtime"), s("--features"), s("board")]
    );
}

#[test]
fn clippy_command_args() {
    let cmd = CargoCommand::Clippy {
        cargoarg: None,
        package: None,
        target: target(),
        features: None,
    };
    assert_eq!(cmd.args(), vec![s("+nightly"), s("clippy")]);
}

#[test]
fn format_command_puts_subcommand_before_cargoarg() {
    let cmd = CargoCommand::Format {
        cargoarg: Some(s("--quiet")),
        package: Some(Package { name: s("runtime") }),
        check_only: true,
    };
    assert_eq!(
        cmd.args(),
        vec![
            s("+nightly"),
            s("fmt"),
            s("--quiet"),
            s("--package"),
            s("runtime"),
            s("--check"),
        ]
    );
}

#[test]
fn doc_command_forwards_extra_arguments() {
    let cmd = CargoCommand::Doc {
        cargoarg: None,
        features: None,
        arguments: Some(ExtraArguments::Other(vec![s("--open")])),
    };
    assert_eq!(cmd.args(), vec![s("+nightly"), s("doc"), s("--open")]);
}

#[test]
fn test_command_selects_test_binary() {
    let cmd = CargoCommand::Test {
        package: Some(Package { name: s("runtime") }),
        features: None,
        test: Some(s("ui")),
    };
    assert_eq!(
        cmd.args(),
        vec![s("+nightly"), s("test"), s("--package"), s("runtime"), s("--test"), s("ui")]
    );
}

#[test]
fn book_command_defaults_and_overrides() {
    let default_cmd = CargoCommand::Book { arguments: None };
    assert_eq!(default_cmd.executable(), "mdbook");
    assert_eq!(default_cmd.args(), vec![s("build"), s("book/en")]);

    let custom = CargoCommand::Book {
        arguments: Some(ExtraArguments::Other(vec![s("serve"), s("book/en")])),
    };
    assert_eq!(custom.args(), vec![s("serve"), s("book/en")]);
}

#[test]
fn example_size_appends_tool_arguments_after_separator() {
    let cmd = CargoCommand::ExampleSize {
        cargoarg: None,
        example: s("blinky"),
        target: target(),
        features: None,
        mode: BuildMode::Debug,
        arguments: Some(ExtraArguments::Other(vec![s("-A")])),
    };
    assert_eq!(
        cmd.args(),
        vec![
            s("+nightly"),
            s("size"),
            s("--example"),
            s("blinky"),
            s("--target"),
            s("riscv32imc-unknown-none-elf"),
            s("--"),
            s("-A"),
        ]
    );
}

#[test]
fn example_build_command_args() {
    let cmd = CargoCommand::ExampleBuild {
        cargoarg: None,
        example: s("blinky"),
        target: target(),
        features: None,
        mode: BuildMode::Release,
    };
    assert_eq!(cmd.command(), "build");
    assert_eq!(
        cmd.args(),
        vec![
            s("+nightly"),
            s("build"),
            s("--example"),
            s("blinky"),
            s("--target"),
            s("riscv32imc-unknown-none-elf"),
            s("--release"),
        ]
    );
}

#[test]
fn cmd_string_joins_executable_and_arguments() {
    let cmd = CargoCommand::ExampleCheck {
        cargoarg: None,
        example: s("blinky"),
        target: target(),
        features: None,
        mode: BuildMode::Release,
    };
    assert_eq!(
        cmd.as_cmd_string(),
        s("cargo +nightly check --example blinky --target riscv32imc-unknown-none-elf --release")
    );
}

#[test]
fn description_of_run_with_all_details() {
    let cmd = CargoCommand::Run {
        cargoarg: Some(s("--quiet")),
        example: s("blinky"),
        target: target(),
        features: Some(s("board")),
        mode: BuildMode::Release,
    };
    assert_eq!(
        cmd.description(),
        s("Run example blinky (riscv32imc-unknown-none-elf, release, \"board\", --quiet)")
    );
}

#[test]
fn description_of_qemu_without_options() {
    let cmd = CargoCommand::Qemu {
        cargoarg: None,
        example: s("blinky"),
        target: target(),
        features: None,
        mode: BuildMode::Debug,
    };
    assert_eq!(
        cmd.description(),
        s("Run example blinky in QEMU (riscv32imc-unknown-none-elf, debug, no features)")
    );
}

#[test]
fn description_of_build_and_check() {
    let build = CargoCommand::Build {
        cargoarg: None,
        package: None,
        target: target(),
        features: None,
        mode: BuildMode::Release,
    };
    assert_eq!(
        build.description(),
        s("Build default package (riscv32imc-unknown-none-elf, release, no features)")
    );
    let check = CargoCommand::Check {
        cargoarg: None,
        package: Some(Package { name: s("runtime") }),
        target: target(),
        features: None,
        mode: BuildMode::Debug,
    };
    assert_eq!(
        check.description(),
        s("Check package runtime (riscv32imc-unknown-none-elf, debug, no features)")
    );
}

#[test]
fn description_of_clippy() {
    let cmd = CargoCommand::Clippy {
        cargoarg: None,
        package: Some(Package { name: s("runtime") }),
        target: target(),
        features: None,
    };
    assert_eq!(
        cmd.description(),
        s("Clippy package runtime (riscv32imc-unknown-none-elf, no features)")
    );
}

#[test]
fn description_of_format_variants() {
    let check_only = CargoCommand::Format {
        cargoarg: None,
        package: Some(Package { name: s("runtime") }),
        check_only: true,
    };
    assert_eq!(check_only.description(), s("Check format for package runtime "));
    let with_arg = CargoCommand::Format {
        cargoarg: Some(s("--quiet")),
        package: None,
        check_only: false,
    };
    assert_eq!(with_arg.description(), s("Format default package (cargo args: --quiet)"));
}

#[test]
fn description_of_doc_and_test_and_book() {
    let doc = CargoCommand::Doc {
        cargoarg: None,
        features: None,
        arguments: Some(ExtraArguments::Other(vec![s("--open")])),
    };
    assert_eq!(doc.description(), s("Document (no features, --open)"));
    let test = CargoCommand::Test {
        package: Some(Package { name: s("runtime") }),
        features: None,
        test: Some(s("ui")),
    };
    assert_eq!(test.description(), s("Run test ui in package runtime (features: no features)"));
    let book = CargoCommand::Book { arguments: None };
    assert_eq!(book.description(), s("Build the book"));
}

#[test]
fn description_of_example_size() {
    let cmd = CargoCommand::ExampleSize {
        cargoarg: None,
        example: s("blinky"),
        target: target(),
        features: None,
        mode: BuildMode::Debug,
        arguments: None,
    };
    assert_eq!(
        cmd.description(),
        s("Compute size of example blinky (riscv32imc-unknown-none-elf, debug, no features)")
    );
}

fn ok_run() -> RunResult {
    RunResult { success: true, stdout: s("hello\n"), stderr: s("") }
}

#[test]
fn run_successful_accepts_matching_output() {
    assert!(run_successful(&ok_run(), &s("hello\n")).is_ok());
}

#[test]
fn run_successful_rejects_differing_output() {
    match run_successful(&ok_run(), &s("other\n")) {
        Err(TestRunError::FileCmpError { expected, got }) => {
            assert_eq!(expected, s("other\n"));
            assert_eq!(got, s("hello\n"));
        }
        _ => panic!("expected FileCmpError"),
    }
}

#[test]
fn run_successful_rejects_failed_exit() {
    let run = RunResult { success: false, stdout: s("hello\n"), stderr: s("boom") };
    match run_successful(&run, &s("hello\n")) {
        Err(TestRunError::CommandError(r)) => {
            assert!(!r.success);
            assert_eq!(r.stderr, s("boom"));
        }
        _ => panic!("expected CommandError"),
    }
}

#[test]
fn handle_results_passes_when_nothing_failed() {
    let globals = Globals { verbose: 0 };
    let cmd = CargoCommand::Book { arguments: None };
    let results = vec![FinalRunResult::Success(cmd, ok_run())];
    assert!(handle_results(&globals, &results).is_ok());
}

#[test]
fn handle_results_counts_failures() {
    let globals = Globals { verbose: 1 };
    let failing = RunResult { success: false, stdout: s(""), stderr: s("err") };
    let results = vec![
        FinalRunResult::Failed(CargoCommand::Book { arguments: None }, failing.clone()),
        FinalRunResult::Success(CargoCommand::Book { arguments: None }, ok_run()),
        FinalRunResult::Failed(CargoCommand::Book { arguments: None }, failing),
    ];
    let err = handle_results(&globals, &results).unwrap_err();
    assert_eq!(err.count, 2);
}
