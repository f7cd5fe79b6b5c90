//! The build-runner command model.
//!
//! A [`CargoCommand`] describes one invocation of the build tooling:
//! which executable to run, the subcommand, and every argument in
//! order.  The functions here turn a command into its argument list and
//! display string, decide whether a finished run matched its expected
//! output, and fold a batch of run results into a single verdict.
//! Spawning the process and reading files belong to the surrounding
//! program, which hands the observed outputs back in.

use vstd::prelude::*;

verus! {

/// Whether a build is optimized.
#[derive(Clone, Copy, PartialEq, Eq, Structural, Debug)]
pub enum BuildMode {
    /// Optimized build.
    Release,
    /// Debug build.
    Debug,
}

/// What happens to a child process's error stream.
#[derive(Clone, Copy, PartialEq, Eq, Structural, Debug)]
pub enum OutputMode {
    /// Piped and collected into the run result.
    PipedAndCollected,
    /// Inherited from the parent.
    Inherited,
}

/// A compilation target triple.
pub struct Target {
    /// The target triple.
    pub triple: String,
}

impl Target {
    /// The target triple.
    pub fn triple(&self) -> (r: &String)
        ensures
            r == &self.triple,
    {
        &self.triple
    }
}

/// A workspace package.
pub struct Package {
    /// The package name.
    pub name: String,
}

impl Package {
    /// The package name.
    pub fn name(&self) -> (r: &String)
        ensures
            r == &self.name,
    {
        &self.name
    }
}

/// Extra arguments passed through to the spawned tool.
pub enum ExtraArguments {
    /// Arguments forwarded verbatim.
    Other(Vec<String>),
}

/// Global runner options.
pub struct Globals {
    /// Verbosity level.
    pub verbose: u8,
}

/// What a finished child process produced.
pub struct RunResult {
    /// Whether the process exited successfully.
    pub success: bool,
    /// Collected standard output.
    pub stdout: String,
    /// Collected standard error.
    pub stderr: String,
}

impl Clone for RunResult {
    /// An identical copy of the run result.
    fn clone(&self) -> (r: Self)
        ensures
            r.success == self.success,
            r.stdout@ == self.stdout@,
            r.stderr@ == self.stderr@,
    {
        RunResult {
            success: self.success,
            stdout: self.stdout.clone(),
            stderr: self.stderr.clone(),
        }
    }
}

/// Why a run did not count as successful.
pub enum TestRunError {
    /// The output differed from the expected output.
    FileCmpError {
        /// What was expected.
        expected: String,
        /// What the run printed.
        got: String,
    },
    /// The expected-output file could not be read.
    FileError {
        /// The file that could not be read.
        file: String,
    },
    /// The process exited unsuccessfully.
    CommandError(RunResult),
}

/// A command together with how its run ended.
pub enum FinalRunResult {
    /// The run succeeded.
    Success(CargoCommand, RunResult),
    /// The run failed.
    Failed(CargoCommand, RunResult),
}

/// One invocation of the build tooling.
pub enum CargoCommand {
    /// Run an example on hardware.
    Run {
        /// Extra cargo argument, if any.
        cargoarg: Option<String>,
        /// The example to run.
        example: String,
        /// Compilation target.
        target: Target,
        /// Cargo features.
        features: Option<String>,
        /// Build mode.
        mode: BuildMode,
    },
    /// Run an example under QEMU.
    Qemu {
        /// Extra cargo argument, if any.
        cargoarg: Option<String>,
        /// The example to run.
        example: String,
        /// Compilation target.
        target: Target,
        /// Cargo features.
        features: Option<String>,
        /// Build mode.
        mode: BuildMode,
    },
    /// Build an example.
    ExampleBuild {
        /// Extra cargo argument, if any.
        cargoarg: Option<String>,
        /// The example to build.
        example: String,
        /// Compilation target.
        target: Target,
        /// Cargo features.
        features: Option<String>,
        /// Build mode.
        mode: BuildMode,
    },
    /// Type-check an example.
    ExampleCheck {
        /// Extra cargo argument, if any.
        cargoarg: Option<String>,
        /// The example to check.
        example: String,
        /// Compilation target.
        target: Target,
        /// Cargo features.
        features: Option<String>,
        /// Build mode.
        mode: BuildMode,
    },
    /// Build a package.
    Build {
        /// Extra cargo argument, if any.
        cargoarg: Option<String>,
        /// The package, or the default one.
        package: Option<Package>,
        /// Compilation target.
        target: Target,
        /// Cargo features.
        features: Option<String>,
        /// Build mode.
        mode: BuildMode,
    },
    /// Type-check a package.
    Check {
        /// Extra cargo argument, if any.
        cargoarg: Option<String>,
        /// The package, or the default one.
        package: Option<Package>,
        /// Compilation target.
        target: Target,
        /// Cargo features.
        features: Option<String>,
        /// Build mode.
        mode: BuildMode,
    },
    /// Lint a package.
    Clippy {
        /// Extra cargo argument, if any.
        cargoarg: Option<String>,
        /// The package, or the default one.
        package: Option<Package>,
        /// Compilation target.
        target: Target,
        /// Cargo features.
        features: Option<String>,
    },
    /// Format a package, or check its formatting.
    Format {
        /// Extra cargo argument, if any.
        cargoarg: Option<String>,
        /// The package, or the default one.
        package: Option<Package>,
        /// Only check, without rewriting.
        check_only: bool,
    },
    /// Build the documentation.
    Doc {
        /// Extra cargo argument, if any.
        cargoarg: Option<String>,
        /// Cargo features.
        features: Option<String>,
        /// Extra arguments for the tool.
        arguments: Option<ExtraArguments>,
    },
    /// Run tests.
    Test {
        /// The package, or the default one.
        package: Option<Package>,
        /// Cargo features.
        features: Option<String>,
        /// A single test binary, or all of them.
        test: Option<String>,
    },
    /// Build the book.
    Book {
        /// Extra arguments for the tool.
        arguments: Option<ExtraArguments>,
    },
    /// Compute the size of an example binary.
    ExampleSize {
        /// Extra cargo argument, if any.
        cargoarg: Option<String>,
        /// The example to size.
        example: String,
        /// Compilation target.
        target: Target,
        /// Cargo features.
        features: Option<String>,
        /// Build mode.
        mode: BuildMode,
        /// Arguments passed to the size tool.
        arguments: Option<ExtraArguments>,
    },
}

/// Append a literal argument.
fn push_lit(args: &mut Vec<String>, s: &str)
    ensures
        final(args).deep_view() == old(args).deep_view().push(s@),
{
    args.push(String::from_str(s));
    proof {
        assert(args.deep_view() =~= old(args).deep_view().push(s@));
    }
}

/// Append a copied argument.
fn push_string(args: &mut Vec<String>, s: &String)
    ensures
        final(args).deep_view() == old(args).deep_view().push(s@),
{
    args.push(s.clone());
    proof {
        assert(args.deep_view() =~= old(args).deep_view().push(s@));
    }
}

/// The extra cargo argument, when one is set.
pub open spec fn opt_arg_seq(o: &Option<String>) -> Seq<Seq<char>> {
    match o {
        Option::Some(s) => seq![s@],
        Option::None => Seq::empty(),
    }
}

/// The feature-selection arguments, when features are set.
pub open spec fn features_seq(f: &Option<String>) -> Seq<Seq<char>> {
    match f {
        Option::Some(s) => seq!["--features"@, s@],
        Option::None => Seq::empty(),
    }
}

/// The build-mode flag, when the mode has one.
pub open spec fn mode_seq(m: BuildMode) -> Seq<Seq<char>> {
    match m {
        BuildMode::Release => seq!["--release"@],
        BuildMode::Debug => Seq::empty(),
    }
}

/// The package-selection arguments, when a package is set.
pub open spec fn package_seq(p: &Option<Package>) -> Seq<Seq<char>> {
    match p {
        Option::Some(pkg) => seq!["--package"@, pkg.name@],
        Option::None => Seq::empty(),
    }
}

/// The forwarded extra arguments, when any are set.
pub open spec fn extra_seq(a: &Option<ExtraArguments>) -> Seq<Seq<char>> {
    match a {
        Option::Some(ExtraArguments::Other(v)) => v.deep_view(),
        Option::None => Seq::empty(),
    }
}

/// The subcommand a command invokes.
pub open spec fn spec_command(cmd: &CargoCommand) -> Seq<char> {
    match cmd {
        CargoCommand::Run { .. } => "run"@,
        CargoCommand::Qemu { .. } => "run"@,
        CargoCommand::ExampleCheck { .. } => "check"@,
        CargoCommand::Check { .. } => "check"@,
        CargoCommand::ExampleBuild { .. } => "build"@,
        CargoCommand::Build { .. } => "build"@,
        CargoCommand::ExampleSize { .. } => "size"@,
        CargoCommand::Clippy { .. } => "clippy"@,
        CargoCommand::Format { .. } => "fmt"@,
        CargoCommand::Doc { .. } => "doc"@,
        CargoCommand::Book { .. } => "build"@,
        CargoCommand::Test { .. } => "test"@,
    }
}

/// The executable a command invokes.
pub open spec fn spec_executable(cmd: &CargoCommand) -> Seq<char> {
    match cmd {
        CargoCommand::Book { .. } => "mdbook"@,
        _ => "cargo"@,
    }
}

/// The argument list of an example-centric invocation.
pub open spec fn example_args_seq(
    cargoarg: &Option<String>,
    command: Seq<char>,
    example: &String,
    target: &Target,
    features: &Option<String>,
    mode: BuildMode,
) -> Seq<Seq<char>> {
    seq!["+nightly"@] + opt_arg_seq(cargoarg) + seq![
        command,
        "--example"@,
        example@,
        "--target"@,
        target.triple@,
    ] + features_seq(features) + mode_seq(mode)
}

/// The full argument list of a command, in order.
pub open spec fn spec_args(cmd: &CargoCommand) -> Seq<Seq<char>> {
    match cmd {
        CargoCommand::Run { cargoarg, example, target, features, mode } => example_args_seq(
            cargoarg,
            spec_command(cmd),
            example,
            target,
            features,
            *mode,
        ),
        CargoCommand::Qemu { cargoarg, example, target, features, mode } => example_args_seq(
            cargoarg,
            spec_command(cmd),
            example,
            target,
            features,
            *mode,
        ),
        CargoCommand::ExampleBuild { cargoarg, example, target, features, mode } => example_args_seq(
            cargoarg,
            spec_command(cmd),
            example,
            target,
            features,
            *mode,
        ),
        CargoCommand::ExampleCheck { cargoarg, example, target, features, mode } => example_args_seq(
            cargoarg,
            spec_command(cmd),
            example,
            target,
            features,
            *mode,
        ),
        CargoCommand::ExampleSize { cargoarg, example, target, features, mode, arguments } => {
            example_args_seq(cargoarg, spec_command(cmd), example, target, features, *mode)
                + (match arguments {
                Option::Some(ExtraArguments::Other(v)) => seq!["--"@] + v.deep_view(),
                Option::None => Seq::empty(),
            })
        },
        CargoCommand::Build { cargoarg, package, target, features, mode } => seq!["+nightly"@]
            + opt_arg_seq(cargoarg) + seq![spec_command(cmd), "--target"@, target.triple@]
            + package_seq(package) + features_seq(features) + mode_seq(*mode),
        CargoCommand::Check { cargoarg, package, target: _, features, mode } => seq!["+nightly"@]
            + opt_arg_seq(cargoarg) + seq![spec_command(cmd)] + package_seq(package) + features_seq(
            features,
        ) + mode_seq(*mode),
        CargoCommand::Clippy { cargoarg, package, target: _, features } => seq!["+nightly"@]
            + opt_arg_seq(cargoarg) + seq![spec_command(cmd)] + package_seq(package) + features_seq(
            features,
        ),
        CargoCommand::Doc { cargoarg, features, arguments } => seq!["+nightly"@] + opt_arg_seq(
            cargoarg,
        ) + seq![spec_command(cmd)] + features_seq(features) + extra_seq(arguments),
        CargoCommand::Test { package, features, test } => seq!["+nightly"@, spec_command(cmd)]
            + package_seq(package) + features_seq(features) + (match test {
            Option::Some(t) => seq!["--test"@, t@],
            Option::None => Seq::empty(),
        }),
        CargoCommand::Book { arguments } => match arguments {
            Option::Some(ExtraArguments::Other(v)) => v.deep_view(),
            Option::None => seq!["build"@, "book/en"@],
        },
        CargoCommand::Format { cargoarg, package, check_only } => seq![
            "+nightly"@,
            spec_command(cmd),
        ] + opt_arg_seq(cargoarg) + package_seq(package) + (if *check_only {
            seq!["--check"@]
        } else {
            Seq::empty()
        }),
    }
}

impl BuildMode {
    /// The flag the mode adds to an invocation, if any.
    pub fn to_flag(&self) -> (r: Option<&'static str>)
        ensures
            self is Release ==> r is Some && r.unwrap()@ == "--release"@,
            self is Debug ==> r is None,
    {
        match self {
            BuildMode::Release => Some("--release"),
            BuildMode::Debug => None,
        }
    }
}

/// Append every argument of `more`.
fn push_all(args: &mut Vec<String>, more: &Vec<String>)
    ensures
        final(args).deep_view() == old(args).deep_view() + more.deep_view(),
{
    let ghost base = args.deep_view();
    proof {
        assert(base + more.deep_view().take(0) =~= base);
    }
    let mut i: usize = 0;
    while i < more.len()
        invariant
            base == old(args).deep_view(),
            i <= more@.len(),
            args.deep_view() == base + more.deep_view().take(i as int),
        decreases more@.len() - i,
    {
        push_string(args, &more[i]);
        proof {
            assert(more.deep_view()[i as int] == more@[i as int]@);
            assert(base + more.deep_view().take(i + 1) =~= (base + more.deep_view().take(
                i as int,
            )).push(more@[i as int]@));
        }
        i += 1;
    }
    proof {
        assert(more.deep_view().take(more@.len() as int) =~= more.deep_view());
    }
}

/// Build the argument list of an example-centric invocation.
fn example_args(
    cargoarg: &Option<String>,
    command: &'static str,
    example: &String,
    target: &Target,
    features: &Option<String>,
    mode: &BuildMode,
) -> (r: Vec<String>)
    ensures
        r.deep_view() == example_args_seq(cargoarg, command@, example, target, features, *mode),
{
    let mut args: Vec<String> = Vec::new();
    push_lit(&mut args, "+nightly");
    match cargoarg {
        Some(c) => push_string(&mut args, c),
        None => {},
    }
    push_lit(&mut args, command);
    push_lit(&mut args, "--example");
    push_string(&mut args, example);
    push_lit(&mut args, "--target");
    push_string(&mut args, &target.triple);
    match features {
        Some(f) => {
            push_lit(&mut args, "--features");
            push_string(&mut args, f);
        },
        None => {},
    }
    match mode.to_flag() {
        Some(flag) => push_lit(&mut args, flag),
        None => {},
    }
    proof {
        assert(args.deep_view() =~= example_args_seq(
            cargoarg,
            command@,
            example,
            target,
            features,
            *mode,
        ));
    }
    args
}

/// The words naming a package choice: the package, or the default one.
pub open spec fn spec_package_phrase(p: &Option<Package>) -> Seq<char> {
    match p {
        Option::Some(pkg) => "package "@ + pkg.name@,
        Option::None => "default package"@,
    }
}

/// The words naming a feature choice: the quoted features, or none.
pub open spec fn spec_features_phrase(f: &Option<String>) -> Seq<char> {
    match f {
        Option::Some(s) => "\""@ + s@ + "\""@,
        Option::None => "no features"@,
    }
}

/// The word naming a build mode.
pub open spec fn spec_mode_phrase(m: BuildMode) -> Seq<char> {
    match m {
        BuildMode::Release => "release"@,
        BuildMode::Debug => "debug"@,
    }
}

/// The parenthesized invocation details: target, mode and features,
/// plus the extra cargo argument when one is set.
pub open spec fn spec_details(
    target: &Target,
    mode: BuildMode,
    features: &Option<String>,
    cargoarg: &Option<String>,
) -> Seq<char> {
    let base = "("@ + target.triple@ + ", "@ + spec_mode_phrase(mode) + ", "@
        + spec_features_phrase(features);
    match cargoarg {
        Option::Some(c) => base + ", "@ + c@ + ")"@,
        Option::None => base + ")"@,
    }
}

/// Append the package phrase.
fn append_package_phrase(s: &mut String, p: &Option<Package>)
    ensures
        final(s)@ == old(s)@ + spec_package_phrase(p),
{
    match p {
        Some(pkg) => {
            s.append("package ");
            s.append(pkg.name.as_str());
            proof {
                assert(s@ =~= old(s)@ + spec_package_phrase(p));
            }
        },
        None => {
            s.append("default package");
        },
    }
}

/// Append the features phrase.
fn append_features_phrase(s: &mut String, f: &Option<String>)
    ensures
        final(s)@ == old(s)@ + spec_features_phrase(f),
{
    match f {
        Some(features) => {
            s.append("\"");
            s.append(features.as_str());
            s.append("\"");
            proof {
                assert(s@ =~= old(s)@ + spec_features_phrase(f));
            }
        },
        None => {
            s.append("no features");
        },
    }
}

/// Append the invocation details.
fn append_details(
    s: &mut String,
    target: &Target,
    mode: &BuildMode,
    features: &Option<String>,
    cargoarg: &Option<String>,
)
    ensures
        final(s)@ == old(s)@ + spec_details(target, *mode, features, cargoarg),
{
    s.append("(");
    s.append(target.triple.as_str());
    s.append(", ");
    match mode {
        BuildMode::Release => s.append("release"),
        BuildMode::Debug => s.append("debug"),
    }
    s.append(", ");
    append_features_phrase(s, features);
    match cargoarg {
        Some(c) => {
            s.append(", ");
            s.append(c.as_str());
            s.append(")");
        },
        None => {
            s.append(")");
        },
    }
    proof {
        assert(s@ =~= old(s)@ + spec_details(target, *mode, features, cargoarg));
    }
}

/// The joined argument string, one space between arguments.
pub open spec fn spec_join_space(parts: Seq<Seq<char>>) -> Seq<char>
    decreases parts.len(),
{
    if parts.len() == 0 {
        Seq::empty()
    } else if parts.len() == 1 {
        parts[0]
    } else {
        spec_join_space(parts.drop_last()) + " "@ + parts.last()
    }
}

/// The words naming forwarded extra arguments: the arguments joined by
/// spaces, or none.
pub open spec fn spec_extra_phrase(a: &Option<ExtraArguments>) -> Seq<char> {
    match a {
        Option::Some(ExtraArguments::Other(v)) => spec_join_space(v.deep_view()),
        Option::None => "no extra arguments"@,
    }
}

/// Append the given parts joined by single spaces.
fn append_joined(s: &mut String, parts: &Vec<String>)
    ensures
        final(s)@ == old(s)@ + spec_join_space(parts.deep_view()),
{
    let ghost pv = parts.deep_view();
    let ghost s0 = s@;
    proof {
        assert(s0 + spec_join_space(pv.take(0)) =~= s0);
    }
    let mut i: usize = 0;
    while i < parts.len()
        invariant
            s0 == old(s)@,
            pv == parts.deep_view(),
            pv.len() == parts@.len(),
            i <= parts@.len(),
            s@ == s0 + spec_join_space(pv.take(i as int)),
        decreases parts@.len() - i,
    {
        if i > 0 {
            s.append(" ");
        }
        s.append(parts[i].as_str());
        proof {
            assert(pv.take(i + 1).drop_last() =~= pv.take(i as int));
            assert(pv.take(i + 1).last() == pv[i as int]);
            assert(pv[i as int] == parts@[i as int]@);
            if i == 0 {
                assert(spec_join_space(pv.take(1)) == pv[0]);
                assert(s@ =~= s0 + spec_join_space(pv.take(1)));
            } else {
                assert(spec_join_space(pv.take(i + 1)) == spec_join_space(pv.take(i as int)) + " "@
                    + pv[i as int]);
                assert(s@ =~= s0 + spec_join_space(pv.take(i + 1)));
            }
        }
        i += 1;
    }
    proof {
        assert(pv.take(pv.len() as int) =~= pv);
    }
}

/// Append the extra-arguments phrase.
fn append_extra_phrase(s: &mut String, a: &Option<ExtraArguments>)
    ensures
        final(s)@ == old(s)@ + spec_extra_phrase(a),
{
    match a {
        Some(ExtraArguments::Other(v)) => append_joined(s, v),
        None => s.append("no extra arguments"),
    }
}

/// The description of a command, as its runner reports it: what is
/// done, to which subject, with the invocation details.
pub open spec fn spec_description(cmd: &CargoCommand) -> Seq<char> {
    match cmd {
        CargoCommand::Run { cargoarg, example, target, features, mode } => "Run example "@
            + example@ + " "@ + spec_details(target, *mode, features, cargoarg),
        CargoCommand::Qemu { cargoarg, example, target, features, mode } => "Run example "@
            + example@ + " in QEMU "@ + spec_details(target, *mode, features, cargoarg),
        CargoCommand::ExampleBuild { cargoarg, example, target, features, mode } => "Build example "@
            + example@ + " "@ + spec_details(target, *mode, features, cargoarg),
        CargoCommand::ExampleCheck { cargoarg, example, target, features, mode } => "Check example "@
            + example@ + " "@ + spec_details(target, *mode, features, cargoarg),
        CargoCommand::Build { cargoarg, package, target, features, mode } => "Build "@
            + spec_package_phrase(package) + " "@ + spec_details(target, *mode, features, cargoarg),
        CargoCommand::Check { cargoarg, package, target, features, mode } => "Check "@
            + spec_package_phrase(package) + " "@ + spec_details(target, *mode, features, cargoarg),
        CargoCommand::Clippy { cargoarg, package, target, features } => {
            let base = "Clippy "@ + spec_package_phrase(package) + " ("@ + target.triple@ + ", "@
                + spec_features_phrase(features);
            match cargoarg {
                Option::Some(c) => base + ", "@ + c@ + ")"@,
                Option::None => base + ")"@,
            }
        },
        CargoCommand::Format { cargoarg, package, check_only } => {
            let carg = match cargoarg {
                Option::Some(c) => "(cargo args: "@ + c@ + ")"@,
                Option::None => Seq::empty(),
            };
            if *check_only {
                "Check format for "@ + spec_package_phrase(package) + " "@ + carg
            } else {
                "Format "@ + spec_package_phrase(package) + " "@ + carg
            }
        },
        CargoCommand::Doc { cargoarg, features, arguments } => {
            let base = "Document ("@ + spec_features_phrase(features);
            match cargoarg {
                Option::Some(c) => base + ", "@ + c@ + ", "@ + spec_extra_phrase(arguments) + ")"@,
                Option::None => base + ", "@ + spec_extra_phrase(arguments) + ")"@,
            }
        },
        CargoCommand::Test { package, features, test } => {
            let what = match test {
                Option::Some(t) => "test "@ + t@,
                Option::None => "all tests"@,
            };
            "Run "@ + what + " in "@ + spec_package_phrase(package) + " (features: "@
                + spec_features_phrase(features) + ")"@
        },
        CargoCommand::Book { .. } => "Build the book"@,
        CargoCommand::ExampleSize { cargoarg, example, target, features, mode, arguments: _ } => "Compute size of example "@
            + example@ + " "@ + spec_details(target, *mode, features, cargoarg),
    }
}

impl CargoCommand {
    /// What this command does, in words, for the runner's reports.
    pub fn description(&self) -> (r: String)
        ensures
            r@ == spec_description(self),
    {
        match self {
            CargoCommand::Run { cargoarg, example, target, features, mode } => {
                let mut s = String::from_str("Run example ");
                s.append(example.as_str());
                s.append(" ");
                append_details(&mut s, target, mode, features, cargoarg);
                proof {
                    assert(s@ =~= spec_description(self));
                }
                s
            },
            CargoCommand::Qemu { cargoarg, example, target, features, mode } => {
                let mut s = String::from_str("Run example ");
                s.append(example.as_str());
                s.append(" in QEMU ");
                append_details(&mut s, target, mode, features, cargoarg);
                proof {
                    assert(s@ =~= spec_description(self));
                }
                s
            },
            CargoCommand::ExampleBuild { cargoarg, example, target, features, mode } => {
                let mut s = String::from_str("Build example ");
                s.append(example.as_str());
                s.append(" ");
                append_details(&mut s, target, mode, features, cargoarg);
                proof {
                    assert(s@ =~= spec_description(self));
                }
                s
            },
            CargoCommand::ExampleCheck { cargoarg, example, target, features, mode } => {
                let mut s = String::from_str("Check example ");
                s.append(example.as_str());
                s.append(" ");
                append_details(&mut s, target, mode, features, cargoarg);
                proof {
                    assert(s@ =~= spec_description(self));
                }
                s
            },
            CargoCommand::Build { cargoarg, package, target, features, mode } => {
                let mut s = String::from_str("Build ");
                append_package_phrase(&mut s, package);
                s.append(" ");
                append_details(&mut s, target, mode, features, cargoarg);
                proof {
                    assert(s@ =~= spec_description(self));
                }
                s
            },
            CargoCommand::Check { cargoarg, package, target, features, mode } => {
                let mut s = String::from_str("Check ");
                append_package_phrase(&mut s, package);
                s.append(" ");
                append_details(&mut s, target, mode, features, cargoarg);
                proof {
                    assert(s@ =~= spec_description(self));
                }
                s
            },
            CargoCommand::Clippy { cargoarg, package, target, features } => {
                let mut s = String::from_str("Clippy ");
                append_package_phrase(&mut s, package);
                s.append(" (");
                s.append(target.triple.as_str());
                s.append(", ");
                append_features_phrase(&mut s, features);
                match cargoarg {
                    Some(c) => {
                        s.append(", ");
                        s.append(c.as_str());
                        s.append(")");
                    },
                    None => {
                        s.append(")");
                    },
                }
                proof {
                    assert(s@ =~= spec_description(self));
                }
                s
            },
            CargoCommand::Format { cargoarg, package, check_only } => {
                let mut s = if *check_only {
                    String::from_str("Check format for ")
                } else {
                    String::from_str("Format ")
                };
                append_package_phrase(&mut s, package);
                s.append(" ");
                match cargoarg {
                    Some(c) => {
                        s.append("(cargo args: ");
                        s.append(c.as_str());
                        s.append(")");
                    },
                    None => {},
                }
                proof {
                    assert(s@ =~= spec_description(self));
                }
                s
            },
            CargoCommand::Doc { cargoarg, features, arguments } => {
                let mut s = String::from_str("Document (");
                append_features_phrase(&mut s, features);
                s.append(", ");
                match cargoarg {
                    Some(c) => {
                        s.append(c.as_str());
                        s.append(", ");
                    },
                    None => {},
                }
                append_extra_phrase(&mut s, arguments);
                s.append(")");
                proof {
                    assert(s@ =~= spec_description(self));
                }
                s
            },
            CargoCommand::Test { package, features, test } => {
                let mut s = String::from_str("Run ");
                match test {
                    Some(t) => {
                        s.append("test ");
                        s.append(t.as_str());
                    },
                    None => {
                        s.append("all tests");
                    },
                }
                s.append(" in ");
                append_package_phrase(&mut s, package);
                s.append(" (features: ");
                append_features_phrase(&mut s, features);
                s.append(")");
                proof {
                    assert(s@ =~= spec_description(self));
                }
                s
            },
            CargoCommand::Book { .. } => {
                String::from_str("Build the book")
            },
            CargoCommand::ExampleSize { cargoarg, example, target, features, mode, arguments: _ } => {
                let mut s = String::from_str("Compute size of example ");
                s.append(example.as_str());
                s.append(" ");
                append_details(&mut s, target, mode, features, cargoarg);
                proof {
                    assert(s@ =~= spec_description(self));
                }
                s
            },
        }
    }

    /// The subcommand this invocation runs.
    pub fn command(&self) -> (r: &'static str)
        ensures
            r@ == spec_command(self),
    {
        match self {
            CargoCommand::Run { .. } | CargoCommand::Qemu { .. } => "run",
            CargoCommand::ExampleCheck { .. } | CargoCommand::Check { .. } => "check",
            CargoCommand::ExampleBuild { .. } | CargoCommand::Build { .. } => "build",
            CargoCommand::ExampleSize { .. } => "size",
            CargoCommand::Clippy { .. } => "clippy",
            CargoCommand::Format { .. } => "fmt",
            CargoCommand::Doc { .. } => "doc",
            CargoCommand::Book { .. } => "build",
            CargoCommand::Test { .. } => "test",
        }
    }

    /// The executable this invocation runs.
    pub fn executable(&self) -> (r: &'static str)
        ensures
            r@ == spec_executable(self),
    {
        match self {
            CargoCommand::Run { .. }
            | CargoCommand::Qemu { .. }
            | CargoCommand::ExampleCheck { .. }
            | CargoCommand::Check { .. }
            | CargoCommand::ExampleBuild { .. }
            | CargoCommand::Build { .. }
            | CargoCommand::ExampleSize { .. }
            | CargoCommand::Clippy { .. }
            | CargoCommand::Format { .. }
            | CargoCommand::Test { .. }
            | CargoCommand::Doc { .. } => "cargo",
            CargoCommand::Book { .. } => "mdbook",
        }
    }

    /// The full argument list of this invocation, in order.
    pub fn args(&self) -> (r: Vec<String>)
        ensures
            r.deep_view() == spec_args(self),
    {
        match self {
            CargoCommand::Run { cargoarg, example, target, features, mode } => example_args(
                cargoarg,
                self.command(),
                example,
                target,
                features,
                mode,
            ),
            CargoCommand::Qemu { cargoarg, example, target, features, mode } => example_args(
                cargoarg,
                self.command(),
                example,
                target,
                features,
                mode,
            ),
            CargoCommand::ExampleBuild { cargoarg, example, target, features, mode } => example_args(
                cargoarg,
                self.command(),
                example,
                target,
                features,
                mode,
            ),
            CargoCommand::ExampleCheck { cargoarg, example, target, features, mode } => example_args(
                cargoarg,
                self.command(),
                example,
                target,
                features,
                mode,
            ),
            CargoCommand::ExampleSize { cargoarg, example, target, features, mode, arguments } => {
                let mut args = example_args(
                    cargoarg,
                    self.command(),
                    example,
                    target,
                    features,
                    mode,
                );
                match arguments {
                    Some(ExtraArguments::Other(v)) => {
                        // arguments to the size tool go after a separator
                        push_lit(&mut args, "--");
                        push_all(&mut args, v);
                    },
                    None => {},
                }
                proof {
                    assert(args.deep_view() =~= spec_args(self));
                }
                args
            },
            CargoCommand::Build { cargoarg, package, target, features, mode } => {
                let mut args: Vec<String> = Vec::new();
                push_lit(&mut args, "+nightly");
                match cargoarg {
                    Some(c) => push_string(&mut args, c),
                    None => {},
                }
                push_lit(&mut args, self.command());
                push_lit(&mut args, "--target");
                push_string(&mut args, &target.triple);
                match package {
                    Some(p) => {
                        push_lit(&mut args, "--package");
                        push_string(&mut args, &p.name);
                    },
                    None => {},
                }
                match features {
                    Some(f) => {
                        push_lit(&mut args, "--features");
                        push_string(&mut args, f);
                    },
                    None => {},
                }
                match mode.to_flag() {
                    Some(flag) => push_lit(&mut args, flag),
                    None => {},
                }
                proof {
                    assert(args.deep_view() =~= spec_args(self));
                }
                args
            },
            CargoCommand::Check { cargoarg, package, target: _, features, mode } => {
                let mut args: Vec<String> = Vec::new();
                push_lit(&mut args, "+nightly");
                match cargoarg {
                    Some(c) => push_string(&mut args, c),
                    None => {},
                }
                push_lit(&mut args, self.command());
                match package {
                    Some(p) => {
                        push_lit(&mut args, "--package");
                        push_string(&mut args, &p.name);
                    },
                    None => {},
                }
                match features {
                    Some(f) => {
                        push_lit(&mut args, "--features");
                        push_string(&mut args, f);
                    },
                    None => {},
                }
                match mode.to_flag() {
                    Some(flag) => push_lit(&mut args, flag),
                    None => {},
                }
                proof {
                    assert(args.deep_view() =~= spec_args(self));
                }
                args
            },
            CargoCommand::Clippy { cargoarg, package, target: _, features } => {
                let mut args: Vec<String> = Vec::new();
                push_lit(&mut args, "+nightly");
                match cargoarg {
                    Some(c) => push_string(&mut args, c),
                    None => {},
                }
                push_lit(&mut args, self.command());
                match package {
                    Some(p) => {
                        push_lit(&mut args, "--package");
                        push_string(&mut args, &p.name);
                    },
                    None => {},
                }
                match features {
                    Some(f) => {
                        push_lit(&mut args, "--features");
                        push_string(&mut args, f);
                    },
                    None => {},
                }
                proof {
                    assert(args.deep_view() =~= spec_args(self));
                }
                args
            },
            CargoCommand::Doc { cargoarg, features, arguments } => {
                let mut args: Vec<String> = Vec::new();
                push_lit(&mut args, "+nightly");
                match cargoarg {
                    Some(c) => push_string(&mut args, c),
                    None => {},
                }
                push_lit(&mut args, self.command());
                match features {
                    Some(f) => {
                        push_lit(&mut args, "--features");
                        push_string(&mut args, f);
                    },
                    None => {},
                }
                match arguments {
                    Some(ExtraArguments::Other(v)) => push_all(&mut args, v),
                    None => {},
                }
                proof {
                    assert(args.deep_view() =~= spec_args(self));
                }
                args
            },
            CargoCommand::Test { package, features, test } => {
                let mut args: Vec<String> = Vec::new();
                push_lit(&mut args, "+nightly");
                push_lit(&mut args, self.command());
                match package {
                    Some(p) => {
                        push_lit(&mut args, "--package");
                        push_string(&mut args, &p.name);
                    },
                    None => {},
                }
                match features {
                    Some(f) => {
                        push_lit(&mut args, "--features");
                        push_string(&mut args, f);
                    },
                    None => {},
                }
                match test {
                    Some(t) => {
                        push_lit(&mut args, "--test");
                        push_string(&mut args, t);
                    },
                    None => {},
                }
                proof {
                    assert(args.deep_view() =~= spec_args(self));
                }
                args
            },
            CargoCommand::Book { arguments } => {
                let mut args: Vec<String> = Vec::new();
                match arguments {
                    Some(ExtraArguments::Other(v)) => push_all(&mut args, v),
                    None => {
                        // with no arguments, build the book at its default path
                        push_lit(&mut args, self.command());
                        push_lit(&mut args, "book/en");
                    },
                }
                proof {
                    assert(args.deep_view() =~= spec_args(self));
                }
                args
            },
            CargoCommand::Format { cargoarg, package, check_only } => {
                let mut args: Vec<String> = Vec::new();
                push_lit(&mut args, "+nightly");
                push_lit(&mut args, self.command());
                match cargoarg {
                    Some(c) => push_string(&mut args, c),
                    None => {},
                }
                match package {
                    Some(p) => {
                        push_lit(&mut args, "--package");
                        push_string(&mut args, &p.name);
                    },
                    None => {},
                }
                if *check_only {
                    push_lit(&mut args, "--check");
                }
                proof {
                    assert(args.deep_view() =~= spec_args(self));
                }
                args
            },
        }
    }

    /// The whole invocation as one display string: the executable, a
    /// space, then the arguments joined by single spaces.
    pub fn as_cmd_string(&self) -> (r: String)
        ensures
            r@ == spec_executable(self) + " "@ + spec_join_space(spec_args(self)),
    {
        let mut s = String::from_str(self.executable());
        s.append(" ");
        let args = self.args();
        let ghost av = args.deep_view();
        proof {
            assert(spec_executable(self) + " "@ + spec_join_space(av.take(0)) =~= spec_executable(
                self,
            ) + " "@);
        }
        let mut i: usize = 0;
        while i < args.len()
            invariant
                av == args.deep_view(),
                av == spec_args(self),
                av.len() == args@.len(),
                i <= args@.len(),
                s@ == spec_executable(self) + " "@ + spec_join_space(av.take(i as int)),
            decreases args@.len() - i,
        {
            if i > 0 {
                s.append(" ");
            }
            s.append(args[i].as_str());
            proof {
                assert(av.take(i + 1).drop_last() =~= av.take(i as int));
                assert(av.take(i + 1).last() == av[i as int]);
                assert(av[i as int] == args@[i as int]@);
                if i == 0 {
                    assert(spec_join_space(av.take(1)) == av[0]);
                    assert(s@ =~= spec_executable(self) + " "@ + spec_join_space(av.take(1)));
                } else {
                    assert(spec_join_space(av.take(i + 1)) == spec_join_space(av.take(i as int))
                        + " "@ + av[i as int]);
                    assert(s@ =~= spec_executable(self) + " "@ + spec_join_space(av.take(i + 1)));
                }
            }
            i += 1;
        }
        proof {
            assert(av.take(av.len() as int) =~= av);
        }
        s
    }
}

/// How many runs of the batch failed.
pub open spec fn spec_failed_count(rs: Seq<FinalRunResult>) -> nat
    decreases rs.len(),
{
    if rs.len() == 0 {
        0
    } else if rs.last() is Failed {
        spec_failed_count(rs.drop_last()) + 1
    } else {
        spec_failed_count(rs.drop_last())
    }
}

/// The outcome when a batch had failures: how many.
#[derive(Clone, Copy, PartialEq, Eq, Structural, Debug)]
pub struct CommandsFailed {
    /// Number of failed commands.
    pub count: usize,
}

/// Fold a batch of run results into one outcome: `Ok` exactly when no
/// run failed, and otherwise a count of how many did.
pub fn handle_results(_globals: &Globals, results: &Vec<FinalRunResult>) -> (r: Result<
    (),
    CommandsFailed,
>)
    ensures
        r is Ok <==> spec_failed_count(results@) == 0,
        r matches Err(e) ==> e.count == spec_failed_count(results@),
{
    let ghost all = results@;
    let mut count: usize = 0;
    let mut i: usize = 0;
    proof {
        assert(all.take(0).len() == 0);
    }
    while i < results.len()
        invariant
            all == results@,
            i <= all.len(),
            count == spec_failed_count(all.take(i as int)),
            count <= i,
        decreases all.len() - i,
    {
        proof {
            assert(all.take(i + 1).drop_last() =~= all.take(i as int));
            assert(all.take(i + 1).last() == all[i as int]);
        }
        match &results[i] {
            FinalRunResult::Failed(_, _) => {
                count += 1;
            },
            FinalRunResult::Success(_, _) => {},
        }
        i += 1;
    }
    proof {
        assert(all.take(all.len() as int) =~= all);
    }
    if count != 0 {
        Err(CommandsFailed { count })
    } else {
        Ok(())
    }
}

/// Decide whether a finished run counts as successful: its output must
/// equal the expected output, and the process must have exited
/// successfully.  The first difference found is reported.
pub fn run_successful(run: &RunResult, expected_output: &String) -> (r: Result<(), TestRunError>)
    ensures
        expected_output@ != run.stdout@ ==> (r matches Err(e) && (match e {
            TestRunError::FileCmpError { expected, got } => expected@ == expected_output@ && got@
                == run.stdout@,
            _ => false,
        })),
        expected_output@ == run.stdout@ && !run.success ==> (r matches Err(e) && (match e {
            TestRunError::CommandError(rr) => rr.success == run.success && rr.stdout@ == run.stdout@
                && rr.stderr@ == run.stderr@,
            _ => false,
        })),
        expected_output@ == run.stdout@ && run.success ==> r is Ok,
{
    if *expected_output != run.stdout {
        Err(
            TestRunError::FileCmpError {
                expected: expected_output.clone(),
                got: run.stdout.clone(),
            },
        )
    } else if !run.success {
        Err(TestRunError::CommandError(run.clone()))
    } else {
        Ok(())
    }
}

} // verus!
