//! The options of the commands whose work is done by outside tools: what
//! each command is told, as plain values. The program around the library
//! fills them from its arguments and runs the tools.

use vstd::prelude::*;

verus! {

/// The options of the guided build.
#[derive(Clone, Debug)]
pub struct BuildHelpCommand {
    /// Optimise the build for size.
    pub optimize_size: bool,
    /// Run the program after the build.
    pub run: bool,
    /// Build in release mode.
    pub release: bool,
    /// The target to build for, if not the host.
    pub target: Option<String>,
    /// Show what the build prints.
    pub verbose: bool,
}

/// The options of the lint command.
#[derive(Clone, Debug)]
pub struct ClippyCommand {
    /// Check all targets; on unless switched off.
    pub all_targets: bool,
    /// Check with all features.
    pub all_features: bool,
    /// Apply the suggested fixes.
    pub fix: bool,
    /// Do not treat warnings as errors.
    pub allow_warnings: bool,
    /// Further arguments for the linter.
    pub clippy_args: Vec<String>,
}

/// The options of the daemon command.
#[derive(Clone, Debug)]
pub struct DaemonCommand {
    /// The server binary to start; `trae-server` unless named.
    pub binary: String,
    /// The port to listen on; 3001 unless given.
    pub port: u16,
    /// Where to write the log, if anywhere.
    pub log: Option<String>,
    /// Print nothing.
    pub quiet: bool,
}

/// The options of the documentation command.
#[derive(Clone, Debug)]
pub struct DocCommand {
    /// Generate the documentation.
    pub generate: bool,
    /// Validate the documentation.
    pub validate: bool,
    /// Open the documentation when it is generated.
    pub open: bool,
    /// Generate the API reference.
    pub api: bool,
    /// Generate the readme.
    pub readme: bool,
    /// Report how much of the code is documented.
    pub coverage: bool,
    /// Publish the documentation.
    pub publish: bool,
    /// The output format; `html` unless named.
    pub format: String,
    /// The output directory; `target/doc` unless named.
    pub output: String,
    /// Include private items.
    pub private: bool,
    /// Include the dependencies.
    pub deps: bool,
}

/// The options of the mathematical analysis command.
#[derive(Clone, Debug)]
pub struct MathCommand {
    /// The kind of analysis; `optimization` unless named.
    pub analysis_type: String,
    /// The file that holds the input data, if any.
    pub input: Option<String>,
    /// The output format; `json` unless named.
    pub format: String,
}

/// What the helper-process command is asked to do.
#[derive(Clone, Debug)]
pub enum McpActions {
    /// Start a helper process.
    Start {
        /// The name to register the process under; `memory_p` unless given.
        name: String,
        /// The binary to start; `memory_p` unless given.
        binary: String,
        /// The port to listen on; 4003 unless given.
        port: u16,
        /// Where to write the log, if anywhere.
        log: Option<String>,
        /// Print nothing.
        quiet: bool,
        /// Further arguments for the process.
        args: Vec<String>,
    },
    /// Stop a helper process, found by its name or by its port.
    Stop {
        name: Option<String>,
        port: Option<u16>,
    },
    /// List the registered helper processes.
    List,
}

/// The options of the helper-process command.
#[derive(Clone, Debug)]
pub struct McpCommand {
    pub action: McpActions,
}

/// The options of the metadata command.
#[derive(Clone, Debug)]
pub struct TraeMetadataCommand {
    /// Where to write the metadata, if not to the terminal.
    pub output: Option<String>,
    /// Count the lines of code.
    pub include_loc: bool,
    /// List the dependencies.
    pub include_deps: bool,
    /// Show every detail.
    pub verbose: bool,
}

/// The options of the metrics command.
#[derive(Clone, Debug)]
pub struct MetricsCommand {
    /// Show the collected metrics.
    pub show: bool,
    /// Where to export the metrics, if anywhere.
    pub export: Option<String>,
    /// Configure the metrics service.
    pub configure: bool,
}

/// The options of the release command.
#[derive(Clone, Debug)]
pub struct ReleaseCommand {
    /// Skip the tests.
    pub no_tests: bool,
    /// Skip the packaging step.
    pub no_package: bool,
    /// Write a bill of materials.
    pub sbom: bool,
    /// Clean before building.
    pub clean: bool,
    /// Build the release.
    pub build: bool,
}

/// The options of the toolchain command.
#[derive(Clone, Debug)]
pub struct RustupCommand {
    /// The toolchain command to run.
    pub command: String,
    /// Its arguments.
    pub args: Vec<String>,
    /// Run it attached to the terminal.
    pub interactive: bool,
}

/// The options of the simulation command.
#[derive(Clone, Debug)]
pub struct SimulateCommand {
    /// Simulate throughput.
    pub throughput: bool,
    /// Simulate latency.
    pub latency: bool,
    /// Simulate memory use.
    pub memory: bool,
    /// Simulate processor load.
    pub cpu: bool,
    /// Run the combined simulation.
    pub complex: bool,
    /// Apply the optimisations that the simulation suggests.
    pub optimize: bool,
    /// How long to simulate, in seconds; 10 unless given.
    pub duration: u64,
    /// How many simulated clients; 100 unless given.
    pub concurrency: usize,
}

/// The options of the test command.
#[derive(Clone, Debug)]
pub struct TestCommand {
    /// Test in release mode.
    pub release: bool,
    /// Measure coverage.
    pub coverage: bool,
    /// Run the benchmarks.
    pub bench: bool,
    /// The test to run, if not all.
    pub test: Option<String>,
    /// The package to test, if not all.
    pub package: Option<String>,
    /// Show what the tests print.
    pub verbose: bool,
    /// Run the tests in parallel.
    pub parallel: bool,
    /// Write the coverage report as HTML.
    pub html_coverage: bool,
    /// Run the integration tests only.
    pub integration: bool,
    /// Run the unit tests only.
    pub unit: bool,
    /// Analyse how long the tests take.
    pub analyze: bool,
    /// Further arguments for the test runner.
    pub cargo_args: Vec<String>,
}

} // verus!
