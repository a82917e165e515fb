//! The command-line surface as plain data: global options, the command
//! tree, and the output-format choice.

use vstd::prelude::*;

verus! {

/// How results are rendered.
#[derive(Debug, Clone)]
pub enum OutputFormat {
    Table,
    Json,
    Yaml,
}

/// Options shared by every command.
#[derive(Debug, Clone)]
pub struct GlobalOpts {
    /// Output format.
    pub output: OutputFormat,
    /// Enable verbose logging.
    pub verbose: bool,
    /// Output JSON instead of human-readable format.
    pub json: bool,
    /// Configuration file path.
    pub config: Option<String>,
}

/// A status subcommand target.
#[derive(Debug, Clone)]
pub enum StatusTarget {
    /// Show dashboard overview.
    Dashboard,
    /// Show network status.
    Network { name: Option<String> },
    /// Show application status.
    App { name: Option<String> },
}

/// The command tree.
#[derive(Debug, Clone)]
pub enum Commands {
    /// Authentication commands.
    Login { endpoint: Option<String> },
    /// Show status information.
    Status { target: Option<StatusTarget> },
    /// Show version information.
    Version,
}

/// A parsed invocation: the global options and the chosen command.
#[derive(Debug, Clone)]
pub struct Cli {
    pub global: GlobalOpts,
    pub command: Commands,
}

impl GlobalOpts {
    /// True when output should be JSON, whether by the flag or by the
    /// chosen format.
    pub fn is_json_output(&self) -> (r: bool)
        ensures
            r == (self.json || self.output is Json),
    {
        self.json || matches!(self.output, OutputFormat::Json)
    }
}

} // verus!
