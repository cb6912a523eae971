//! Command-line options as plain data: which command runs, where, and how the
//! report is rendered. Argument parsing itself is the caller's business.

use vstd::prelude::*;

use crate::types::Severity;

verus! {

/// Output formats for the report.
#[derive(Debug, Clone, Copy, PartialEq, Eq, Structural)]
pub enum OutputFormat {
    Terminal,
    Json,
    Markdown,
    Html,
}

/// A severity threshold given on the command line.
#[derive(Debug, Clone, Copy, PartialEq, Eq, Structural)]
pub enum SeverityFilter {
    Info,
    Warning,
    Error,
}

/// The severity a filter level denotes.
pub open spec fn severity_of_filter(f: SeverityFilter) -> Severity {
    match f {
        SeverityFilter::Info => Severity::Info,
        SeverityFilter::Warning => Severity::Warning,
        SeverityFilter::Error => Severity::Error,
    }
}

impl From<SeverityFilter> for Severity {
    /// The severity this filter level denotes.
    fn from(filter: SeverityFilter) -> (s: Severity)
        ensures
            s == severity_of_filter(filter),
    {
        match filter {
            SeverityFilter::Info => Severity::Info,
            SeverityFilter::Warning => Severity::Warning,
            SeverityFilter::Error => Severity::Error,
        }
    }
}

impl vstd::std_specs::convert::FromSpecImpl<SeverityFilter> for Severity {
    open spec fn obeys_from_spec() -> bool {
        true
    }

    open spec fn from_spec(filter: SeverityFilter) -> Severity {
        severity_of_filter(filter)
    }
}

/// Options of the scan command.
#[derive(Debug)]
pub struct ScanArgs {
    /// Only check for missing variables.
    pub missing: bool,
    /// Only check for unused variables.
    pub unused: bool,
    /// Only check naming conventions.
    pub naming: bool,
    /// Additional environment files to check.
    pub env_files: Vec<String>,
    /// Additional patterns to ignore.
    pub ignore: Vec<String>,
    /// Languages to scan.
    pub language: Vec<String>,
    /// Minimum severity level to report.
    pub severity: SeverityFilter,
}

impl ScanArgs {
    /// Returns true if no specific check type is selected, meaning all run.
    pub fn run_all_checks(&self) -> (r: bool)
        ensures
            r == (!self.missing && !self.unused && !self.naming),
    {
        !self.missing && !self.unused && !self.naming
    }
}

impl Default for ScanArgs {
    /// All checks enabled, nothing filtered.
    fn default() -> (r: Self)
        ensures
            r.missing == false && r.unused == false && r.naming == false,
            r.env_files@.len() == 0 && r.ignore@.len() == 0 && r.language@.len() == 0,
            r.severity == SeverityFilter::Info,
    {
        ScanArgs {
            missing: false,
            unused: false,
            naming: false,
            env_files: Vec::new(),
            ignore: Vec::new(),
            language: Vec::new(),
            severity: SeverityFilter::Info,
        }
    }
}

/// Options of the continuous-integration check command.
#[derive(Debug)]
pub struct CheckArgs {
    /// Fail when issues of this severity or higher are found.
    pub fail_on: SeverityFilter,
    /// Print only the summary, not the individual issues.
    pub summary: bool,
}

/// Options of the list command.
#[derive(Debug)]
pub struct ListArgs {
    /// Show only defined variables.
    pub defined: bool,
    /// Show only used variables.
    pub used: bool,
    /// Show file locations.
    pub locations: bool,
}

/// Options of the two-file comparison command.
#[derive(Debug)]
pub struct CompareArgs {
    pub file1: String,
    pub file2: String,
    /// Show the differing values, which may expose secrets.
    pub show_values: bool,
}

/// The command to run.
#[derive(Debug)]
pub enum Commands {
    /// Scan the project for environment-variable issues.
    Scan(ScanArgs),
    /// Run as a continuous-integration check.
    Check(CheckArgs),
    /// Write a default configuration file.
    Init,
    /// List all detected environment variables.
    List(ListArgs),
    /// Compare two environment files.
    Compare(CompareArgs),
}

/// The parsed command line.
#[derive(Debug)]
pub struct Cli {
    /// Path of the configuration file.
    pub config: String,
    /// Project path to scan.
    pub path: String,
    /// Output format.
    pub format: OutputFormat,
    /// Output file path for rendered reports.
    pub output: Option<String>,
    /// Verbose output.
    pub verbose: bool,
    /// Suppress all output except errors.
    pub quiet: bool,
    /// Disable colored output.
    pub no_color: bool,
    /// The command to run; absent means scan.
    pub command: Option<Commands>,
}

} // verus!
