//! Configuration values the analysis consumes: which environment files to
//! parse, which naming rules are in force, and how output is rendered. The
//! values are plain data; reading and decoding a configuration file is the
//! caller's business.

use vstd::prelude::*;
use vstd::string::StringExecFns;

use crate::text::{chars_eq_str, lower_seq, to_char_vec, to_lower_vec};
use crate::types::Severity;

verus! {

/// Main configuration structure.
#[derive(Debug)]
pub struct Config {
    pub scan: ScanConfig,
    pub naming: NamingConfig,
    pub output: OutputConfig,
}

/// Configuration for file scanning.
#[derive(Debug)]
pub struct ScanConfig {
    /// Environment files to parse, relative to the project root.
    pub env_files: Vec<String>,
    /// Glob patterns that select files for the scan.
    pub select: Vec<String>,
    /// Glob patterns to exclude from the scan.
    pub exclude: Vec<String>,
    /// Languages to scan; absent means all supported languages.
    pub languages: Option<Vec<String>>,
}

/// Configuration for naming-convention checks.
#[derive(Debug)]
pub struct NamingConfig {
    /// Whether the built-in rules are in force.
    pub builtin_rules: bool,
    /// User-supplied rules.
    pub custom_rules: Vec<NamingRule>,
    /// Regular expressions; an alternative name matching one is not reported.
    pub ignore_patterns: Vec<String>,
}

/// A user-supplied naming rule, with its severity still a label.
#[derive(Debug, Clone)]
pub struct NamingRule {
    pub name: String,
    pub description: Option<String>,
    pub alternatives: Vec<String>,
    pub preferred: String,
    pub severity: String,
}

/// The mathematical content of a user-supplied rule.
pub struct CustomRuleView {
    pub name: Seq<char>,
    pub description: Option<Seq<char>>,
    pub alternatives: Seq<Seq<char>>,
    pub preferred: Seq<char>,
    pub severity: Seq<char>,
}

impl View for NamingRule {
    type V = CustomRuleView;

    open spec fn view(&self) -> CustomRuleView {
        CustomRuleView {
            name: self.name@,
            description: match self.description {
                Some(d) => Some(d@),
                None => None,
            },
            alternatives: self.alternatives.deep_view(),
            preferred: self.preferred@,
            severity: self.severity@,
        }
    }
}

impl DeepView for NamingRule {
    type V = CustomRuleView;

    open spec fn deep_view(&self) -> CustomRuleView {
        self.view()
    }
}

/// The severity a label denotes, case-insensitively: `error`, `warning`, or
/// anything else for `Info`.
pub open spec fn spec_severity_of(label: Seq<char>) -> Severity {
    if lower_seq(label) == "error"@ {
        Severity::Error
    } else if lower_seq(label) == "warning"@ {
        Severity::Warning
    } else {
        Severity::Info
    }
}

impl NamingRule {
    /// The severity this rule's label denotes.
    pub fn severity_level(&self) -> (s: Severity)
        ensures
            s == spec_severity_of(self.severity@),
    {
        let chars = to_char_vec(self.severity.as_str());
        let lowered = to_lower_vec(&chars);
        if chars_eq_str(&lowered, "error") {
            Severity::Error
        } else if chars_eq_str(&lowered, "warning") {
            Severity::Warning
        } else {
            Severity::Info
        }
    }
}

/// Configuration for output formatting.
#[derive(Debug)]
pub struct OutputConfig {
    /// Default output format.
    pub format: String,
    /// Whether to show suggestions for fixing issues.
    pub show_suggestions: bool,
    /// Whether issues are grouped by type rather than by file.
    pub group_by_type: bool,
    /// Minimum severity to report.
    pub min_severity: String,
    /// Output file path for non-terminal formats.
    pub output_file: Option<String>,
}

/// The default environment-file names.
pub open spec fn default_env_files_spec() -> Seq<Seq<char>> {
    seq![".env"@, ".env.local"@, ".env.example"@]
}

/// The default exclusion patterns.
pub open spec fn default_exclude_spec() -> Seq<Seq<char>> {
    seq![
        "**/node_modules/**"@,
        "**/target/**"@,
        "**/vendor/**"@,
        "**/.git/**"@,
        "**/dist/**"@,
        "**/build/**"@,
        "**/__pycache__/**"@,
        "**/venv/**"@,
        "**/.venv/**"@,
    ]
}

impl Default for ScanConfig {
    /// The default scan configuration: the conventional environment files,
    /// every file selected, build and dependency directories excluded, all
    /// languages.
    fn default() -> (r: Self)
        ensures
            r.env_files.deep_view() == default_env_files_spec(),
            r.select.deep_view() == seq!["**/*"@],
            r.exclude.deep_view() == default_exclude_spec(),
            r.languages is None,
    {
        let env_files: Vec<String> = vec![
            String::from_str(".env"),
            String::from_str(".env.local"),
            String::from_str(".env.example"),
        ];
        let select: Vec<String> = vec![String::from_str("**/*")];
        let exclude: Vec<String> = vec![
            String::from_str("**/node_modules/**"),
            String::from_str("**/target/**"),
            String::from_str("**/vendor/**"),
            String::from_str("**/.git/**"),
            String::from_str("**/dist/**"),
            String::from_str("**/build/**"),
            String::from_str("**/__pycache__/**"),
            String::from_str("**/venv/**"),
            String::from_str("**/.venv/**"),
        ];
        proof {
            assert(env_files.deep_view() =~= default_env_files_spec());
            assert(select.deep_view() =~= seq!["**/*"@]);
            assert(exclude.deep_view() =~= default_exclude_spec());
        }
        ScanConfig { env_files, select, exclude, languages: None }
    }
}

impl Default for NamingConfig {
    /// The default naming configuration: built-in rules on, no custom rules,
    /// no ignore patterns.
    fn default() -> (r: Self)
        ensures
            r.builtin_rules == true,
            r.custom_rules@.len() == 0,
            r.ignore_patterns@.len() == 0,
    {
        NamingConfig { builtin_rules: true, custom_rules: Vec::new(), ignore_patterns: Vec::new() }
    }
}

impl Default for OutputConfig {
    /// The default output configuration: terminal format, suggestions shown,
    /// grouped by type, everything down to `info` reported.
    fn default() -> (r: Self)
        ensures
            r.format@ == "terminal"@,
            r.show_suggestions == true,
            r.group_by_type == true,
            r.min_severity@ == "info"@,
            r.output_file is None,
    {
        OutputConfig {
            format: String::from_str("terminal"),
            show_suggestions: true,
            group_by_type: true,
            min_severity: String::from_str("info"),
            output_file: None,
        }
    }
}

impl Default for Config {
    /// The default configuration.
    fn default() -> (r: Self)
        ensures
            r.naming.builtin_rules == true,
            r.naming.custom_rules@.len() == 0,
            r.naming.ignore_patterns@.len() == 0,
            r.scan.env_files.deep_view() == default_env_files_spec(),
    {
        Config {
            scan: ScanConfig::default(),
            naming: NamingConfig::default(),
            output: OutputConfig::default(),
        }
    }
}

} // verus!
