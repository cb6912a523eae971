//! The shared fact and finding types: definitions and usages of environment
//! variables, the issues derived from them, and the scan report.

use vstd::prelude::*;

verus! {

/// Supported programming languages for environment-variable scanning.
#[derive(Debug, Clone, Copy, PartialEq, Eq, Hash, Structural)]
pub enum Language {
    JavaScript,
    TypeScript,
    Python,
    Rust,
    Go,
    Ruby,
    Php,
    Java,
    CSharp,
}

/// The file extensions associated with `lang`.
pub open spec fn spec_extensions(lang: Language) -> Seq<Seq<char>> {
    match lang {
        Language::JavaScript => seq!["js"@, "mjs"@, "cjs"@, "jsx"@],
        Language::TypeScript => seq!["ts"@, "mts"@, "cts"@, "tsx"@],
        Language::Python => seq!["py"@],
        Language::Rust => seq!["rs"@],
        Language::Go => seq!["go"@],
        Language::Ruby => seq!["rb"@],
        Language::Php => seq!["php"@],
        Language::Java => seq!["java"@],
        Language::CSharp => seq!["cs"@],
    }
}

/// The human-readable name of `lang`.
pub open spec fn spec_display_name(lang: Language) -> Seq<char> {
    match lang {
        Language::JavaScript => "JavaScript"@,
        Language::TypeScript => "TypeScript"@,
        Language::Python => "Python"@,
        Language::Rust => "Rust"@,
        Language::Go => "Go"@,
        Language::Ruby => "Ruby"@,
        Language::Php => "PHP"@,
        Language::Java => "Java"@,
        Language::CSharp => "C#"@,
    }
}

impl Language {
    /// Returns the file extensions associated with this language.
    pub fn extensions(&self) -> (r: Vec<&'static str>)
        ensures
            r.deep_view() == spec_extensions(*self),
    {
        let r: Vec<&'static str> = match self {
            Language::JavaScript => vec!["js", "mjs", "cjs", "jsx"],
            Language::TypeScript => vec!["ts", "mts", "cts", "tsx"],
            Language::Python => vec!["py"],
            Language::Rust => vec!["rs"],
            Language::Go => vec!["go"],
            Language::Ruby => vec!["rb"],
            Language::Php => vec!["php"],
            Language::Java => vec!["java"],
            Language::CSharp => vec!["cs"],
        };
        proof {
            assert(r.deep_view() =~= spec_extensions(*self));
        }
        r
    }

    /// Returns a human-readable name for the language.
    pub fn display_name(&self) -> (r: &'static str)
        ensures
            r@ == spec_display_name(*self),
    {
        match self {
            Language::JavaScript => "JavaScript",
            Language::TypeScript => "TypeScript",
            Language::Python => "Python",
            Language::Rust => "Rust",
            Language::Go => "Go",
            Language::Ruby => "Ruby",
            Language::Php => "PHP",
            Language::Java => "Java",
            Language::CSharp => "C#",
        }
    }
}

/// Issue severity levels, ordered `Info < Warning < Error`.
#[derive(Debug, Clone, Copy, PartialEq, Eq, PartialOrd, Ord, Hash, Structural)]
pub enum Severity {
    Info,
    Warning,
    Error,
}

/// The numeric rank of a severity: higher is more severe.
pub open spec fn severity_rank(s: Severity) -> int {
    match s {
        Severity::Info => 0,
        Severity::Warning => 1,
        Severity::Error => 2,
    }
}

/// Two severities with the same rank are the same severity.
pub proof fn lemma_severity_rank_injective(a: Severity, b: Severity)
    ensures
        severity_rank(a) == severity_rank(b) ==> a == b,
{
}

impl Severity {
    /// The numeric rank of this severity: higher is more severe.
    pub fn rank(&self) -> (r: u8)
        ensures
            r as int == severity_rank(*self),
    {
        match self {
            Severity::Info => 0,
            Severity::Warning => 1,
            Severity::Error => 2,
        }
    }

    /// The lowercase label of this severity.
    pub fn label(&self) -> (r: &'static str)
        ensures
            r@ == spec_severity_label(*self),
    {
        match self {
            Severity::Info => "info",
            Severity::Warning => "warning",
            Severity::Error => "error",
        }
    }
}

pub open spec fn spec_severity_label(s: Severity) -> Seq<char> {
    match s {
        Severity::Info => "info"@,
        Severity::Warning => "warning"@,
        Severity::Error => "error"@,
    }
}

/// Kinds of issues that can be detected.
#[derive(Debug, Clone, Copy, PartialEq, Eq, Hash, Structural)]
pub enum IssueKind {
    /// Used in code but not defined in any environment file.
    MissingEnvVar,
    /// Defined in an environment file but never used in code.
    UnusedEnvVar,
    /// The name conflicts with a naming convention.
    InconsistentNaming,
    /// Defined more than once.
    DuplicateDefinition,
}

/// Where an environment variable was found.
#[derive(Debug, Clone)]
pub enum EnvVarSource {
    /// Defined in an environment file.
    EnvFile { path: String, line: usize },
    /// Used in source code.
    Code { path: String, line: usize, column: usize, language: Language },
}

/// An environment-variable definition, from an environment file.
#[derive(Debug, Clone)]
pub struct EnvVarDefinition {
    pub name: String,
    pub value: Option<String>,
    pub source_file: String,
    pub line: usize,
}

/// The mathematical content of an `EnvVarDefinition`.
pub struct DefView {
    pub name: Seq<char>,
    pub value: Option<Seq<char>>,
    pub source_file: Seq<char>,
    pub line: int,
}

impl View for EnvVarDefinition {
    type V = DefView;

    open spec fn view(&self) -> DefView {
        DefView {
            name: self.name@,
            value: match self.value {
                Some(v) => Some(v@),
                None => None,
            },
            source_file: self.source_file@,
            line: self.line as int,
        }
    }
}

impl DeepView for EnvVarDefinition {
    type V = DefView;

    open spec fn deep_view(&self) -> DefView {
        self.view()
    }
}

/// An environment-variable usage, from source code.
#[derive(Debug, Clone)]
pub struct EnvVarUsage {
    pub name: String,
    pub file_path: String,
    pub line: usize,
    pub column: usize,
    pub language: Language,
    /// The surrounding code, trimmed.
    pub context: Option<String>,
}

/// The mathematical content of an `EnvVarUsage`.
pub struct UsageView {
    pub name: Seq<char>,
    pub file_path: Seq<char>,
    pub line: int,
    pub column: int,
    pub language: Language,
    pub context: Option<Seq<char>>,
}

impl View for EnvVarUsage {
    type V = UsageView;

    open spec fn view(&self) -> UsageView {
        UsageView {
            name: self.name@,
            file_path: self.file_path@,
            line: self.line as int,
            column: self.column as int,
            language: self.language,
            context: match self.context {
                Some(c) => Some(c@),
                None => None,
            },
        }
    }
}

impl DeepView for EnvVarUsage {
    type V = UsageView;

    open spec fn deep_view(&self) -> UsageView {
        self.view()
    }
}

/// A location in the codebase.
#[derive(Debug)]
pub struct Location {
    pub file: String,
    pub line: Option<usize>,
    pub column: Option<usize>,
}

impl Clone for Location {
    /// A copy with the same file, line, and column.
    fn clone(&self) -> (r: Self)
        ensures
            r@ == self@,
    {
        Location {
            file: self.file.clone(),
            line: match self.line {
                Some(n) => Some(n),
                None => None,
            },
            column: match self.column {
                Some(n) => Some(n),
                None => None,
            },
        }
    }
}

/// The mathematical content of a `Location`.
pub struct LocView {
    pub file: Seq<char>,
    pub line: Option<int>,
    pub column: Option<int>,
}

impl View for Location {
    type V = LocView;

    open spec fn view(&self) -> LocView {
        LocView {
            file: self.file@,
            line: match self.line {
                Some(n) => Some(n as int),
                None => None,
            },
            column: match self.column {
                Some(n) => Some(n as int),
                None => None,
            },
        }
    }
}

impl DeepView for Location {
    type V = LocView;

    open spec fn deep_view(&self) -> LocView {
        self.view()
    }
}

/// Copies a vector of locations.
pub fn clone_locations(v: &Vec<Location>) -> (r: Vec<Location>)
    ensures
        r.deep_view() == v.deep_view(),
{
    let mut r: Vec<Location> = Vec::new();
    let mut i: usize = 0;
    while i < v.len()
        invariant
            i <= v@.len(),
            v.deep_view().len() == v@.len(),
            r.deep_view() == v.deep_view().take(i as int),
        decreases v@.len() - i,
    {
        let ghost prior = r.deep_view();
        r.push(v[i].clone());
        i = i + 1;
        proof {
            assert(r.deep_view() =~= prior.push(v.deep_view()[i - 1]));
            assert(r.deep_view() =~= v.deep_view().take(i as int));
        }
    }
    proof {
        assert(v.deep_view().take(v.deep_view().len() as int) =~= v.deep_view());
    }
    r
}

/// An issue found during the audit.
#[derive(Debug)]
pub struct Issue {
    pub kind: IssueKind,
    pub severity: Severity,
    pub var_name: String,
    pub message: String,
    pub locations: Vec<Location>,
    pub suggestion: Option<String>,
}

impl Clone for Issue {
    /// A copy with the same content.
    fn clone(&self) -> (r: Self)
        ensures
            r@ == self@,
    {
        let r = Issue {
            kind: self.kind,
            severity: self.severity,
            var_name: self.var_name.clone(),
            message: self.message.clone(),
            locations: clone_locations(&self.locations),
            suggestion: match &self.suggestion {
                Some(s) => Some(s.clone()),
                None => None,
            },
        };
        proof {
            assert(r@ == self@);
        }
        r
    }
}

/// The mathematical content of an `Issue`.
pub struct IssueView {
    pub kind: IssueKind,
    pub severity: Severity,
    pub var_name: Seq<char>,
    pub message: Seq<char>,
    pub locations: Seq<LocView>,
    pub suggestion: Option<Seq<char>>,
}

impl View for Issue {
    type V = IssueView;

    open spec fn view(&self) -> IssueView {
        IssueView {
            kind: self.kind,
            severity: self.severity,
            var_name: self.var_name@,
            message: self.message@,
            locations: self.locations.deep_view(),
            suggestion: match self.suggestion {
                Some(s) => Some(s@),
                None => None,
            },
        }
    }
}

impl DeepView for Issue {
    type V = IssueView;

    open spec fn deep_view(&self) -> IssueView {
        self.view()
    }
}

/// Summary statistics for a scan.
#[derive(Debug, Clone)]
pub struct ScanSummary {
    pub files_scanned: usize,
    pub env_files_found: usize,
    pub vars_defined: usize,
    pub vars_used: usize,
    pub total_issues: usize,
    pub errors: usize,
    pub warnings: usize,
    pub infos: usize,
}

impl Default for ScanSummary {
    /// An all-zero summary.
    fn default() -> (r: Self)
        ensures
            r.files_scanned == 0 && r.env_files_found == 0 && r.vars_defined == 0
                && r.vars_used == 0 && r.total_issues == 0 && r.errors == 0 && r.warnings == 0
                && r.infos == 0,
    {
        ScanSummary {
            files_scanned: 0,
            env_files_found: 0,
            vars_defined: 0,
            vars_used: 0,
            total_issues: 0,
            errors: 0,
            warnings: 0,
            infos: 0,
        }
    }
}

/// The complete scan report.
#[derive(Debug, Clone)]
pub struct ScanReport {
    pub summary: ScanSummary,
    pub issues: Vec<Issue>,
    pub definitions: Vec<EnvVarDefinition>,
    pub usages: Vec<EnvVarUsage>,
    pub scan_duration_ms: u64,
}

impl ScanReport {
    /// An empty report.
    pub fn new() -> (r: Self)
        ensures
            r.issues@.len() == 0,
            r.definitions@.len() == 0,
            r.usages@.len() == 0,
            r.scan_duration_ms == 0,
            r.summary.total_issues == 0 && r.summary.errors == 0 && r.summary.warnings == 0
                && r.summary.infos == 0 && r.summary.files_scanned == 0
                && r.summary.env_files_found == 0 && r.summary.vars_defined == 0
                && r.summary.vars_used == 0,
    {
        ScanReport {
            summary: ScanSummary::default(),
            issues: Vec::new(),
            definitions: Vec::new(),
            usages: Vec::new(),
            scan_duration_ms: 0,
        }
    }
}

impl Default for ScanReport {
    /// An empty report.
    fn default() -> (r: Self)
        ensures
            r.issues@.len() == 0,
            r.definitions@.len() == 0,
            r.usages@.len() == 0,
            r.scan_duration_ms == 0,
    {
        ScanReport::new()
    }
}

/// The number of issues in `issues` whose severity is `sev`.
pub open spec fn count_with_severity(issues: Seq<IssueView>, sev: Severity) -> int
    decreases issues.len(),
{
    if issues.len() == 0 {
        0
    } else {
        count_with_severity(issues.drop_last(), sev) + if issues.last().severity == sev {
            1int
        } else {
            0int
        }
    }
}

pub proof fn lemma_count_with_severity_bound(issues: Seq<IssueView>, sev: Severity)
    ensures
        0 <= count_with_severity(issues, sev) <= issues.len(),
    decreases issues.len(),
{
    if issues.len() > 0 {
        lemma_count_with_severity_bound(issues.drop_last(), sev);
    }
}

/// Counts the issues of one severity.
pub fn count_severity(issues: &Vec<Issue>, sev: Severity) -> (n: usize)
    ensures
        n as int == count_with_severity(issues.deep_view(), sev),
{
    let ghost iv = issues.deep_view();
    let mut n: usize = 0;
    let mut i: usize = 0;
    proof {
        assert(iv.take(0) =~= Seq::<IssueView>::empty());
    }
    while i < issues.len()
        invariant
            iv == issues.deep_view(),
            i <= issues@.len(),
            iv.len() == issues@.len(),
            n <= i,
            n as int == count_with_severity(iv.take(i as int), sev),
        decreases issues@.len() - i,
    {
        proof {
            assert(issues@[i as int]@ == iv[i as int]);
        }
        let s = issues[i].severity;
        if s.rank() == sev.rank() {
            proof {
                lemma_severity_rank_injective(s, sev);
            }
            n = n + 1;
        }
        i = i + 1;
        proof {
            assert(iv.take(i as int).drop_last() =~= iv.take(i - 1));
            assert(iv.take(i as int).last() == iv[i - 1]);
        }
    }
    proof {
        assert(iv.take(iv.len() as int) =~= iv);
    }
    n
}

/// The usage views' names, in order.
pub open spec fn report_usage_names(us: Seq<UsageView>) -> Seq<Seq<char>> {
    us.map_values(|u: UsageView| u.name)
}

/// The definition views' names, in order.
pub open spec fn report_def_names(defs: Seq<DefView>) -> Seq<Seq<char>> {
    defs.map_values(|d: DefView| d.name)
}

impl ScanReport {
    /// Calculate summary statistics from the issues, definitions, and usages:
    /// issue counts overall and per severity, and the numbers of distinct
    /// defined and distinct used names.
    pub fn calculate_summary(&mut self)
        ensures
            final(self).issues == old(self).issues,
            final(self).definitions == old(self).definitions,
            final(self).usages == old(self).usages,
            final(self).scan_duration_ms == old(self).scan_duration_ms,
            final(self).summary.files_scanned == old(self).summary.files_scanned,
            final(self).summary.env_files_found == old(self).summary.env_files_found,
            final(self).summary.total_issues == old(self).issues@.len(),
            final(self).summary.errors as int == count_with_severity(
                old(self).issues.deep_view(),
                Severity::Error,
            ),
            final(self).summary.warnings as int == count_with_severity(
                old(self).issues.deep_view(),
                Severity::Warning,
            ),
            final(self).summary.infos as int == count_with_severity(
                old(self).issues.deep_view(),
                Severity::Info,
            ),
            final(self).summary.vars_defined as int == crate::text::first_occurrences(
                report_def_names(old(self).definitions.deep_view()),
            ).len(),
            final(self).summary.vars_used as int == crate::text::first_occurrences(
                report_usage_names(old(self).usages.deep_view()),
            ).len(),
    {
        self.summary.total_issues = self.issues.len();
        self.summary.errors = count_severity(&self.issues, Severity::Error);
        self.summary.warnings = count_severity(&self.issues, Severity::Warning);
        self.summary.infos = count_severity(&self.issues, Severity::Info);
        let dnames = crate::analysis::collect_def_names(&self.definitions);
        let distinct_defined = crate::analysis::distinct_names(&dnames);
        proof {
            assert(crate::analysis::def_names(self.definitions.deep_view()) == report_def_names(
                self.definitions.deep_view(),
            ));
        }
        self.summary.vars_defined = distinct_defined.len();
        let unames = crate::analysis::collect_usage_names(&self.usages);
        let distinct_used = crate::analysis::distinct_names(&unames);
        proof {
            assert(crate::analysis::usage_names(self.usages.deep_view()) == report_usage_names(
                self.usages.deep_view(),
            ));
        }
        self.summary.vars_used = distinct_used.len();
    }
}

} // verus!
