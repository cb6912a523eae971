use env_audit::analysis::analyze;
use env_audit::cli::{ScanArgs, SeverityFilter};
use env_audit::config::{Config, NamingRule};
use env_audit::rules::{get_all_rules, get_builtin_rules};
use env_audit::types::{
    EnvVarDefinition, EnvVarUsage, Language, ScanReport, Severity,
};

fn usage(name: &str, file: &str, line: usize) -> EnvVarUsage {
    EnvVarUsage {
        name: name.to_string(),
        file_path: file.to_string(),
        line,
        column: 1,
        language: Language::Python,
        context: None,
    }
}

fn definition(name: &str, line: usize) -> EnvVarDefinition {
    EnvVarDefinition {
        name: name.to_string(),
        value: None,
        source_file: ".env".to_string(),
        line,
    }
}

#[test]
fn summary_counts_issues_and_names() {
    let defs = vec![
        definition("UNUSED_ONE", 1),
        definition("SHARED", 2),
        definition("SHARED", 3),
    ];
    let uses = vec![
        usage("SHARED", "a.py", 1),
        usage("SHARED", "b.py", 2),
        usage("GONE", "a.py", 3),
    ];
    let config = Config::default();
    let mut report = ScanReport::new();
    report.issues = analyze(&defs, &uses, &config);
    report.definitions = defs;
    report.usages = uses;
    report.calculate_summary();

    // distinct names on both sides: the duplicate SHARED definition counts once
    assert_eq!(report.summary.vars_defined, 2);
    // SHARED counted once, GONE once
    assert_eq!(report.summary.vars_used, 2);
    assert_eq!(report.summary.total_issues, report.issues.len());
    assert_eq!(report.summary.errors, 1);
    assert_eq!(report.summary.warnings, 1);
    assert_eq!(report.summary.infos, 0);
    assert_eq!(
        report.summary.errors + report.summary.warnings + report.summary.infos,
        report.summary.total_issues
    );
}

#[test]
fn new_report_is_empty() {
    let report = ScanReport::new();
    assert_eq!(report.issues.len(), 0);
    assert_eq!(report.definitions.len(), 0);
    assert_eq!(report.usages.len(), 0);
    assert_eq!(report.scan_duration_ms, 0);
    assert_eq!(report.summary.total_issues, 0);
}

#[test]
fn builtin_rules_cover_common_conventions() {
    let rules = get_builtin_rules();
    assert_eq!(rules.len(), 8);
    assert_eq!(rules[0].name, "database-url");
    assert_eq!(rules[0].preferred, "DATABASE_URL");
    assert!(rules[0].alternatives.iter().any(|a| a == "DB_URL"));
    assert_eq!(rules[0].severity, Severity::Warning);
    // no rule lists its preferred name among its alternatives
    for rule in &rules {
        assert!(rule.alternatives.iter().all(|a| *a != rule.preferred));
    }
}

#[test]
fn custom_rules_follow_builtin_rules() {
    let mut config = Config::default();
    config.naming.custom_rules.push(NamingRule {
        name: "team-style".to_string(),
        description: None,
        alternatives: vec!["SVC_URL".to_string()],
        preferred: "SERVICE_URL".to_string(),
        severity: "ERROR".to_string(),
    });
    let rules = get_all_rules(&config);
    assert_eq!(rules.len(), 9);
    assert_eq!(rules[8].name, "team-style");
    assert_eq!(rules[8].severity, Severity::Error);

    config.naming.builtin_rules = false;
    let rules = get_all_rules(&config);
    assert_eq!(rules.len(), 1);
    assert_eq!(rules[0].preferred, "SERVICE_URL");
}

#[test]
fn severity_labels_parse_case_insensitively() {
    let rule = |label: &str| NamingRule {
        name: "r".to_string(),
        description: None,
        alternatives: vec![],
        preferred: "X".to_string(),
        severity: label.to_string(),
    };
    assert_eq!(rule("error").severity_level(), Severity::Error);
    assert_eq!(rule("Warning").severity_level(), Severity::Warning);
    assert_eq!(rule("info").severity_level(), Severity::Info);
    assert_eq!(rule("whatever").severity_level(), Severity::Info);
}

#[test]
fn severity_is_ordered() {
    assert!(Severity::Info < Severity::Warning);
    assert!(Severity::Warning < Severity::Error);
    assert_eq!(Severity::Error.rank(), 2);
    assert_eq!(Severity::Error.label(), "error");
    assert_eq!(Severity::Warning.label(), "warning");
    assert_eq!(Severity::Info.label(), "info");
}

#[test]
fn run_all_checks_when_nothing_selected() {
    let args = ScanArgs::default();
    assert!(args.run_all_checks());
    let args = ScanArgs { missing: true, ..ScanArgs::default() };
    assert!(!args.run_all_checks());
}

#[test]
fn severity_filter_converts() {
    assert_eq!(Severity::from(SeverityFilter::Info), Severity::Info);
    assert_eq!(Severity::from(SeverityFilter::Warning), Severity::Warning);
    assert_eq!(Severity::from(SeverityFilter::Error), Severity::Error);
}

#[test]
fn default_config_values() {
    let config = Config::default();
    assert!(config.naming.builtin_rules);
    assert!(config.naming.ignore_patterns.is_empty());
    assert_eq!(config.scan.env_files, vec![".env", ".env.local", ".env.example"]);
    assert_eq!(config.output.format, "terminal");
    assert_eq!(config.output.min_severity, "info");
    assert!(config.output.show_suggestions);
}

// A name that is an alternative of a built-in rule draws a naming issue from
// the default configuration.
#[test]
fn builtin_rules_apply_in_analysis() {
    let defs = vec![definition("DB_URL", 1)];
    let uses = vec![usage("DB_URL", "a.py", 1)];
    let config = Config::default();
    let issues = analyze(&defs, &uses, &config);
    assert!(issues.iter().any(|i| i.var_name == "DB_URL"
        && i.message == "'DB_URL' could be renamed to 'DATABASE_URL' for consistency"));
}
