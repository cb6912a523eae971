use env_audit::analysis::{analyze, find_missing_vars, find_naming_issues, find_unused_vars};
use env_audit::config::Config;
use env_audit::rules::NamingRule;
use env_audit::types::{EnvVarDefinition, EnvVarUsage, IssueKind, Language, Severity};

fn make_definition(name: &str) -> EnvVarDefinition {
    EnvVarDefinition {
        name: name.to_string(),
        value: Some("test".to_string()),
        source_file: ".env".to_string(),
        line: 1,
    }
}

fn make_usage(name: &str) -> EnvVarUsage {
    EnvVarUsage {
        name: name.to_string(),
        file_path: "src/app.js".to_string(),
        line: 10,
        column: 5,
        language: Language::JavaScript,
        context: None,
    }
}

fn make_rule(alternatives: Vec<&str>, preferred: &str) -> NamingRule {
    NamingRule {
        name: "test-rule".to_string(),
        description: Some("Test rule".to_string()),
        alternatives: alternatives.into_iter().map(String::from).collect(),
        preferred: preferred.to_string(),
        severity: Severity::Warning,
    }
}

#[test]
fn test_no_missing_vars() {
    let definitions = vec![make_definition("API_KEY")];
    let usages = vec![make_usage("API_KEY")];

    let issues = find_missing_vars(&definitions, &usages);
    assert!(issues.is_empty());
}

#[test]
fn test_missing_var() {
    let definitions = vec![make_definition("API_KEY")];
    let usages = vec![make_usage("API_KEY"), make_usage("DATABASE_URL")];

    let issues = find_missing_vars(&definitions, &usages);
    assert_eq!(issues.len(), 1);
    assert_eq!(issues[0].var_name, "DATABASE_URL");
    assert_eq!(issues[0].kind, IssueKind::MissingEnvVar);
    assert_eq!(issues[0].severity, Severity::Error);
}

#[test]
fn test_multiple_missing_vars() {
    let definitions = vec![];
    let usages = vec![make_usage("API_KEY"), make_usage("DATABASE_URL")];

    let issues = find_missing_vars(&definitions, &usages);
    assert_eq!(issues.len(), 2);
}

#[test]
fn test_no_unused_vars() {
    let definitions = vec![make_definition("API_KEY")];
    let usages = vec![make_usage("API_KEY")];

    let issues = find_unused_vars(&definitions, &usages);
    assert!(issues.is_empty());
}

#[test]
fn test_unused_var() {
    let definitions = vec![make_definition("API_KEY"), make_definition("OLD_KEY")];
    let usages = vec![make_usage("API_KEY")];

    let issues = find_unused_vars(&definitions, &usages);
    assert_eq!(issues.len(), 1);
    assert_eq!(issues[0].var_name, "OLD_KEY");
    assert_eq!(issues[0].kind, IssueKind::UnusedEnvVar);
    assert_eq!(issues[0].severity, Severity::Warning);
}

#[test]
fn test_all_unused() {
    let definitions = vec![make_definition("API_KEY"), make_definition("DATABASE_URL")];
    let usages = vec![];

    let issues = find_unused_vars(&definitions, &usages);
    assert_eq!(issues.len(), 2);
}

#[test]
fn test_no_naming_issues() {
    let definitions = vec![make_definition("DATABASE_URL")];
    let usages = vec![make_usage("DATABASE_URL")];
    let rules = vec![make_rule(vec!["DB_URL", "DB_HOST"], "DATABASE_URL")];

    let issues = find_naming_issues(&definitions, &usages, &rules, &vec![]);
    assert!(issues.is_empty());
}

#[test]
fn test_naming_issue_found() {
    let definitions = vec![make_definition("DB_URL")];
    let usages = vec![make_usage("DB_URL")];
    let rules = vec![make_rule(vec!["DB_URL", "DB_HOST"], "DATABASE_URL")];

    let issues = find_naming_issues(&definitions, &usages, &rules, &vec![]);
    assert_eq!(issues.len(), 1);
    assert_eq!(issues[0].var_name, "DB_URL");
    assert_eq!(issues[0].kind, IssueKind::InconsistentNaming);
}

#[test]
fn test_ignore_pattern() {
    let definitions = vec![make_definition("_INTERNAL_VAR")];
    let usages = vec![];
    let rules = vec![make_rule(vec!["_INTERNAL_VAR"], "INTERNAL_VAR")];
    let ignore = vec!["^_".to_string()];

    let issues = find_naming_issues(&definitions, &usages, &rules, &ignore);
    assert!(issues.is_empty());
}

// With usages only of an alternative name, only that alternative is reported,
// not its siblings in the same rule.
#[test]
fn naming_rule_reports_only_present_alternative() {
    let definitions = vec![];
    let usages = vec![make_usage("DB_URL")];
    let rules = vec![make_rule(vec!["DB_URL", "DB_HOST"], "DATABASE_URL")];

    let issues = find_naming_issues(&definitions, &usages, &rules, &vec![]);
    assert_eq!(issues.len(), 1);
    assert_eq!(issues[0].var_name, "DB_URL");
    assert!(issues.iter().all(|i| i.var_name != "DB_HOST"));
    assert_eq!(
        issues[0].message,
        "'DB_URL' could be renamed to 'DATABASE_URL' for consistency"
    );
    assert_eq!(
        issues[0].suggestion.as_deref(),
        Some("Consider using 'DATABASE_URL' instead of 'DB_URL' (Test rule)")
    );
}

// Missing and unused are the two set differences of the name sets, and the
// order in which the facts arrive does not change them.
#[test]
fn missing_and_unused_are_set_differences() {
    let defs = vec![make_definition("ALPHA"), make_definition("BETA")];
    let uses = vec![make_usage("BETA"), make_usage("GAMMA")];

    let missing = find_missing_vars(&defs, &uses);
    assert_eq!(missing.len(), 1);
    assert_eq!(missing[0].var_name, "GAMMA");

    let unused = find_unused_vars(&defs, &uses);
    assert_eq!(unused.len(), 1);
    assert_eq!(unused[0].var_name, "ALPHA");

    // the same facts in another order give the same names
    let defs_rev = vec![make_definition("BETA"), make_definition("ALPHA")];
    let uses_rev = vec![make_usage("GAMMA"), make_usage("BETA")];
    let missing_rev = find_missing_vars(&defs_rev, &uses_rev);
    let unused_rev = find_unused_vars(&defs_rev, &uses_rev);
    assert_eq!(missing_rev.len(), 1);
    assert_eq!(missing_rev[0].var_name, "GAMMA");
    assert_eq!(unused_rev.len(), 1);
    assert_eq!(unused_rev[0].var_name, "ALPHA");
}

// Equal name sets yield no missing and no unused findings, duplicates or not.
#[test]
fn balanced_names_yield_no_findings() {
    let defs = vec![
        make_definition("API_KEY"),
        make_definition("API_KEY"),
        make_definition("PORT"),
    ];
    let uses = vec![
        make_usage("PORT"),
        make_usage("API_KEY"),
        make_usage("PORT"),
    ];

    assert!(find_missing_vars(&defs, &uses).is_empty());
    assert!(find_unused_vars(&defs, &uses).is_empty());
}

// Running the analyzer twice on the same facts yields an identical sequence.
#[test]
fn analyzer_is_deterministic() {
    let defs = vec![
        make_definition("DB_URL"),
        make_definition("OLD_KEY"),
        make_definition("API_KEY"),
    ];
    let uses = vec![make_usage("API_KEY"), make_usage("SECRET")];
    let config = Config::default();

    let first = analyze(&defs, &uses, &config);
    let second = analyze(&defs, &uses, &config);
    assert_eq!(format!("{:?}", first), format!("{:?}", second));
    assert!(!first.is_empty());
}

// The merged issue list is sorted by severity descending, ties by name.
#[test]
fn analyzer_orders_issues() {
    let defs = vec![make_definition("DB_URL"), make_definition("OLD_KEY")];
    let uses = vec![make_usage("MISSING_B"), make_usage("MISSING_A")];
    let config = Config::default();

    let issues = analyze(&defs, &uses, &config);
    for w in issues.windows(2) {
        assert!(
            w[0].severity > w[1].severity
                || (w[0].severity == w[1].severity && w[0].var_name <= w[1].var_name)
        );
    }
    // the two errors come first, in name order
    assert_eq!(issues[0].var_name, "MISSING_A");
    assert_eq!(issues[1].var_name, "MISSING_B");
    assert_eq!(issues[0].severity, Severity::Error);
}

// End-to-end: one defined name, one extra used name.
#[test]
fn end_to_end_single_missing_error() {
    let defs = vec![make_definition("API_KEY")];
    let uses = vec![make_usage("API_KEY"), make_usage("DATABASE_URL")];
    let config = Config::default();

    let issues = analyze(&defs, &uses, &config);
    let missing: Vec<_> = issues
        .iter()
        .filter(|i| i.kind == IssueKind::MissingEnvVar)
        .collect();
    assert_eq!(missing.len(), 1);
    assert_eq!(missing[0].var_name, "DATABASE_URL");
    assert_eq!(missing[0].severity, Severity::Error);
    assert!(issues.iter().all(|i| i.kind != IssueKind::UnusedEnvVar));
}

// The missing message counts the locations when there are several.
#[test]
fn missing_message_pluralizes() {
    let defs = vec![];
    let mut u1 = make_usage("KEY_ONE");
    u1.line = 3;
    let mut u2 = make_usage("KEY_ONE");
    u2.line = 1;
    let uses = vec![u1, u2];

    let issues = find_missing_vars(&defs, &uses);
    assert_eq!(issues.len(), 1);
    assert_eq!(
        issues[0].message,
        "'KEY_ONE' is used in 2 locations but not defined in any .env file"
    );
    // locations are sorted by file and line
    assert_eq!(issues[0].locations.len(), 2);
    assert_eq!(issues[0].locations[0].line, Some(1));
    assert_eq!(issues[0].locations[1].line, Some(3));
    assert_eq!(issues[0].suggestion.as_deref(), Some("Add KEY_ONE to your .env file"));
}

#[test]
fn unused_message_and_suggestion() {
    let defs = vec![make_definition("OLD_KEY")];
    let uses = vec![];

    let issues = find_unused_vars(&defs, &uses);
    assert_eq!(issues.len(), 1);
    assert_eq!(issues[0].message, "'OLD_KEY' is defined but never used in code");
    assert_eq!(
        issues[0].suggestion.as_deref(),
        Some("Remove OLD_KEY from your .env file if it's no longer needed")
    );
    assert_eq!(issues[0].locations.len(), 1);
    assert_eq!(issues[0].locations[0].file, ".env");
    assert_eq!(issues[0].locations[0].column, None);
}

// Naming locations merge definitions and usages, deduplicated by file and
// line.
#[test]
fn naming_locations_merge_and_dedup() {
    let mut d = make_definition("DB_URL");
    d.line = 4;
    let mut u = make_usage("DB_URL");
    u.file_path = ".env".to_string();
    u.line = 4;
    u.column = 9;
    let mut u2 = make_usage("DB_URL");
    u2.line = 7;
    let rules = vec![make_rule(vec!["DB_URL"], "DATABASE_URL")];

    let issues = find_naming_issues(&vec![d], &vec![u, u2], &rules, &vec![]);
    assert_eq!(issues.len(), 1);
    // (.env, 4) appears once even though defined and used there
    assert_eq!(issues[0].locations.len(), 2);
    assert_eq!(issues[0].locations[0].file, ".env");
    assert_eq!(issues[0].locations[0].line, Some(4));
    assert_eq!(issues[0].locations[0].column, None);
    assert_eq!(issues[0].locations[1].file, "src/app.js");
    assert_eq!(issues[0].locations[1].line, Some(7));
}

// The location count renders correctly past one digit.
#[test]
fn missing_message_counts_many_locations() {
    let defs = vec![];
    let mut uses = Vec::new();
    for line in 1..=12 {
        let mut u = make_usage("BIG_ONE");
        u.line = line;
        uses.push(u);
    }
    let issues = find_missing_vars(&defs, &uses);
    assert_eq!(issues.len(), 1);
    assert_eq!(
        issues[0].message,
        "'BIG_ONE' is used in 12 locations but not defined in any .env file"
    );
    assert_eq!(issues[0].locations.len(), 12);
}

// An ignore pattern that does not compile is dropped, not fatal.
#[test]
fn invalid_ignore_pattern_is_dropped() {
    let definitions = vec![make_definition("DB_URL")];
    let usages = vec![];
    let rules = vec![make_rule(vec!["DB_URL"], "DATABASE_URL")];
    let ignore = vec!["[".to_string()];

    let issues = find_naming_issues(&definitions, &usages, &rules, &ignore);
    assert_eq!(issues.len(), 1);
    assert_eq!(issues[0].var_name, "DB_URL");
}
