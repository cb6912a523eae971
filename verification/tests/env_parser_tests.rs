use env_audit::env_parser::{is_valid_env_var_name, parse_env_line, parse_env_text, strip_quotes};

#[test]
fn test_parse_env_line_simple() {
    let (key, value) = parse_env_line("DATABASE_URL=postgres://localhost/db").unwrap();
    assert_eq!(key, "DATABASE_URL");
    assert_eq!(value, "postgres://localhost/db");
}

#[test]
fn test_parse_env_line_with_quotes() {
    let (key, value) = parse_env_line("SECRET_KEY=\"my secret value\"").unwrap();
    assert_eq!(key, "SECRET_KEY");
    assert_eq!(value, "my secret value");
}

#[test]
fn test_parse_env_line_with_export() {
    let (key, value) = parse_env_line("export API_KEY=abc123").unwrap();
    assert_eq!(key, "API_KEY");
    assert_eq!(value, "abc123");
}

#[test]
fn test_parse_env_line_empty_value() {
    let (key, value) = parse_env_line("EMPTY_VAR=").unwrap();
    assert_eq!(key, "EMPTY_VAR");
    assert_eq!(value, "");
}

#[test]
fn test_is_valid_env_var_name() {
    assert!(is_valid_env_var_name("DATABASE_URL"));
    assert!(is_valid_env_var_name("_PRIVATE"));
    assert!(is_valid_env_var_name("API_KEY_123"));
    assert!(!is_valid_env_var_name("123_INVALID"));
    assert!(!is_valid_env_var_name(""));
    assert!(!is_valid_env_var_name("has-dash"));
}

#[test]
fn strip_quotes_removes_one_matching_pair() {
    assert_eq!(strip_quotes("\"abc\""), "abc");
    assert_eq!(strip_quotes("'abc'"), "abc");
    assert_eq!(strip_quotes("  abc  "), "abc");
    assert_eq!(strip_quotes("\"abc'"), "\"abc'");
    assert_eq!(strip_quotes("''"), "");
    assert_eq!(strip_quotes("\""), "\"");
}

// A quoted value keeps its inner spaces; a bad key or a comment yields
// nothing.
#[test]
fn env_text_scenarios() {
    let text = "export API_KEY=\"abc 123\"\n123BAD=x\n# comment\n";
    let defs = parse_env_text(text, ".env");
    assert_eq!(defs.len(), 1);
    assert_eq!(defs[0].name, "API_KEY");
    assert_eq!(defs[0].value.as_deref(), Some("abc 123"));
    assert_eq!(defs[0].source_file, ".env");
    assert_eq!(defs[0].line, 1);
}

#[test]
fn env_text_line_numbers_and_blanks() {
    let text = "# leading comment\n\nFIRST=1\r\n   \nexport SECOND = two \nno_eq_line\nTHIRD='3'";
    let defs = parse_env_text(text, "config/.env.local");
    assert_eq!(defs.len(), 3);
    assert_eq!(defs[0].name, "FIRST");
    assert_eq!(defs[0].value.as_deref(), Some("1"));
    assert_eq!(defs[0].line, 3);
    assert_eq!(defs[1].name, "SECOND");
    assert_eq!(defs[1].value.as_deref(), Some("two"));
    assert_eq!(defs[1].line, 5);
    assert_eq!(defs[2].name, "THIRD");
    assert_eq!(defs[2].value.as_deref(), Some("3"));
    assert_eq!(defs[2].line, 7);
}

#[test]
fn env_line_splits_at_first_equals() {
    let (key, value) = parse_env_line("URL=https://example.com?a=b").unwrap();
    assert_eq!(key, "URL");
    assert_eq!(value, "https://example.com?a=b");
}

#[test]
fn env_line_without_equals_is_nothing() {
    assert!(parse_env_line("JUST_A_WORD").is_none());
    assert!(parse_env_line("has-dash=1").is_none());
}

#[test]
fn compare_definitions_splits_names() {
    let defs1 = parse_env_text("A=1\nB=2\nB=3\nC=4\n", "one.env");
    let defs2 = parse_env_text("B=9\nD=8\n", "two.env");
    let (only1, only2, both) = env_audit::analysis::compare_definitions(&defs1, &defs2);
    assert_eq!(only1, vec!["A", "C"]);
    assert_eq!(only2, vec!["D"]);
    assert_eq!(both, vec!["B"]);
}

#[test]
fn lowercase_keys_are_accepted_in_env_files() {
    let (key, value) = parse_env_line("db_host=localhost").unwrap();
    assert_eq!(key, "db_host");
    assert_eq!(value, "localhost");
}
