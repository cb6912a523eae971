use env_audit::languages::csharp::CSharpScanner;
use env_audit::languages::go::GoScanner;
use env_audit::languages::java::JavaScanner;
use env_audit::languages::javascript::JavaScriptScanner;
use env_audit::languages::php::PhpScanner;
use env_audit::languages::python::PythonScanner;
use env_audit::languages::ruby::RubyScanner;
use env_audit::languages::rust_lang::RustScanner;
use env_audit::languages::{get_language_for_file, LanguageRegistry, LanguageScanner};
use env_audit::types::Language;

#[test]
fn test_process_env_dot() {
    let scanner = JavaScriptScanner::new();
    let content = r#"const apiKey = process.env.API_KEY;"#;
    let usages = scanner.scan(content, "test.js");
    assert_eq!(usages.len(), 1);
    assert_eq!(usages[0].name, "API_KEY");
}

#[test]
fn test_process_env_bracket() {
    let scanner = JavaScriptScanner::new();
    let content = r#"const key = process.env['SECRET_KEY'];"#;
    let usages = scanner.scan(content, "test.js");
    assert_eq!(usages.len(), 1);
    assert_eq!(usages[0].name, "SECRET_KEY");
}

#[test]
fn test_import_meta_env() {
    let scanner = JavaScriptScanner::new();
    let content = r#"const url = import.meta.env.VITE_API_URL;"#;
    let usages = scanner.scan(content, "test.ts");
    assert_eq!(usages.len(), 1);
    assert_eq!(usages[0].name, "VITE_API_URL");
}

#[test]
fn test_destructuring() {
    let scanner = JavaScriptScanner::new();
    let content = r#"const { PORT, HOST, DATABASE_URL } = process.env;"#;
    let usages = scanner.scan(content, "test.js");
    assert_eq!(usages.len(), 3);
    let names: Vec<_> = usages.iter().map(|u| u.name.as_str()).collect();
    assert!(names.contains(&"PORT"));
    assert!(names.contains(&"HOST"));
    assert!(names.contains(&"DATABASE_URL"));
}

#[test]
fn test_multiple_usages() {
    let scanner = JavaScriptScanner::new();
    let content = r#"
            const apiKey = process.env.API_KEY;
            const dbUrl = process.env.DATABASE_URL;
            const port = process.env["PORT"];
        "#;
    let usages = scanner.scan(content, "test.js");
    assert_eq!(usages.len(), 3);
}

#[test]
fn destructuring_with_rename_takes_variable_name() {
    let scanner = JavaScriptScanner::new();
    let content = "let { PORT: localPort, apiKey, DB_HOST } = process.env;";
    let usages = scanner.scan(content, "test.js");
    let names: Vec<_> = usages.iter().map(|u| u.name.as_str()).collect();
    assert_eq!(names, vec!["PORT", "DB_HOST"]);
}

#[test]
fn test_os_environ_bracket() {
    let scanner = PythonScanner::new();
    let content = r#"db_url = os.environ['DATABASE_URL']"#;
    let usages = scanner.scan(content, "test.py");
    assert_eq!(usages.len(), 1);
    assert_eq!(usages[0].name, "DATABASE_URL");
}

#[test]
fn test_os_environ_get() {
    let scanner = PythonScanner::new();
    let content = r#"api_key = os.environ.get('API_KEY', 'default')"#;
    let usages = scanner.scan(content, "test.py");
    assert_eq!(usages.len(), 1);
    assert_eq!(usages[0].name, "API_KEY");
}

#[test]
fn python_test_os_getenv() {
    let scanner = PythonScanner::new();
    let content = r#"port = os.getenv("PORT")"#;
    let usages = scanner.scan(content, "test.py");
    assert_eq!(usages.len(), 1);
    assert_eq!(usages[0].name, "PORT");
}

#[test]
fn test_environ_direct() {
    let scanner = PythonScanner::new();
    let content = "\nfrom os import environ\nsecret = environ['SECRET_KEY']\n";
    let usages = scanner.scan(content, "test.py");
    assert_eq!(usages.len(), 1);
    assert_eq!(usages[0].name, "SECRET_KEY");
}

#[test]
fn test_getenv_direct() {
    let scanner = PythonScanner::new();
    let content = "\nfrom os import getenv\ndebug = getenv('DEBUG')\n";
    let usages = scanner.scan(content, "test.py");
    assert_eq!(usages.len(), 1);
    assert_eq!(usages[0].name, "DEBUG");
}

#[test]
fn test_env_var() {
    let scanner = RustScanner::new();
    let content = r#"let db = std::env::var("DATABASE_URL").unwrap();"#;
    let usages = scanner.scan(content, "main.rs");
    assert_eq!(usages.len(), 1);
    assert_eq!(usages[0].name, "DATABASE_URL");
}

#[test]
fn test_env_var_short() {
    let scanner = RustScanner::new();
    let content = r#"let port = env::var("PORT");"#;
    let usages = scanner.scan(content, "main.rs");
    assert_eq!(usages.len(), 1);
    assert_eq!(usages[0].name, "PORT");
}

#[test]
fn test_env_macro() {
    let scanner = RustScanner::new();
    let content = r#"const API_KEY: &str = env!("API_KEY");"#;
    let usages = scanner.scan(content, "main.rs");
    assert_eq!(usages.len(), 1);
    assert_eq!(usages[0].name, "API_KEY");
}

#[test]
fn test_option_env_macro() {
    let scanner = RustScanner::new();
    let content = r#"let debug = option_env!("DEBUG");"#;
    let usages = scanner.scan(content, "main.rs");
    assert_eq!(usages.len(), 1);
    assert_eq!(usages[0].name, "DEBUG");
}

#[test]
fn go_test_os_getenv() {
    let scanner = GoScanner::new();
    let content = r#"port := os.Getenv("PORT")"#;
    let usages = scanner.scan(content, "main.go");
    assert_eq!(usages.len(), 1);
    assert_eq!(usages[0].name, "PORT");
}

#[test]
fn test_os_lookup_env() {
    let scanner = GoScanner::new();
    let content = r#"if val, ok := os.LookupEnv("DATABASE_URL"); ok {"#;
    let usages = scanner.scan(content, "main.go");
    assert_eq!(usages.len(), 1);
    assert_eq!(usages[0].name, "DATABASE_URL");
}

#[test]
fn test_env_bracket() {
    let scanner = RubyScanner::new();
    let content = r#"db_url = ENV['DATABASE_URL']"#;
    let usages = scanner.scan(content, "config.rb");
    assert_eq!(usages.len(), 1);
    assert_eq!(usages[0].name, "DATABASE_URL");
}

#[test]
fn test_env_fetch() {
    let scanner = RubyScanner::new();
    let content = r#"port = ENV.fetch("PORT", "3000")"#;
    let usages = scanner.scan(content, "config.rb");
    assert_eq!(usages.len(), 1);
    assert_eq!(usages[0].name, "PORT");
}

#[test]
fn ruby_bracket_column_is_name_position() {
    let scanner = RubyScanner::new();
    let content = "x = ENV['FOO_BAR']";
    let usages = scanner.scan(content, "config.rb");
    assert_eq!(usages.len(), 1);
    assert_eq!(usages[0].name, "FOO_BAR");
    // 1-based column of the letter F
    assert_eq!(usages[0].column, 10);
    assert_eq!(usages[0].line, 1);
}

#[test]
fn test_getenv() {
    let scanner = PhpScanner::new();
    let content = r#"$dbUrl = getenv('DATABASE_URL');"#;
    let usages = scanner.scan(content, "config.php");
    assert_eq!(usages.len(), 1);
    assert_eq!(usages[0].name, "DATABASE_URL");
}

#[test]
fn test_dollar_env() {
    let scanner = PhpScanner::new();
    let content = r#"$apiKey = $_ENV['API_KEY'];"#;
    let usages = scanner.scan(content, "config.php");
    assert_eq!(usages.len(), 1);
    assert_eq!(usages[0].name, "API_KEY");
}

#[test]
fn test_laravel_env() {
    let scanner = PhpScanner::new();
    let content = r#"'debug' => env('APP_DEBUG', false),"#;
    let usages = scanner.scan(content, "config/app.php");
    assert_eq!(usages.len(), 1);
    assert_eq!(usages[0].name, "APP_DEBUG");
}

#[test]
fn test_system_getenv() {
    let scanner = JavaScanner::new();
    let content = r#"String dbUrl = System.getenv("DATABASE_URL");"#;
    let usages = scanner.scan(content, "Config.java");
    assert_eq!(usages.len(), 1);
    assert_eq!(usages[0].name, "DATABASE_URL");
}

#[test]
fn test_system_getproperty() {
    let scanner = JavaScanner::new();
    let content = r#"String port = System.getProperty("PORT");"#;
    let usages = scanner.scan(content, "Config.java");
    assert_eq!(usages.len(), 1);
    assert_eq!(usages[0].name, "PORT");
}

#[test]
fn test_environment_getenv() {
    let scanner = CSharpScanner::new();
    let content = r#"var dbUrl = Environment.GetEnvironmentVariable("DATABASE_URL");"#;
    let usages = scanner.scan(content, "Config.cs");
    assert_eq!(usages.len(), 1);
    assert_eq!(usages[0].name, "DATABASE_URL");
}

#[test]
fn test_config_manager() {
    let scanner = CSharpScanner::new();
    let content = r#"var apiKey = ConfigurationManager.AppSettings["API_KEY"];"#;
    let usages = scanner.scan(content, "Config.cs");
    assert_eq!(usages.len(), 1);
    assert_eq!(usages[0].name, "API_KEY");
}

// A qualified access matched by two overlapping patterns yields one usage.
#[test]
fn overlapping_patterns_yield_one_usage() {
    let py = PythonScanner::new();
    let usages = py.scan("secret = os.environ['SECRET_KEY']", "a.py");
    assert_eq!(usages.len(), 1);

    let rs = RustScanner::new();
    let usages = rs.scan(r#"let d = option_env!("DEBUG");"#, "a.rs");
    assert_eq!(usages.len(), 1);
}

// The bare access forms require a word boundary: another identifier ending in
// the same letters is not an environment read.
#[test]
fn bare_forms_respect_word_boundaries() {
    let py = PythonScanner::new();
    assert!(py.scan("v = my_getenv('NOT_ENV')", "a.py").is_empty());
    assert!(py.scan("v = subenviron['NOT_ENV']", "a.py").is_empty());

    let php = PhpScanner::new();
    assert!(php.scan("$v = my_env('NOT_ENV');", "a.php").is_empty());
    // a sigil is not a word character, so this one is a real call
    assert_eq!(php.scan("$v = $getenv('REAL_ENV');", "a.php").len(), 1);
    // `getenv` itself carries no boundary: a wrapper ending in it still counts
    let usages = php.scan("$v = my_getenv('WRAPPED_VAR');", "a.php");
    assert_eq!(usages.len(), 1);
    assert_eq!(usages[0].name, "WRAPPED_VAR");
}

// Lowercase names are not environment-variable references.
#[test]
fn lowercase_names_are_rejected() {
    let scanner = JavaScriptScanner::new();
    let usages = scanner.scan("const x = process.env.apiKey;", "a.js");
    assert!(usages.is_empty());
}

#[test]
fn usage_carries_line_column_and_context() {
    let scanner = JavaScriptScanner::new();
    let content = "\n  const k = process.env.API_KEY;\n";
    let usages = scanner.scan(content, "src/app.js");
    assert_eq!(usages.len(), 1);
    assert_eq!(usages[0].line, 2);
    assert_eq!(usages[0].column, 25);
    assert_eq!(usages[0].file_path, "src/app.js");
    assert_eq!(usages[0].language, Language::JavaScript);
    assert_eq!(usages[0].context.as_deref(), Some("const k = process.env.API_KEY;"));
}

#[test]
fn usages_on_one_line_come_in_column_order() {
    let scanner = RubyScanner::new();
    let content = "x = ENV['B_VAR'] + ENV.fetch('A_VAR')";
    let usages = scanner.scan(content, "config.rb");
    assert_eq!(usages.len(), 2);
    assert_eq!(usages[0].name, "B_VAR");
    assert_eq!(usages[1].name, "A_VAR");
    assert!(usages[0].column < usages[1].column);
}

#[test]
fn call_idiom_allows_spaces_before_the_argument() {
    let scanner = PhpScanner::new();
    let usages = scanner.scan("$v = getenv (  'SPACED_VAR' );", "a.php");
    assert_eq!(usages.len(), 1);
    assert_eq!(usages[0].name, "SPACED_VAR");
}

#[test]
fn two_destructurings_on_one_line() {
    let scanner = JavaScriptScanner::new();
    let content = "const {A_ONE} = process.env; let {B_TWO} = process.env;";
    let usages = scanner.scan(content, "a.js");
    let names: Vec<_> = usages.iter().map(|u| u.name.as_str()).collect();
    assert_eq!(names, vec!["A_ONE", "B_TWO"]);
}

#[test]
fn empty_and_unmatched_text_yield_no_usages() {
    let scanner = GoScanner::new();
    assert!(scanner.scan("", "main.go").is_empty());
    assert!(scanner.scan("fmt.Println(\"HELLO\")", "main.go").is_empty());
}

#[test]
fn registry_dispatches_by_extension() {
    let registry = LanguageRegistry::new();
    assert_eq!(registry.get_scanner_for_file("src/app.js"), Some(Language::JavaScript));
    assert_eq!(registry.get_scanner_for_file("src/APP.TSX"), Some(Language::JavaScript));
    assert_eq!(registry.get_scanner_for_file("lib/util.py"), Some(Language::Python));
    assert_eq!(registry.get_scanner_for_file("main.go"), Some(Language::Go));
    assert_eq!(registry.get_scanner_for_file("notes.txt"), None);
    assert_eq!(registry.get_scanner_for_file(".env"), None);
    assert_eq!(registry.get_scanner_for_file("Makefile"), None);
}

#[test]
fn language_for_file_distinguishes_typescript() {
    assert_eq!(get_language_for_file("a.ts"), Some(Language::TypeScript));
    assert_eq!(get_language_for_file("a.js"), Some(Language::JavaScript));
    assert_eq!(get_language_for_file("a.rb"), Some(Language::Ruby));
    assert_eq!(get_language_for_file("a"), None);
}

#[test]
fn language_metadata() {
    assert_eq!(Language::Php.display_name(), "PHP");
    assert_eq!(Language::CSharp.display_name(), "C#");
    assert_eq!(Language::TypeScript.extensions(), vec!["ts", "mts", "cts", "tsx"]);
    assert_eq!(Language::Rust.extensions(), vec!["rs"]);
}
