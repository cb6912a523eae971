//! Scanner for Go files: `os.Getenv`, `os.LookupEnv`, and `os.Setenv` calls
//! with a double-quoted name.

use vstd::prelude::*;

use super::LanguageScanner;
use crate::pattern::{idiom_usages, scan_text, Idiom, IdiomView, Quotes, Shape};
use crate::types::{EnvVarUsage, Language, UsageView};

verus! {

/// The environment-access idioms of Go.
pub open spec fn go_idioms() -> Seq<IdiomView> {
    seq![
        IdiomView { prefix: "os.Getenv"@, shape: Shape::Call(Quotes::Double), boundary: false },
        IdiomView { prefix: "os.LookupEnv"@, shape: Shape::Call(Quotes::Double), boundary: false },
        IdiomView { prefix: "os.Setenv"@, shape: Shape::Call(Quotes::Double), boundary: false },
    ]
}

fn go_idiom_list() -> (v: Vec<Idiom>)
    ensures
        v.deep_view() == go_idioms(),
{
    let v: Vec<Idiom> = vec![
        Idiom { prefix: "os.Getenv", shape: Shape::Call(Quotes::Double), boundary: false },
        Idiom { prefix: "os.LookupEnv", shape: Shape::Call(Quotes::Double), boundary: false },
        Idiom { prefix: "os.Setenv", shape: Shape::Call(Quotes::Double), boundary: false },
    ];
    proof {
        assert(v.deep_view() =~= go_idioms());
    }
    v
}

/// Scanner for Go files.
#[derive(Debug, Clone, Copy)]
pub struct GoScanner;

impl GoScanner {
    pub fn new() -> (s: Self) {
        GoScanner
    }
}

impl Default for GoScanner {
    fn default() -> (s: Self) {
        GoScanner
    }
}

impl LanguageScanner for GoScanner {
    open spec fn scanner_language(&self) -> Language {
        Language::Go
    }

    open spec fn scanner_extensions(&self) -> Seq<Seq<char>> {
        crate::types::spec_extensions(Language::Go)
    }

    open spec fn scanner_usages(&self, text: Seq<char>, path: Seq<char>) -> Seq<UsageView> {
        idiom_usages(text, go_idioms(), path, Language::Go)
    }

    fn language(&self) -> (l: Language) {
        Language::Go
    }

    fn extensions(&self) -> (r: Vec<&'static str>) {
        Language::Go.extensions()
    }

    fn scan(&self, content: &str, file_path: &str) -> (us: Vec<EnvVarUsage>) {
        let idioms = go_idiom_list();
        scan_text(content, file_path, &idioms, Language::Go)
    }
}

} // verus!
