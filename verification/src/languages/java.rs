//! Scanner for Java files: `System.getenv` and `System.getProperty` calls
//! with a double-quoted name.

use vstd::prelude::*;

use super::LanguageScanner;
use crate::pattern::{idiom_usages, scan_text, Idiom, IdiomView, Quotes, Shape};
use crate::types::{EnvVarUsage, Language, UsageView};

verus! {

/// The environment-access idioms of Java.
pub open spec fn java_idioms() -> Seq<IdiomView> {
    seq![
        IdiomView { prefix: "System.getenv"@, shape: Shape::Call(Quotes::Double), boundary: false },
        IdiomView {
            prefix: "System.getProperty"@,
            shape: Shape::Call(Quotes::Double),
            boundary: false,
        },
    ]
}

fn java_idiom_list() -> (v: Vec<Idiom>)
    ensures
        v.deep_view() == java_idioms(),
{
    let v: Vec<Idiom> = vec![
        Idiom { prefix: "System.getenv", shape: Shape::Call(Quotes::Double), boundary: false },
        Idiom { prefix: "System.getProperty", shape: Shape::Call(Quotes::Double), boundary: false },
    ];
    proof {
        assert(v.deep_view() =~= java_idioms());
    }
    v
}

/// Scanner for Java files.
#[derive(Debug, Clone, Copy)]
pub struct JavaScanner;

impl JavaScanner {
    pub fn new() -> (s: Self) {
        JavaScanner
    }
}

impl Default for JavaScanner {
    fn default() -> (s: Self) {
        JavaScanner
    }
}

impl LanguageScanner for JavaScanner {
    open spec fn scanner_language(&self) -> Language {
        Language::Java
    }

    open spec fn scanner_extensions(&self) -> Seq<Seq<char>> {
        crate::types::spec_extensions(Language::Java)
    }

    open spec fn scanner_usages(&self, text: Seq<char>, path: Seq<char>) -> Seq<UsageView> {
        idiom_usages(text, java_idioms(), path, Language::Java)
    }

    fn language(&self) -> (l: Language) {
        Language::Java
    }

    fn extensions(&self) -> (r: Vec<&'static str>) {
        Language::Java.extensions()
    }

    fn scan(&self, content: &str, file_path: &str) -> (us: Vec<EnvVarUsage>) {
        let idioms = java_idiom_list();
        scan_text(content, file_path, &idioms, Language::Java)
    }
}

} // verus!
