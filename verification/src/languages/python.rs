//! Scanner for Python files: `os.environ` subscripts and `get` calls,
//! `os.getenv`, and the bare `environ`/`getenv` forms used after
//! `from os import ...`.

use vstd::prelude::*;

use super::LanguageScanner;
use crate::pattern::{idiom_usages, scan_text, Idiom, IdiomView, Quotes, Shape};
use crate::types::{EnvVarUsage, Language, UsageView};

verus! {

/// The environment-access idioms of Python. The bare `environ` and `getenv`
/// forms must start at a word boundary; a qualified access such as
/// `os.environ[...]` also matches the bare form at the same name position and
/// yields a single usage.
pub open spec fn python_idioms() -> Seq<IdiomView> {
    seq![
        IdiomView { prefix: "os.environ["@, shape: Shape::Bracket(Quotes::Any), boundary: false },
        IdiomView { prefix: "os.environ.get"@, shape: Shape::Call(Quotes::Any), boundary: false },
        IdiomView { prefix: "os.getenv"@, shape: Shape::Call(Quotes::Any), boundary: false },
        IdiomView { prefix: "environ["@, shape: Shape::Bracket(Quotes::Any), boundary: true },
        IdiomView { prefix: "environ.get"@, shape: Shape::Call(Quotes::Any), boundary: true },
        IdiomView { prefix: "getenv"@, shape: Shape::Call(Quotes::Any), boundary: true },
    ]
}

fn python_idiom_list() -> (v: Vec<Idiom>)
    ensures
        v.deep_view() == python_idioms(),
{
    let v: Vec<Idiom> = vec![
        Idiom { prefix: "os.environ[", shape: Shape::Bracket(Quotes::Any), boundary: false },
        Idiom { prefix: "os.environ.get", shape: Shape::Call(Quotes::Any), boundary: false },
        Idiom { prefix: "os.getenv", shape: Shape::Call(Quotes::Any), boundary: false },
        Idiom { prefix: "environ[", shape: Shape::Bracket(Quotes::Any), boundary: true },
        Idiom { prefix: "environ.get", shape: Shape::Call(Quotes::Any), boundary: true },
        Idiom { prefix: "getenv", shape: Shape::Call(Quotes::Any), boundary: true },
    ];
    proof {
        assert(v.deep_view() =~= python_idioms());
    }
    v
}

/// Scanner for Python files.
#[derive(Debug, Clone, Copy)]
pub struct PythonScanner;

impl PythonScanner {
    pub fn new() -> (s: Self) {
        PythonScanner
    }
}

impl Default for PythonScanner {
    fn default() -> (s: Self) {
        PythonScanner
    }
}

impl LanguageScanner for PythonScanner {
    open spec fn scanner_language(&self) -> Language {
        Language::Python
    }

    open spec fn scanner_extensions(&self) -> Seq<Seq<char>> {
        crate::types::spec_extensions(Language::Python)
    }

    open spec fn scanner_usages(&self, text: Seq<char>, path: Seq<char>) -> Seq<UsageView> {
        idiom_usages(text, python_idioms(), path, Language::Python)
    }

    fn language(&self) -> (l: Language) {
        Language::Python
    }

    fn extensions(&self) -> (r: Vec<&'static str>) {
        Language::Python.extensions()
    }

    fn scan(&self, content: &str, file_path: &str) -> (us: Vec<EnvVarUsage>) {
        let idioms = python_idiom_list();
        scan_text(content, file_path, &idioms, Language::Python)
    }
}

} // verus!
