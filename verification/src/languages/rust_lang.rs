//! Scanner for Rust files: `env::var` and `env::var_os` calls (with or
//! without a `std::` prefix) and the `env!`/`option_env!` macros.

use vstd::prelude::*;

use super::LanguageScanner;
use crate::pattern::{idiom_usages, scan_text, Idiom, IdiomView, Quotes, Shape};
use crate::types::{EnvVarUsage, Language, UsageView};

verus! {

/// The environment-access idioms of Rust. `env::var` also matches inside
/// `std::env::var`, and `env!` inside `option_env!`, at the same name
/// position, so each such call yields a single usage.
pub open spec fn rust_idioms() -> Seq<IdiomView> {
    seq![
        IdiomView { prefix: "env::var"@, shape: Shape::Call(Quotes::Double), boundary: false },
        IdiomView { prefix: "env::var_os"@, shape: Shape::Call(Quotes::Double), boundary: false },
        IdiomView { prefix: "env!"@, shape: Shape::Call(Quotes::Double), boundary: false },
        IdiomView { prefix: "option_env!"@, shape: Shape::Call(Quotes::Double), boundary: false },
    ]
}

fn rust_idiom_list() -> (v: Vec<Idiom>)
    ensures
        v.deep_view() == rust_idioms(),
{
    let v: Vec<Idiom> = vec![
        Idiom { prefix: "env::var", shape: Shape::Call(Quotes::Double), boundary: false },
        Idiom { prefix: "env::var_os", shape: Shape::Call(Quotes::Double), boundary: false },
        Idiom { prefix: "env!", shape: Shape::Call(Quotes::Double), boundary: false },
        Idiom { prefix: "option_env!", shape: Shape::Call(Quotes::Double), boundary: false },
    ];
    proof {
        assert(v.deep_view() =~= rust_idioms());
    }
    v
}

/// Scanner for Rust files.
#[derive(Debug, Clone, Copy)]
pub struct RustScanner;

impl RustScanner {
    pub fn new() -> (s: Self) {
        RustScanner
    }
}

impl Default for RustScanner {
    fn default() -> (s: Self) {
        RustScanner
    }
}

impl LanguageScanner for RustScanner {
    open spec fn scanner_language(&self) -> Language {
        Language::Rust
    }

    open spec fn scanner_extensions(&self) -> Seq<Seq<char>> {
        crate::types::spec_extensions(Language::Rust)
    }

    open spec fn scanner_usages(&self, text: Seq<char>, path: Seq<char>) -> Seq<UsageView> {
        idiom_usages(text, rust_idioms(), path, Language::Rust)
    }

    fn language(&self) -> (l: Language) {
        Language::Rust
    }

    fn extensions(&self) -> (r: Vec<&'static str>) {
        Language::Rust.extensions()
    }

    fn scan(&self, content: &str, file_path: &str) -> (us: Vec<EnvVarUsage>) {
        let idioms = rust_idiom_list();
        scan_text(content, file_path, &idioms, Language::Rust)
    }
}

} // verus!
