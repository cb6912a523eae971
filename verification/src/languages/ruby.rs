//! Scanner for Ruby files: `ENV[...]` subscripts and `ENV.fetch` calls.

use vstd::prelude::*;

use super::LanguageScanner;
use crate::pattern::{idiom_usages, scan_text, Idiom, IdiomView, Quotes, Shape};
use crate::types::{EnvVarUsage, Language, UsageView};

verus! {

/// The environment-access idioms of Ruby.
pub open spec fn ruby_idioms() -> Seq<IdiomView> {
    seq![
        IdiomView { prefix: "ENV["@, shape: Shape::Bracket(Quotes::Any), boundary: false },
        IdiomView { prefix: "ENV.fetch"@, shape: Shape::Call(Quotes::Any), boundary: false },
    ]
}

fn ruby_idiom_list() -> (v: Vec<Idiom>)
    ensures
        v.deep_view() == ruby_idioms(),
{
    let v: Vec<Idiom> = vec![
        Idiom { prefix: "ENV[", shape: Shape::Bracket(Quotes::Any), boundary: false },
        Idiom { prefix: "ENV.fetch", shape: Shape::Call(Quotes::Any), boundary: false },
    ];
    proof {
        assert(v.deep_view() =~= ruby_idioms());
    }
    v
}

/// Scanner for Ruby files.
#[derive(Debug, Clone, Copy)]
pub struct RubyScanner;

impl RubyScanner {
    pub fn new() -> (s: Self) {
        RubyScanner
    }
}

impl Default for RubyScanner {
    fn default() -> (s: Self) {
        RubyScanner
    }
}

impl LanguageScanner for RubyScanner {
    open spec fn scanner_language(&self) -> Language {
        Language::Ruby
    }

    open spec fn scanner_extensions(&self) -> Seq<Seq<char>> {
        crate::types::spec_extensions(Language::Ruby)
    }

    open spec fn scanner_usages(&self, text: Seq<char>, path: Seq<char>) -> Seq<UsageView> {
        idiom_usages(text, ruby_idioms(), path, Language::Ruby)
    }

    fn language(&self) -> (l: Language) {
        Language::Ruby
    }

    fn extensions(&self) -> (r: Vec<&'static str>) {
        Language::Ruby.extensions()
    }

    fn scan(&self, content: &str, file_path: &str) -> (us: Vec<EnvVarUsage>) {
        let idioms = ruby_idiom_list();
        scan_text(content, file_path, &idioms, Language::Ruby)
    }
}

} // verus!
