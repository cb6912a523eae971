//! Scanner for PHP files: `getenv` calls, `$_ENV` and `$_SERVER` subscripts,
//! and the framework `env()` helper.

use vstd::prelude::*;

use super::LanguageScanner;
use crate::pattern::{idiom_usages, scan_text, Idiom, IdiomView, Quotes, Shape};
use crate::types::{EnvVarUsage, Language, UsageView};

verus! {

/// The environment-access idioms of PHP. The bare `env` helper call must
/// start at a word boundary; `getenv` is recognized even as the tail of a
/// longer identifier, since such wrappers usually read the variable they
/// name.
pub open spec fn php_idioms() -> Seq<IdiomView> {
    seq![
        IdiomView { prefix: "getenv"@, shape: Shape::Call(Quotes::Any), boundary: false },
        IdiomView { prefix: "$_ENV["@, shape: Shape::Bracket(Quotes::Any), boundary: false },
        IdiomView { prefix: "$_SERVER["@, shape: Shape::Bracket(Quotes::Any), boundary: false },
        IdiomView { prefix: "env"@, shape: Shape::Call(Quotes::Any), boundary: true },
    ]
}

fn php_idiom_list() -> (v: Vec<Idiom>)
    ensures
        v.deep_view() == php_idioms(),
{
    let v: Vec<Idiom> = vec![
        Idiom { prefix: "getenv", shape: Shape::Call(Quotes::Any), boundary: false },
        Idiom { prefix: "$_ENV[", shape: Shape::Bracket(Quotes::Any), boundary: false },
        Idiom { prefix: "$_SERVER[", shape: Shape::Bracket(Quotes::Any), boundary: false },
        Idiom { prefix: "env", shape: Shape::Call(Quotes::Any), boundary: true },
    ];
    proof {
        assert(v.deep_view() =~= php_idioms());
    }
    v
}

/// Scanner for PHP files.
#[derive(Debug, Clone, Copy)]
pub struct PhpScanner;

impl PhpScanner {
    pub fn new() -> (s: Self) {
        PhpScanner
    }
}

impl Default for PhpScanner {
    fn default() -> (s: Self) {
        PhpScanner
    }
}

impl LanguageScanner for PhpScanner {
    open spec fn scanner_language(&self) -> Language {
        Language::Php
    }

    open spec fn scanner_extensions(&self) -> Seq<Seq<char>> {
        crate::types::spec_extensions(Language::Php)
    }

    open spec fn scanner_usages(&self, text: Seq<char>, path: Seq<char>) -> Seq<UsageView> {
        idiom_usages(text, php_idioms(), path, Language::Php)
    }

    fn language(&self) -> (l: Language) {
        Language::Php
    }

    fn extensions(&self) -> (r: Vec<&'static str>) {
        Language::Php.extensions()
    }

    fn scan(&self, content: &str, file_path: &str) -> (us: Vec<EnvVarUsage>) {
        let idioms = php_idiom_list();
        scan_text(content, file_path, &idioms, Language::Php)
    }
}

} // verus!
