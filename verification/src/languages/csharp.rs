//! Scanner for C# files: `Environment.GetEnvironmentVariable` calls and
//! `ConfigurationManager.AppSettings` subscripts.

use vstd::prelude::*;

use super::LanguageScanner;
use crate::pattern::{idiom_usages, scan_text, Idiom, IdiomView, Quotes, Shape};
use crate::types::{EnvVarUsage, Language, UsageView};

verus! {

/// The environment-access idioms of C#.
pub open spec fn csharp_idioms() -> Seq<IdiomView> {
    seq![
        IdiomView {
            prefix: "Environment.GetEnvironmentVariable"@,
            shape: Shape::Call(Quotes::Double),
            boundary: false,
        },
        IdiomView {
            prefix: "ConfigurationManager.AppSettings["@,
            shape: Shape::Bracket(Quotes::Any),
            boundary: false,
        },
    ]
}

fn csharp_idiom_list() -> (v: Vec<Idiom>)
    ensures
        v.deep_view() == csharp_idioms(),
{
    let v: Vec<Idiom> = vec![
        Idiom {
            prefix: "Environment.GetEnvironmentVariable",
            shape: Shape::Call(Quotes::Double),
            boundary: false,
        },
        Idiom {
            prefix: "ConfigurationManager.AppSettings[",
            shape: Shape::Bracket(Quotes::Any),
            boundary: false,
        },
    ];
    proof {
        assert(v.deep_view() =~= csharp_idioms());
    }
    v
}

/// Scanner for C# files.
#[derive(Debug, Clone, Copy)]
pub struct CSharpScanner;

impl CSharpScanner {
    pub fn new() -> (s: Self) {
        CSharpScanner
    }
}

impl Default for CSharpScanner {
    fn default() -> (s: Self) {
        CSharpScanner
    }
}

impl LanguageScanner for CSharpScanner {
    open spec fn scanner_language(&self) -> Language {
        Language::CSharp
    }

    open spec fn scanner_extensions(&self) -> Seq<Seq<char>> {
        crate::types::spec_extensions(Language::CSharp)
    }

    open spec fn scanner_usages(&self, text: Seq<char>, path: Seq<char>) -> Seq<UsageView> {
        idiom_usages(text, csharp_idioms(), path, Language::CSharp)
    }

    fn language(&self) -> (l: Language) {
        Language::CSharp
    }

    fn extensions(&self) -> (r: Vec<&'static str>) {
        Language::CSharp.extensions()
    }

    fn scan(&self, content: &str, file_path: &str) -> (us: Vec<EnvVarUsage>) {
        let idioms = csharp_idiom_list();
        scan_text(content, file_path, &idioms, Language::CSharp)
    }
}

} // verus!
