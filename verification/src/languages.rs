//! Per-language usage extractors and the registry that maps a file's
//! extension to the scanner that claims it.

pub mod csharp;
pub mod go;
pub mod java;
pub mod javascript;
pub mod php;
pub mod python;
pub mod ruby;
pub mod rust_lang;

use vstd::prelude::*;

use crate::pattern::idiom_usages;
use crate::text::{chars_eq_str, lower_seq, rfind, rfind_at, to_char_vec, to_lower_vec};
use crate::types::{EnvVarUsage, Language, UsageView};

verus! {

/// One language's usage extractor: a pure function from source text to usage
/// facts, plus the extensions it claims.
pub trait LanguageScanner {
    /// The language this scanner handles.
    spec fn scanner_language(&self) -> Language;

    /// The extensions this scanner claims.
    spec fn scanner_extensions(&self) -> Seq<Seq<char>>;

    /// The usages this scanner extracts from `text` attributed to `path`.
    spec fn scanner_usages(&self, text: Seq<char>, path: Seq<char>) -> Seq<UsageView>;

    /// Returns the language this scanner handles.
    fn language(&self) -> (l: Language)
        ensures
            l == self.scanner_language(),
    ;

    /// Returns the file extensions this scanner handles.
    fn extensions(&self) -> (r: Vec<&'static str>)
        ensures
            r.deep_view() == self.scanner_extensions(),
    ;

    /// Scans source text for environment-variable usages.
    fn scan(&self, content: &str, file_path: &str) -> (us: Vec<EnvVarUsage>)
        ensures
            us.deep_view() == self.scanner_usages(content@, file_path@),
    ;
}

/// The usages that the scanner registered for `lang` extracts. The
/// JavaScript scanner also serves TypeScript and always attributes usages to
/// JavaScript.
pub open spec fn language_usages(lang: Language, text: Seq<char>, path: Seq<char>) -> Seq<
    UsageView,
> {
    match lang {
        Language::JavaScript => javascript::js_usages(text, path),
        Language::TypeScript => javascript::js_usages(text, path),
        Language::Python => idiom_usages(text, python::python_idioms(), path, Language::Python),
        Language::Rust => idiom_usages(text, rust_lang::rust_idioms(), path, Language::Rust),
        Language::Go => idiom_usages(text, go::go_idioms(), path, Language::Go),
        Language::Ruby => idiom_usages(text, ruby::ruby_idioms(), path, Language::Ruby),
        Language::Php => idiom_usages(text, php::php_idioms(), path, Language::Php),
        Language::Java => idiom_usages(text, java::java_idioms(), path, Language::Java),
        Language::CSharp => idiom_usages(text, csharp::csharp_idioms(), path, Language::CSharp),
    }
}

/// Scans `content` with the scanner registered for `lang`.
pub fn scan_with_language(lang: Language, content: &str, file_path: &str) -> (us: Vec<EnvVarUsage>)
    ensures
        us.deep_view() == language_usages(lang, content@, file_path@),
{
    match lang {
        Language::JavaScript => javascript::JavaScriptScanner::new().scan(content, file_path),
        Language::TypeScript => javascript::JavaScriptScanner::new().scan(content, file_path),
        Language::Python => python::PythonScanner::new().scan(content, file_path),
        Language::Rust => rust_lang::RustScanner::new().scan(content, file_path),
        Language::Go => go::GoScanner::new().scan(content, file_path),
        Language::Ruby => ruby::RubyScanner::new().scan(content, file_path),
        Language::Php => php::PhpScanner::new().scan(content, file_path),
        Language::Java => java::JavaScanner::new().scan(content, file_path),
        Language::CSharp => csharp::CSharpScanner::new().scan(content, file_path),
    }
}

/// The extension of a path, as `Path::extension` sees it: the portion of the
/// final component after its last `.`, unless the component has no `.` or
/// only a leading one.
pub open spec fn ext_of(path: Seq<char>) -> Option<Seq<char>> {
    let fname = path.subrange(rfind(path, '/') + 1, path.len() as int);
    let dot = rfind(fname, '.');
    if dot <= 0 {
        None
    } else {
        Some(fname.subrange(dot + 1, fname.len() as int))
    }
}

/// Extracts the extension of `path`, lowercased.
pub fn ext_of_path(path: &str) -> (r: Option<Vec<char>>)
    ensures
        r matches Some(e) ==> ext_of(path@) matches Some(x) && e@ == lower_seq(x),
        r is None ==> ext_of(path@) is None,
{
    let chars = to_char_vec(path);
    proof {
        crate::text::lemma_rfind(chars@, '/');
    }
    let start = match rfind_at(&chars, '/') {
        Some(i) => i + 1,
        None => 0,
    };
    let fname = crate::text::vec_range(&chars, start, chars.len());
    proof {
        assert(fname@ =~= path@.subrange(rfind(path@, '/') + 1, path@.len() as int));
        crate::text::lemma_rfind(fname@, '.');
    }
    match rfind_at(&fname, '.') {
        Some(dot) => {
            if dot == 0 {
                None
            } else {
                let ext = crate::text::vec_range(&fname, dot + 1, fname.len());
                proof {
                    assert(ext@ =~= fname@.subrange(rfind(fname@, '.') + 1, fname@.len() as int));
                }
                Some(to_lower_vec(&ext))
            }
        },
        None => None,
    }
}

/// The registration order of the scanners; the first scanner claiming an
/// extension wins.
pub open spec fn registry_order() -> Seq<Language> {
    seq![
        Language::JavaScript,
        Language::Python,
        Language::Rust,
        Language::Go,
        Language::Ruby,
        Language::Php,
        Language::Java,
        Language::CSharp,
    ]
}

/// The extensions the scanner registered for `lang` claims.
pub open spec fn registered_extensions(lang: Language) -> Seq<Seq<char>> {
    match lang {
        Language::JavaScript => seq![
            "js"@,
            "mjs"@,
            "cjs"@,
            "jsx"@,
            "ts"@,
            "mts"@,
            "cts"@,
            "tsx"@,
        ],
        _ => crate::types::spec_extensions(lang),
    }
}

/// The first language in `langs` whose scanner claims `ext`.
pub open spec fn first_claiming(langs: Seq<Language>, ext: Seq<char>) -> Option<Language>
    decreases langs.len(),
{
    if langs.len() == 0 {
        None
    } else if registered_extensions(langs[0]).contains(ext) {
        Some(langs[0])
    } else {
        first_claiming(langs.skip(1), ext)
    }
}

/// The scanner that a file dispatches to, by its lowercased extension.
pub open spec fn scanner_for(path: Seq<char>) -> Option<Language> {
    match ext_of(path) {
        None => None,
        Some(e) => first_claiming(registry_order(), lower_seq(e)),
    }
}

/// Registry of all language scanners, in registration order.
pub struct LanguageRegistry {
    languages: Vec<Language>,
}

/// Whether `exts` (a scanner's extension list) claims `ext`.
fn claims(exts: &Vec<&'static str>, ext: &Vec<char>) -> (b: bool)
    ensures
        b == exts.deep_view().contains(ext@),
{
    let mut i: usize = 0;
    while i < exts.len()
        invariant
            i <= exts@.len(),
            exts.deep_view().len() == exts@.len(),
            forall|j: int| 0 <= j < i ==> exts.deep_view()[j] != ext@,
        decreases exts@.len() - i,
    {
        proof {
            assert(exts.deep_view()[i as int] == exts@[i as int]@);
        }
        if chars_eq_str(ext, exts[i]) {
            return true;
        }
        i = i + 1;
    }
    proof {
        if exts.deep_view().contains(ext@) {
            let j = choose|j: int| 0 <= j < exts.deep_view().len() && exts.deep_view()[j] == ext@;
        }
    }
    false
}

/// The extension list that the registry holds for `lang`.
fn extensions_for(lang: Language) -> (r: Vec<&'static str>)
    ensures
        r.deep_view() == registered_extensions(lang),
{
    match lang {
        Language::JavaScript => {
            let r: Vec<&'static str> = vec!["js", "mjs", "cjs", "jsx", "ts", "mts", "cts", "tsx"];
            proof {
                assert(r.deep_view() =~= registered_extensions(lang));
            }
            r
        },
        _ => {
            let r = lang.extensions();
            proof {
                assert(r.deep_view() =~= registered_extensions(lang));
            }
            r
        },
    }
}

impl LanguageRegistry {
    /// The languages this registry holds, in registration order.
    pub closed spec fn spec_order(&self) -> Seq<Language> {
        self.languages@
    }

    /// A registry holding every scanner, in registration order.
    pub fn new() -> (r: Self)
        ensures
            r.spec_order() == registry_order(),
    {
        let languages: Vec<Language> = vec![
            Language::JavaScript,
            Language::Python,
            Language::Rust,
            Language::Go,
            Language::Ruby,
            Language::Php,
            Language::Java,
            Language::CSharp,
        ];
        proof {
            assert(languages@ =~= registry_order());
        }
        LanguageRegistry { languages }
    }

    /// The scanner for a file, chosen by its lowercased extension; the first
    /// registered scanner claiming the extension wins.
    pub fn get_scanner_for_file(&self, path: &str) -> (r: Option<Language>)
        requires
            self.spec_order() == registry_order(),
        ensures
            r == scanner_for(path@),
    {
        let ext = match ext_of_path(path) {
            Some(e) => e,
            None => {
                return None;
            },
        };
        let mut i: usize = 0;
        proof {
            assert(registry_order().skip(0) =~= registry_order());
        }
        while i < self.languages.len()
            invariant
                self.languages@ == registry_order(),
                i <= self.languages@.len(),
                ext_of(path@) matches Some(x) && ext@ == lower_seq(x),
                first_claiming(registry_order(), ext@) == first_claiming(
                    registry_order().skip(i as int),
                    ext@,
                ),
            decreases self.languages@.len() - i,
        {
            let lang = self.languages[i];
            let exts = extensions_for(lang);
            if claims(&exts, &ext) {
                proof {
                    assert(registry_order().skip(i as int)[0] == lang);
                }
                return Some(lang);
            }
            proof {
                assert(registry_order().skip(i as int)[0] == lang);
                assert(registry_order().skip(i as int).skip(1) =~= registry_order().skip(i + 1));
            }
            i = i + 1;
        }
        proof {
            assert(registry_order().skip(i as int).len() == 0);
        }
        None
    }
}

impl Default for LanguageRegistry {
    /// A registry holding every scanner.
    fn default() -> (r: Self)
        ensures
            r.spec_order() == registry_order(),
    {
        LanguageRegistry::new()
    }
}

/// The language associated with a file by its extension, over every language
/// including TypeScript.
pub open spec fn language_of_file(path: Seq<char>) -> Option<Language> {
    match ext_of(path) {
        None => None,
        Some(e) => first_owning(all_languages_order(), lower_seq(e)),
    }
}

pub open spec fn all_languages_order() -> Seq<Language> {
    seq![
        Language::JavaScript,
        Language::TypeScript,
        Language::Python,
        Language::Rust,
        Language::Go,
        Language::Ruby,
        Language::Php,
        Language::Java,
        Language::CSharp,
    ]
}

/// The first language in `langs` whose own extension list contains `ext`.
pub open spec fn first_owning(langs: Seq<Language>, ext: Seq<char>) -> Option<Language>
    decreases langs.len(),
{
    if langs.len() == 0 {
        None
    } else if crate::types::spec_extensions(langs[0]).contains(ext) {
        Some(langs[0])
    } else {
        first_owning(langs.skip(1), ext)
    }
}

/// Get the language for a file based on its extension.
pub fn get_language_for_file(path: &str) -> (r: Option<Language>)
    ensures
        r == language_of_file(path@),
{
    let ext = match ext_of_path(path) {
        Some(e) => e,
        None => {
            return None;
        },
    };
    let langs: Vec<Language> = vec![
        Language::JavaScript,
        Language::TypeScript,
        Language::Python,
        Language::Rust,
        Language::Go,
        Language::Ruby,
        Language::Php,
        Language::Java,
        Language::CSharp,
    ];
    proof {
        assert(langs@ =~= all_languages_order());
    }
    let mut i: usize = 0;
    proof {
        assert(all_languages_order().skip(0) =~= all_languages_order());
    }
    while i < langs.len()
        invariant
            langs@ == all_languages_order(),
            i <= langs@.len(),
            ext_of(path@) matches Some(x) && ext@ == lower_seq(x),
            first_owning(all_languages_order(), ext@) == first_owning(
                all_languages_order().skip(i as int),
                ext@,
            ),
        decreases langs@.len() - i,
    {
        let lang = langs[i];
        let exts = lang.extensions();
        if claims(&exts, &ext) {
            proof {
                assert(all_languages_order().skip(i as int)[0] == lang);
            }
            return Some(lang);
        }
        proof {
            assert(all_languages_order().skip(i as int)[0] == lang);
            assert(all_languages_order().skip(i as int).skip(1) =~= all_languages_order().skip(
                i + 1,
            ));
        }
        i = i + 1;
    }
    proof {
        assert(all_languages_order().skip(i as int).len() == 0);
    }
    None
}

} // verus!
