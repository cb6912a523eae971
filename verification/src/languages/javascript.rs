//! Scanner for JavaScript and TypeScript files: `process.env` property and
//! subscript access, `import.meta.env` property access, and multi-name
//! destructuring of `process.env`.

use vstd::prelude::*;

use super::LanguageScanner;
use crate::pattern::{line_usages_from, scan_line, Idiom, IdiomView, Quotes, Shape};
use crate::text::{
    find_from, find_from_at, is_canonical_name, is_name_char, lemma_find_from, lemma_ws_run_end,
    lemma_ws_run_end_bound, lines_of, lit_at, lit_at_pos, name_char, name_start_char, split_lines,
    string_from_range, to_char_vec, trim_range, trim_to_string, trimmed, vec_range, ws_run_end,
    ws_run_end_at,
};
use crate::types::{EnvVarUsage, Language, UsageView};

verus! {

/// The single-name environment-access idioms of JavaScript and TypeScript.
pub open spec fn js_idioms() -> Seq<IdiomView> {
    seq![
        IdiomView { prefix: "process.env."@, shape: Shape::Direct, boundary: false },
        IdiomView { prefix: "process.env["@, shape: Shape::Bracket(Quotes::Any), boundary: false },
        IdiomView { prefix: "import.meta.env."@, shape: Shape::Direct, boundary: false },
    ]
}

fn js_idiom_list() -> (v: Vec<Idiom>)
    ensures
        v.deep_view() == js_idioms(),
{
    let v: Vec<Idiom> = vec![
        Idiom { prefix: "process.env.", shape: Shape::Direct, boundary: false },
        Idiom { prefix: "process.env[", shape: Shape::Bracket(Quotes::Any), boundary: false },
        Idiom { prefix: "import.meta.env.", shape: Shape::Direct, boundary: false },
    ];
    proof {
        assert(v.deep_view() =~= js_idioms());
    }
    v
}

/// The length of the declaration keyword at `d`: `const`, `let`, or `var`,
/// else zero.
pub open spec fn kw_len_at(line: Seq<char>, d: int) -> int {
    if lit_at(line, d, "const"@) {
        5
    } else if lit_at(line, d, "let"@) {
        3
    } else if lit_at(line, d, "var"@) {
        3
    } else {
        0
    }
}

fn kw_len(line: &Vec<char>, d: usize) -> (k: usize)
    ensures
        k == kw_len_at(line@, d as int),
        k > 0 ==> d + k <= line@.len(),
{
    if lit_at_pos(line, d, "const") {
        proof {
            reveal_strlit("const");
        }
        5
    } else if lit_at_pos(line, d, "let") {
        proof {
            reveal_strlit("let");
        }
        3
    } else if lit_at_pos(line, d, "var") {
        proof {
            reveal_strlit("var");
        }
        3
    } else {
        0
    }
}

/// The destructuring match at `d`, as `(matched, capture start, capture end,
/// match end)`: a declaration keyword, whitespace, `{`, a non-empty brace
/// body, `}`, whitespace, `=`, whitespace, and the literal `process.env`.
/// The capture spans the brace body from its first non-whitespace character
/// to the closing brace.
pub open spec fn destr_at(line: Seq<char>, d: int) -> (bool, int, int, int) {
    let k = kw_len_at(line, d);
    let w = ws_run_end(line, d + k);
    let b = find_from(line, '}', w + 1);
    let cs = ws_run_end(line, w + 1);
    let e1 = ws_run_end(line, b + 1);
    let e2 = ws_run_end(line, e1 + 1);
    let ok = {
        &&& k > 0
        &&& w < line.len()
        &&& line[w] == '{'
        &&& b < line.len()
        &&& b > w + 1
        &&& e1 < line.len()
        &&& line[e1] == '='
        &&& lit_at(line, e2, "process.env"@)
    };
    (ok, cs, b, e2 + "process.env"@.len())
}

/// Decides `destr_at` and returns the capture bounds and the match end.
fn destr_try_at(line: &Vec<char>, d: usize) -> (r: Option<(usize, usize, usize)>)
    requires
        d < line@.len(),
    ensures
        r is Some <==> destr_at(line@, d as int).0,
        r matches Some(t) ==> {
            let m = destr_at(line@, d as int);
            &&& t.0 == m.1
            &&& t.1 == m.2
            &&& t.2 == m.3
            &&& t.0 <= t.1 < line@.len()
            &&& d < t.2 <= line@.len()
        },
{
    let ln = line.len();
    let k = kw_len(line, d);
    if k == 0 {
        return None;
    }
    let w = ws_run_end_at(line, d + k);
    if w >= ln || line[w] != '{' {
        return None;
    }
    let b = find_from_at(line, '}', w + 1);
    if b >= ln {
        return None;
    }
    if b < w + 2 {
        return None;
    }
    let cs = ws_run_end_at(line, w + 1);
    let e1 = ws_run_end_at(line, b + 1);
    if e1 >= ln || line[e1] != '=' {
        return None;
    }
    let e2 = ws_run_end_at(line, e1 + 1);
    if !lit_at_pos(line, e2, "process.env") {
        return None;
    }
    proof {
        reveal_strlit("process.env");
        assert(e2 + 11 <= line@.len());
        lemma_find_from(line@, '}', w + 1);
        lemma_ws_run_end_bound(line@, w + 1, b as int);
        assert(cs <= b);
    }
    Some((cs, b, e2 + 11))
}

/// The first occurrence of `c` in `[p, b)`, or `b`.
pub open spec fn bounded_find(line: Seq<char>, c: char, p: int, b: int) -> int {
    if find_from(line, c, p) < b {
        find_from(line, c, p)
    } else {
        b
    }
}

/// The names of the brace body `line[p..b]`: segments split at commas, each
/// truncated at its first colon and trimmed; only names of the canonical
/// shape are kept.
pub open spec fn destr_names_from(line: Seq<char>, p: int, b: int) -> Seq<Seq<char>>
    decreases b - p when 0 <= p <= b <= line.len() via destr_names_decreases
{
    if p >= b {
        Seq::empty()
    } else {
        let q = bounded_find(line, ',', p, b);
        let colon = bounded_find(line, ':', p, q);
        let nm = trimmed(line.subrange(p, colon));
        let head: Seq<Seq<char>> = if is_canonical_name(nm) {
            seq![nm]
        } else {
            Seq::empty()
        };
        if q < b {
            head + destr_names_from(line, q + 1, b)
        } else {
            head
        }
    }
}

#[via_fn]
proof fn destr_names_decreases(line: Seq<char>, p: int, b: int) {
    if 0 <= p <= b <= line.len() && p < b {
        lemma_find_from(line, ',', p);
    }
}

/// Checks the canonical environment-variable name shape.
fn canonical_name(v: &Vec<char>) -> (r: bool)
    ensures
        r == is_canonical_name(v@),
{
    if v.len() == 0 {
        return false;
    }
    if !name_start_char(v[0]) {
        return false;
    }
    let mut i: usize = 0;
    while i < v.len()
        invariant
            i <= v@.len(),
            forall|j: int| 0 <= j < i ==> is_name_char(#[trigger] v@[j]),
        decreases v@.len() - i,
    {
        if !name_char(v[i]) {
            return false;
        }
        i = i + 1;
    }
    true
}

/// Extracts the destructured names of the brace body `line[p0..b]`.
fn destr_names(line: &Vec<char>, p0: usize, b: usize) -> (names: Vec<String>)
    requires
        p0 <= b <= line@.len(),
    ensures
        names.deep_view() == destr_names_from(line@, p0 as int, b as int),
{
    let mut names: Vec<String> = Vec::new();
    let mut p = p0;
    proof {
        assert(names.deep_view() + destr_names_from(line@, p0 as int, b as int)
            =~= destr_names_from(line@, p0 as int, b as int));
    }
    while p < b
        invariant
            p0 <= p <= b <= line@.len(),
            names.deep_view() + destr_names_from(line@, p as int, b as int) == destr_names_from(
                line@,
                p0 as int,
                b as int,
            ),
        decreases b - p,
    {
        proof {
            lemma_find_from(line@, ',', p as int);
            lemma_find_from(line@, ':', p as int);
        }
        let q_raw = find_from_at(line, ',', p);
        let q = if q_raw < b {
            q_raw
        } else {
            b
        };
        let colon_raw = find_from_at(line, ':', p);
        let colon = if colon_raw < q {
            colon_raw
        } else {
            q
        };
        let seg = vec_range(line, p, colon);
        let (ta, tb) = trim_range(&seg);
        let nm = vec_range(&seg, ta, tb);
        proof {
            assert(nm@ == trimmed(line@.subrange(p as int, colon as int)));
        }
        let ghost prior = names.deep_view();
        if canonical_name(&nm) {
            let s = string_from_range(&nm, 0, nm.len());
            proof {
                assert(s@ =~= nm@);
            }
            names.push(s);
            proof {
                assert(names.deep_view() =~= prior.push(nm@));
            }
        }
        proof {
            let here = destr_names_from(line@, p as int, b as int);
            let head: Seq<Seq<char>> = if is_canonical_name(nm@) {
                seq![nm@]
            } else {
                Seq::empty()
            };
            if q < b {
                assert(here =~= head + destr_names_from(line@, q + 1, b as int));
                assert(names.deep_view() + destr_names_from(line@, q + 1, b as int)
                    =~= destr_names_from(line@, p0 as int, b as int));
            } else {
                assert(here =~= head);
                assert(destr_names_from(line@, b as int, b as int) =~= Seq::<Seq<char>>::empty());
                assert(names.deep_view() + destr_names_from(line@, b as int, b as int)
                    =~= destr_names_from(line@, p0 as int, b as int));
            }
        }
        if q < b {
            p = q + 1;
        } else {
            p = b;
        }
    }
    proof {
        assert(names.deep_view() =~= destr_names_from(line@, p0 as int, b as int));
    }
    names
}

/// The usage fact for one destructured name: all names of one statement share
/// the column of the capture start.
pub open spec fn destr_usage(
    line: Seq<char>,
    cs: int,
    nm: Seq<char>,
    lineno: int,
    path: Seq<char>,
) -> UsageView {
    UsageView {
        name: nm,
        file_path: path,
        line: lineno,
        column: cs + 1,
        language: Language::JavaScript,
        context: Some(trimmed(line)),
    }
}

/// The destructuring usages of one line, scanning left to right and resuming
/// after each match.
pub open spec fn destr_usages_from(line: Seq<char>, i: int, lineno: int, path: Seq<char>) -> Seq<
    UsageView,
>
    decreases line.len() - i when 0 <= i <= line.len() via destr_usages_decreases
{
    if i >= line.len() {
        Seq::empty()
    } else {
        let m = destr_at(line, i);
        if m.0 {
            destr_names_from(line, m.1, m.2).map_values(
                |nm: Seq<char>| destr_usage(line, m.1, nm, lineno, path),
            ) + destr_usages_from(line, m.3, lineno, path)
        } else {
            destr_usages_from(line, i + 1, lineno, path)
        }
    }
}

#[via_fn]
proof fn destr_usages_decreases(line: Seq<char>, i: int, lineno: int, path: Seq<char>) {
    if 0 <= i < line.len() {
        let m = destr_at(line, i);
        if m.0 {
            lemma_destr_at_bounds(line, i);
        }
    }
}

/// Bounds of a destructuring match: the match end lies strictly beyond `d`
/// and within the line, and the capture bounds are ordered.
proof fn lemma_destr_at_bounds(line: Seq<char>, d: int)
    requires
        0 <= d < line.len(),
        destr_at(line, d).0,
    ensures
        d < destr_at(line, d).3 <= line.len(),
        0 <= destr_at(line, d).1 <= destr_at(line, d).2 <= line.len(),
{
    let k = kw_len_at(line, d);
    reveal_strlit("process.env");
    reveal_strlit("const");
    reveal_strlit("let");
    reveal_strlit("var");
    if lit_at(line, d, "const"@) {
        assert(d + k <= line.len());
    } else if lit_at(line, d, "let"@) {
        assert(d + k <= line.len());
    } else if lit_at(line, d, "var"@) {
        assert(d + k <= line.len());
    }
    let w = ws_run_end(line, d + k);
    let b = find_from(line, '}', w + 1);
    let e1 = ws_run_end(line, b + 1);
    let e2 = ws_run_end(line, e1 + 1);
    lemma_ws_run_end(line, d + k);
    lemma_find_from(line, '}', w + 1);
    lemma_ws_run_end(line, b + 1);
    lemma_ws_run_end(line, e1 + 1);
    lemma_ws_run_end(line, w + 1);
    lemma_ws_run_end_bound(line, w + 1, b);
}

/// The usages extracted from one line of JavaScript or TypeScript: the
/// single-name idioms in column order, then the destructured names.
pub open spec fn js_line_usages(line: Seq<char>, lineno: int, path: Seq<char>) -> Seq<UsageView> {
    line_usages_from(line, js_idioms(), 0, lineno, path, Language::JavaScript)
        + destr_usages_from(line, 0, lineno, path)
}

/// The usages extracted from the lines of a text from index `i` on.
pub open spec fn js_text_from(lines: Seq<Seq<char>>, i: int, path: Seq<char>) -> Seq<UsageView>
    decreases lines.len() - i when 0 <= i <= lines.len()
{
    if i >= lines.len() {
        Seq::empty()
    } else {
        js_line_usages(lines[i], i + 1, path) + js_text_from(lines, i + 1, path)
    }
}

/// The usages that the JavaScript scanner extracts from a whole text.
pub open spec fn js_usages(text: Seq<char>, path: Seq<char>) -> Seq<UsageView> {
    js_text_from(lines_of(text), 0, path)
}

/// Appends the destructuring usages of one line to `us`.
fn destr_scan_line(line: &Vec<char>, lineno: usize, path: &str, us: &mut Vec<EnvVarUsage>)
    requires
        lineno >= 1,
    ensures
        final(us).deep_view() == old(us).deep_view() + destr_usages_from(
            line@,
            0,
            lineno as int,
            path@,
        ),
{
    let ghost base = old(us).deep_view();
    let ln = line.len();
    let mut i: usize = 0;
    while i < line.len()
        invariant
            ln == line@.len(),
            i <= line@.len(),
            lineno >= 1,
            us.deep_view() + destr_usages_from(line@, i as int, lineno as int, path@) == base
                + destr_usages_from(line@, 0, lineno as int, path@),
        decreases line@.len() - i,
    {
        match destr_try_at(line, i) {
            Some((cs, b, end)) => {
                proof {
                    lemma_destr_at_bounds(line@, i as int);
                }
                let names = destr_names(line, cs, b);
                let ghost nv = names.deep_view();
                let ghost mapped = nv.map_values(
                    |nm: Seq<char>| destr_usage(line@, cs as int, nm, lineno as int, path@),
                );
                let ghost before = us.deep_view();
                let mut j: usize = 0;
                while j < names.len()
                    invariant
                        ln == line@.len(),
                        cs < ln,
                        j <= names@.len(),
                        nv == names.deep_view(),
                        nv.len() == names@.len(),
                        mapped == nv.map_values(
                            |nm: Seq<char>| destr_usage(line@, cs as int, nm, lineno as int, path@),
                        ),
                        us.deep_view() == before + mapped.take(j as int),
                        lineno >= 1,
                    decreases names@.len() - j,
                {
                    let context = trim_to_string(line);
                    let u = EnvVarUsage {
                        name: names[j].clone(),
                        file_path: path.to_owned(),
                        line: lineno,
                        column: cs + 1,
                        language: Language::JavaScript,
                        context: Some(context),
                    };
                    proof {
                        assert(names@[j as int]@ == nv[j as int]);
                        assert(u@ == mapped[j as int]);
                    }
                    let ghost prior = us.deep_view();
                    us.push(u);
                    proof {
                        assert(us.deep_view() =~= prior.push(mapped[j as int]));
                        assert(mapped.take(j + 1) =~= mapped.take(j as int).push(
                            mapped[j as int],
                        ));
                    }
                    j = j + 1;
                }
                proof {
                    assert(mapped.take(nv.len() as int) =~= mapped);
                    assert(us.deep_view() =~= before + mapped);
                    assert(destr_usages_from(line@, i as int, lineno as int, path@) =~= mapped
                        + destr_usages_from(line@, end as int, lineno as int, path@));
                    assert(us.deep_view() + destr_usages_from(line@, end as int, lineno as int, path@)
                        =~= base + destr_usages_from(line@, 0, lineno as int, path@));
                }
                i = end;
            },
            None => {
                i = i + 1;
            },
        }
    }
    proof {
        assert(us.deep_view() =~= base + destr_usages_from(line@, 0, lineno as int, path@));
    }
}

/// Scanner for JavaScript and TypeScript files.
#[derive(Debug, Clone, Copy)]
pub struct JavaScriptScanner;

impl JavaScriptScanner {
    pub fn new() -> (s: Self) {
        JavaScriptScanner
    }
}

impl Default for JavaScriptScanner {
    fn default() -> (s: Self) {
        JavaScriptScanner
    }
}

impl LanguageScanner for JavaScriptScanner {
    open spec fn scanner_language(&self) -> Language {
        Language::JavaScript
    }

    open spec fn scanner_extensions(&self) -> Seq<Seq<char>> {
        crate::types::spec_extensions(Language::JavaScript) + crate::types::spec_extensions(
            Language::TypeScript,
        )
    }

    open spec fn scanner_usages(&self, text: Seq<char>, path: Seq<char>) -> Seq<UsageView> {
        js_usages(text, path)
    }

    fn language(&self) -> (l: Language) {
        Language::JavaScript
    }

    fn extensions(&self) -> (r: Vec<&'static str>) {
        let r: Vec<&'static str> = vec!["js", "mjs", "cjs", "jsx", "ts", "mts", "cts", "tsx"];
        proof {
            assert(r.deep_view() =~= self.scanner_extensions());
        }
        r
    }

    fn scan(&self, content: &str, file_path: &str) -> (us: Vec<EnvVarUsage>) {
        let idioms = js_idiom_list();
        let chars = to_char_vec(content);
        let lines = split_lines(&chars);
        let ghost lv = lines.deep_view();
        let mut us: Vec<EnvVarUsage> = Vec::new();
        proof {
            assert(us.deep_view() + js_text_from(lv, 0, file_path@) =~= js_usages(
                content@,
                file_path@,
            ));
        }
        let mut i: usize = 0;
        while i < lines.len()
            invariant
                idioms.deep_view() == js_idioms(),
                lv == lines.deep_view(),
                lv == lines_of(content@),
                i <= lines@.len(),
                lines@.len() == lv.len(),
                us.deep_view() + js_text_from(lv, i as int, file_path@) == js_usages(
                    content@,
                    file_path@,
                ),
            decreases lines@.len() - i,
        {
            proof {
                assert(lines@[i as int].deep_view() == lv[i as int]);
                assert(lines@[i as int]@ == lv[i as int]);
            }
            scan_line(&lines[i], &idioms, i + 1, file_path, Language::JavaScript, &mut us);
            destr_scan_line(&lines[i], i + 1, file_path, &mut us);
            proof {
                assert(js_text_from(lv, i as int, file_path@) =~= js_line_usages(
                    lv[i as int],
                    i + 1,
                    file_path@,
                ) + js_text_from(lv, i + 1, file_path@));
                assert(us.deep_view() + js_text_from(lv, i + 1, file_path@) =~= js_usages(
                    content@,
                    file_path@,
                ));
            }
            i = i + 1;
        }
        proof {
            assert(us.deep_view() =~= js_usages(content@, file_path@));
        }
        us
    }
}

} // verus!
