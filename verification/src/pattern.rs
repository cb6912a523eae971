//! The idiom-matching engine shared by the per-language usage extractors.
//!
//! Each language recognizes environment-variable reads through a small set of
//! idioms. An idiom is a literal prefix followed by a variable name in one of
//! three shapes: directly appended (`process.env.NAME`), as a quoted
//! subscript (`ENV['NAME']`), or as the quoted first argument of a call
//! (`getenv("NAME")`). A name is a maximal run of uppercase letters, digits,
//! and underscores that starts with an uppercase letter or underscore.

use vstd::prelude::*;

use crate::text::{
    is_name_char, is_name_start, is_word_char, lemma_name_run_end, lit_at, lit_at_pos,
    name_run_end, name_run_end_at, name_start_char, string_from_range, trim_to_string, trimmed,
    ws_run_start, ws_run_start_at,
};
use crate::types::{EnvVarUsage, Language, UsageView};

verus! {

/// Which quote characters may delimit the variable name.
#[derive(Debug, Clone, Copy)]
pub enum Quotes {
    /// Only a double quote.
    Double,
    /// A double or a single quote, independently on each side.
    Any,
}

/// How the variable name is wrapped after the idiom's literal prefix.
#[derive(Debug, Clone, Copy)]
pub enum Shape {
    /// The name follows the prefix immediately.
    Direct,
    /// The prefix ends with `[`; then a quote, the name, a quote, and `]`.
    Bracket(Quotes),
    /// Whitespace, `(`, whitespace, a quote, the name, and a quote follow.
    Call(Quotes),
}

/// One recognized access idiom of a language.
#[derive(Debug, Clone, Copy)]
pub struct Idiom {
    pub prefix: &'static str,
    pub shape: Shape,
    /// Whether the prefix must not be preceded by a word character.
    pub boundary: bool,
}

/// The mathematical content of an `Idiom`.
pub struct IdiomView {
    pub prefix: Seq<char>,
    pub shape: Shape,
    pub boundary: bool,
}

impl View for Idiom {
    type V = IdiomView;

    open spec fn view(&self) -> IdiomView {
        IdiomView { prefix: self.prefix@, shape: self.shape, boundary: self.boundary }
    }
}

impl DeepView for Idiom {
    type V = IdiomView;

    open spec fn deep_view(&self) -> IdiomView {
        self.view()
    }
}

pub open spec fn quote_ok(q: Quotes, c: char) -> bool {
    match q {
        Quotes::Double => c == '"',
        Quotes::Any => c == '"' || c == '\'',
    }
}

pub fn quote_char(q: Quotes, c: char) -> (b: bool)
    ensures
        b == quote_ok(q, c),
{
    match q {
        Quotes::Double => c == '"',
        Quotes::Any => c == '"' || c == '\'',
    }
}

/// The idiom's prefix occupies `line[p .. p + prefix.len()]` and, if a word
/// boundary is required, is not preceded by a word character.
pub open spec fn prefix_at(line: Seq<char>, id: IdiomView, p: int) -> bool {
    &&& lit_at(line, p, id.prefix)
    &&& (id.boundary ==> (p == 0 || !is_word_char(line[p - 1])))
}

/// The idiom's prefix ends exactly at index `end`.
pub open spec fn prefix_ends_at(line: Seq<char>, id: IdiomView, end: int) -> bool {
    prefix_at(line, id, end - id.prefix.len())
}

fn prefix_ends_at_pos(line: &Vec<char>, id: &Idiom, end: usize) -> (b: bool)
    requires
        end <= line@.len(),
    ensures
        b == prefix_ends_at(line@, id@, end as int),
{
    let plen = id.prefix.unicode_len();
    if end < plen {
        return false;
    }
    let p = end - plen;
    if !lit_at_pos(line, p, id.prefix) {
        return false;
    }
    if id.boundary && p > 0 {
        if crate::text::word_char(line[p - 1]) {
            return false;
        }
    }
    true
}

/// The idiom matches in `line` with the variable name starting at `ns`. The
/// name is the maximal run of name characters from `ns`; the idiom's
/// surrounding punctuation must stand around it as the shape demands.
pub open spec fn idiom_match_at(line: Seq<char>, id: IdiomView, ns: int) -> bool {
    &&& 0 <= ns < line.len()
    &&& is_name_start(line[ns])
    &&& {
        let ne = name_run_end(line, ns);
        match id.shape {
            Shape::Direct => prefix_ends_at(line, id, ns),
            Shape::Bracket(q) => {
                &&& ns >= 1
                &&& quote_ok(q, line[ns - 1])
                &&& prefix_ends_at(line, id, ns - 1)
                &&& ne + 2 <= line.len()
                &&& quote_ok(q, line[ne])
                &&& line[ne + 1] == ']'
            },
            Shape::Call(q) => {
                &&& ns >= 1
                &&& quote_ok(q, line[ns - 1])
                &&& ne < line.len()
                &&& quote_ok(q, line[ne])
                &&& {
                    let a = ws_run_start(line, ns - 1);
                    &&& a >= 1
                    &&& line[a - 1] == '('
                    &&& prefix_ends_at(line, id, ws_run_start(line, a - 1))
                }
            },
        }
    }
}

/// Decides `idiom_match_at` for one idiom at one position.
pub fn idiom_match(line: &Vec<char>, id: &Idiom, ns: usize) -> (b: bool)
    ensures
        b == idiom_match_at(line@, id@, ns as int),
{
    if ns >= line.len() {
        return false;
    }
    if !name_start_char(line[ns]) {
        return false;
    }
    proof {
        lemma_name_run_end(line@, ns as int);
    }
    let ne = name_run_end_at(line, ns);
    match id.shape {
        Shape::Direct => prefix_ends_at_pos(line, id, ns),
        Shape::Bracket(q) => {
            if ns < 1 {
                return false;
            }
            if !quote_char(q, line[ns - 1]) {
                return false;
            }
            if !prefix_ends_at_pos(line, id, ns - 1) {
                return false;
            }
            if ne >= line.len() {
                return false;
            }
            if !quote_char(q, line[ne]) {
                return false;
            }
            if ne + 1 >= line.len() {
                return false;
            }
            line[ne + 1] == ']'
        },
        Shape::Call(q) => {
            if ns < 1 {
                return false;
            }
            if !quote_char(q, line[ns - 1]) {
                return false;
            }
            if ne >= line.len() {
                return false;
            }
            if !quote_char(q, line[ne]) {
                return false;
            }
            let a = ws_run_start_at(line, ns - 1);
            if a < 1 {
                return false;
            }
            if line[a - 1] != '(' {
                return false;
            }
            let b = ws_run_start_at(line, a - 1);
            prefix_ends_at_pos(line, id, b)
        },
    }
}

/// Some idiom of the set matches with the name starting at `ns`.
pub open spec fn matches_any(line: Seq<char>, idioms: Seq<IdiomView>, ns: int) -> bool {
    exists|k: int| 0 <= k < idioms.len() && idiom_match_at(line, #[trigger] idioms[k], ns)
}

/// Decides `matches_any`.
pub fn match_any_at(line: &Vec<char>, idioms: &Vec<Idiom>, ns: usize) -> (b: bool)
    ensures
        b == matches_any(line@, idioms.deep_view(), ns as int),
{
    let mut k: usize = 0;
    while k < idioms.len()
        invariant
            k <= idioms@.len(),
            idioms.deep_view().len() == idioms@.len(),
            forall|j: int| 0 <= j < k ==> !idiom_match_at(
                line@,
                #[trigger] idioms.deep_view()[j],
                ns as int,
            ),
        decreases idioms@.len() - k,
    {
        proof {
            assert(idioms.deep_view()[k as int] == idioms@[k as int]@);
        }
        if idiom_match(line, &idioms[k], ns) {
            return true;
        }
        k = k + 1;
    }
    false
}

/// The usage fact for a name starting at `ns` in `line`: the name itself, its
/// 1-based line and column, and the trimmed line as context.
pub open spec fn usage_at(
    line: Seq<char>,
    ns: int,
    lineno: int,
    path: Seq<char>,
    lang: Language,
) -> UsageView {
    UsageView {
        name: line.subrange(ns, name_run_end(line, ns)),
        file_path: path,
        line: lineno,
        column: ns + 1,
        language: lang,
        context: Some(trimmed(line)),
    }
}

/// The usages of one line, in column order: one per position where some idiom
/// matches. A position where several idioms match yields a single usage.
pub open spec fn line_usages_from(
    line: Seq<char>,
    idioms: Seq<IdiomView>,
    i: int,
    lineno: int,
    path: Seq<char>,
    lang: Language,
) -> Seq<UsageView>
    decreases line.len() - i when 0 <= i <= line.len()
{
    if i >= line.len() {
        Seq::empty()
    } else {
        let rest = line_usages_from(line, idioms, i + 1, lineno, path, lang);
        if matches_any(line, idioms, i) {
            seq![usage_at(line, i, lineno, path, lang)] + rest
        } else {
            rest
        }
    }
}

/// The usages of a text's lines from line index `i` on, 1-indexed.
pub open spec fn text_usages_from(
    lines: Seq<Seq<char>>,
    idioms: Seq<IdiomView>,
    i: int,
    path: Seq<char>,
    lang: Language,
) -> Seq<UsageView>
    decreases lines.len() - i when 0 <= i <= lines.len()
{
    if i >= lines.len() {
        Seq::empty()
    } else {
        line_usages_from(lines[i], idioms, 0, i + 1, path, lang) + text_usages_from(
            lines,
            idioms,
            i + 1,
            path,
            lang,
        )
    }
}

/// The usages that the idiom set extracts from a whole text.
pub open spec fn idiom_usages(
    text: Seq<char>,
    idioms: Seq<IdiomView>,
    path: Seq<char>,
    lang: Language,
) -> Seq<UsageView> {
    text_usages_from(crate::text::lines_of(text), idioms, 0, path, lang)
}

/// Appends the usages of one line to `us`.
pub fn scan_line(
    line: &Vec<char>,
    idioms: &Vec<Idiom>,
    lineno: usize,
    path: &str,
    lang: Language,
    us: &mut Vec<EnvVarUsage>,
)
    requires
        lineno >= 1,
    ensures
        final(us).deep_view() == old(us).deep_view() + line_usages_from(
            line@,
            idioms.deep_view(),
            0,
            lineno as int,
            path@,
            lang,
        ),
{
    let ghost iv = idioms.deep_view();
    let ghost base = us.deep_view();
    let mut ns: usize = 0;
    while ns < line.len()
        invariant
            iv == idioms.deep_view(),
            ns <= line@.len(),
            lineno >= 1,
            us.deep_view() == base + line_usages_from(line@, iv, 0, lineno as int, path@, lang)
                .take(
                line_usages_from(line@, iv, 0, lineno as int, path@, lang).len() - line_usages_from(
                    line@,
                    iv,
                    ns as int,
                    lineno as int,
                    path@,
                    lang,
                ).len(),
            ),
            line_usages_from(line@, iv, 0, lineno as int, path@, lang) == line_usages_from(
                line@,
                iv,
                0,
                lineno as int,
                path@,
                lang,
            ).take(
                line_usages_from(line@, iv, 0, lineno as int, path@, lang).len() - line_usages_from(
                    line@,
                    iv,
                    ns as int,
                    lineno as int,
                    path@,
                    lang,
                ).len(),
            ) + line_usages_from(line@, iv, ns as int, lineno as int, path@, lang),
        decreases line@.len() - ns,
    {
        if match_any_at(line, idioms, ns) {
            proof {
                lemma_name_run_end(line@, ns as int);
            }
            let ne = name_run_end_at(line, ns);
            let name = string_from_range(line, ns, ne);
            let context = trim_to_string(line);
            let u = EnvVarUsage {
                name,
                file_path: path.to_owned(),
                line: lineno,
                column: ns + 1,
                language: lang,
                context: Some(context),
            };
            proof {
                assert(u@ == usage_at(line@, ns as int, lineno as int, path@, lang));
            }
            let ghost prior = us.deep_view();
            us.push(u);
            proof {
                assert(us.deep_view() =~= prior.push(
                    usage_at(line@, ns as int, lineno as int, path@, lang),
                ));
            }
        }
        proof {
            let total = line_usages_from(line@, iv, 0, lineno as int, path@, lang);
            let here = line_usages_from(line@, iv, ns as int, lineno as int, path@, lang);
            let next = line_usages_from(line@, iv, ns + 1, lineno as int, path@, lang);
            lemma_line_usages_prefix(line@, iv, 0, ns as int, lineno as int, path@, lang);
            if matches_any(line@, iv, ns as int) {
                assert(here =~= seq![usage_at(line@, ns as int, lineno as int, path@, lang)]
                    + next);
            } else {
                assert(here == next);
            }
            assert(us.deep_view() =~= base + total.take(total.len() - next.len()));
            assert(total =~= total.take(total.len() - next.len()) + next);
        }
        ns = ns + 1;
    }
    proof {
        let total = line_usages_from(line@, iv, 0, lineno as int, path@, lang);
        assert(total.take(total.len() as int) =~= total);
        assert(us.deep_view() =~= base + total);
    }
}

/// The usages from index `i` are a suffix of those from index `h <= i`.
proof fn lemma_line_usages_prefix(
    line: Seq<char>,
    idioms: Seq<IdiomView>,
    h: int,
    i: int,
    lineno: int,
    path: Seq<char>,
    lang: Language,
)
    requires
        0 <= h <= i <= line.len(),
    ensures
        line_usages_from(line, idioms, i, lineno, path, lang).len() <= line_usages_from(
            line,
            idioms,
            h,
            lineno,
            path,
            lang,
        ).len(),
    decreases i - h,
{
    if h < i {
        lemma_line_usages_prefix(line, idioms, h + 1, i, lineno, path, lang);
    }
}

/// Extracts the usages of a whole text for one idiom set.
pub fn scan_text(content: &str, file_path: &str, idioms: &Vec<Idiom>, lang: Language) -> (us: Vec<
    EnvVarUsage,
>)
    ensures
        us.deep_view() == idiom_usages(content@, idioms.deep_view(), file_path@, lang),
{
    let ghost iv = idioms.deep_view();
    let chars = crate::text::to_char_vec(content);
    let lines = crate::text::split_lines(&chars);
    let ghost lv = lines.deep_view();
    let mut us: Vec<EnvVarUsage> = Vec::new();
    proof {
        assert(us.deep_view() + text_usages_from(lv, iv, 0, file_path@, lang) =~= idiom_usages(
            content@,
            iv,
            file_path@,
            lang,
        ));
    }
    let mut i: usize = 0;
    while i < lines.len()
        invariant
            iv == idioms.deep_view(),
            lv == lines.deep_view(),
            lv == crate::text::lines_of(content@),
            i <= lines@.len(),
            lines@.len() == lv.len(),
            us.deep_view() + text_usages_from(lv, iv, i as int, file_path@, lang) == idiom_usages(
                content@,
                iv,
                file_path@,
                lang,
            ),
        decreases lines@.len() - i,
    {
        proof {
            assert(lines@[i as int].deep_view() == lv[i as int]);
            assert(lines@[i as int]@ == lv[i as int]);
        }
        let ghost prior = us.deep_view();
        scan_line(&lines[i], idioms, i + 1, file_path, lang, &mut us);
        proof {
            assert(text_usages_from(lv, iv, i as int, file_path@, lang) =~= line_usages_from(
                lv[i as int],
                iv,
                0,
                i + 1,
                file_path@,
                lang,
            ) + text_usages_from(lv, iv, i + 1, file_path@, lang));
            assert(us.deep_view() + text_usages_from(lv, iv, i + 1, file_path@, lang)
                =~= idiom_usages(content@, iv, file_path@, lang));
        }
        i = i + 1;
    }
    proof {
        assert(us.deep_view() =~= idiom_usages(content@, iv, file_path@, lang));
    }
    us
}

} // verus!
