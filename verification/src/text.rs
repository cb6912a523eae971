//! Character classes and small string utilities shared by the environment-file
//! parser and the per-language usage extractors.

use vstd::prelude::*;
use vstd::string::StrSliceExecFns;
use vstd::string::StringExecFns;

verus! {

/// Whitespace that may separate tokens inside a single physical line.
pub open spec fn is_ws_char(c: char) -> bool {
    c == ' ' || c == '\t' || c == '\r' || c == '\x0b' || c == '\x0c' || c == '\n'
}

pub open spec fn is_upper(c: char) -> bool {
    'A' <= c && c <= 'Z'
}

pub open spec fn is_lower(c: char) -> bool {
    'a' <= c && c <= 'z'
}

pub open spec fn is_ascii_digit_char(c: char) -> bool {
    '0' <= c && c <= '9'
}

/// A character allowed anywhere in a canonical environment-variable name:
/// uppercase letter, digit, or underscore.
pub open spec fn is_name_char(c: char) -> bool {
    is_upper(c) || is_ascii_digit_char(c) || c == '_'
}

/// A character allowed to start a canonical environment-variable name.
pub open spec fn is_name_start(c: char) -> bool {
    is_upper(c) || c == '_'
}

/// A word character for the purpose of word-boundary checks in idiom matching.
pub open spec fn is_word_char(c: char) -> bool {
    is_upper(c) || is_lower(c) || is_ascii_digit_char(c) || c == '_'
}

/// The canonical environment-variable name shape: a leading uppercase letter
/// or underscore followed by uppercase letters, digits, or underscores.
pub open spec fn is_canonical_name(s: Seq<char>) -> bool {
    &&& s.len() > 0
    &&& is_name_start(s[0])
    &&& forall|i: int| 0 <= i < s.len() ==> is_name_char(#[trigger] s[i])
}

pub fn ws_char(c: char) -> (b: bool)
    ensures
        b == is_ws_char(c),
{
    c == ' ' || c == '\t' || c == '\r' || c == '\x0b' || c == '\x0c' || c == '\n'
}

pub fn upper_char(c: char) -> (b: bool)
    ensures
        b == is_upper(c),
{
    'A' <= c && c <= 'Z'
}

pub fn lower_char(c: char) -> (b: bool)
    ensures
        b == is_lower(c),
{
    'a' <= c && c <= 'z'
}

pub fn digit_char(c: char) -> (b: bool)
    ensures
        b == is_ascii_digit_char(c),
{
    '0' <= c && c <= '9'
}

pub fn name_char(c: char) -> (b: bool)
    ensures
        b == is_name_char(c),
{
    upper_char(c) || digit_char(c) || c == '_'
}

pub fn name_start_char(c: char) -> (b: bool)
    ensures
        b == is_name_start(c),
{
    upper_char(c) || c == '_'
}

pub fn word_char(c: char) -> (b: bool)
    ensures
        b == is_word_char(c),
{
    upper_char(c) || lower_char(c) || digit_char(c) || c == '_'
}

/// Appends one character to a string.
/// Relies on `String::push` from std: it adds exactly the given character.
#[verifier::external_body]
pub fn push_char(s: &mut String, c: char)
    ensures
        final(s)@ == old(s)@.push(c),
{
    s.push(c);
}

/// The characters of `s`, as a vector.
pub fn to_char_vec(s: &str) -> (v: Vec<char>)
    ensures
        v@ == s@,
{
    let n = s.unicode_len();
    let mut v: Vec<char> = Vec::new();
    let mut i: usize = 0;
    while i < n
        invariant
            n == s@.len(),
            i <= n,
            v@ == s@.subrange(0, i as int),
        decreases n - i,
    {
        let c = s.get_char(i);
        v.push(c);
        i = i + 1;
        proof {
            assert(v@ =~= s@.subrange(0, i as int));
        }
    }
    proof {
        assert(v@ =~= s@);
    }
    v
}

/// The end of the run of name characters starting at `i`: the least index
/// `e >= i` such that `line[e]` is not a name character (or the line ends).
pub open spec fn name_run_end(line: Seq<char>, i: int) -> int
    decreases line.len() - i when 0 <= i <= line.len()
{
    if i < line.len() && is_name_char(line[i]) {
        name_run_end(line, i + 1)
    } else {
        i
    }
}

pub proof fn lemma_name_run_end(line: Seq<char>, i: int)
    requires
        0 <= i <= line.len(),
    ensures
        i <= name_run_end(line, i) <= line.len(),
        forall|j: int| i <= j < name_run_end(line, i) ==> is_name_char(#[trigger] line[j]),
        name_run_end(line, i) < line.len() ==> !is_name_char(line[name_run_end(line, i)]),
    decreases line.len() - i,
{
    if i < line.len() && is_name_char(line[i]) {
        lemma_name_run_end(line, i + 1);
    }
}

pub fn name_run_end_at(line: &Vec<char>, i: usize) -> (e: usize)
    requires
        i <= line@.len(),
    ensures
        e == name_run_end(line@, i as int),
{
    let mut e = i;
    while e < line.len() && name_char(line[e])
        invariant
            i <= e <= line@.len(),
            name_run_end(line@, i as int) == name_run_end(line@, e as int),
        decreases line@.len() - e,
    {
        e = e + 1;
    }
    e
}

/// The start of the maximal run of whitespace ending just before `i`: the
/// least index `a <= i` such that every character in `[a, i)` is whitespace.
pub open spec fn ws_run_start(line: Seq<char>, i: int) -> int
    decreases i when 0 <= i <= line.len()
{
    if i > 0 && is_ws_char(line[i - 1]) {
        ws_run_start(line, i - 1)
    } else {
        i
    }
}

pub fn ws_run_start_at(line: &Vec<char>, i: usize) -> (a: usize)
    requires
        i <= line@.len(),
    ensures
        a == ws_run_start(line@, i as int),
        a <= i,
{
    let mut a = i;
    while a > 0 && ws_char(line[a - 1])
        invariant
            a <= i <= line@.len(),
            ws_run_start(line@, i as int) == ws_run_start(line@, a as int),
        decreases a,
    {
        a = a - 1;
    }
    a
}

/// The end of the maximal run of whitespace starting at `i`.
pub open spec fn ws_run_end(line: Seq<char>, i: int) -> int
    decreases line.len() - i when 0 <= i <= line.len()
{
    if i < line.len() && is_ws_char(line[i]) {
        ws_run_end(line, i + 1)
    } else {
        i
    }
}

pub proof fn lemma_ws_run_end(line: Seq<char>, i: int)
    requires
        0 <= i <= line.len(),
    ensures
        i <= ws_run_end(line, i) <= line.len(),
    decreases line.len() - i,
{
    if i < line.len() && is_ws_char(line[i]) {
        lemma_ws_run_end(line, i + 1);
    }
}

/// The whitespace run starting at `x` ends no later than any position `t` at
/// or after `x` that holds a non-whitespace character (or the end of line).
pub proof fn lemma_ws_run_end_bound(line: Seq<char>, x: int, t: int)
    requires
        0 <= x <= t <= line.len(),
        t < line.len() ==> !is_ws_char(line[t]),
    ensures
        ws_run_end(line, x) <= t,
    decreases t - x,
{
    if x < t && is_ws_char(line[x]) {
        lemma_ws_run_end_bound(line, x + 1, t);
    }
}

pub fn ws_run_end_at(line: &Vec<char>, i: usize) -> (e: usize)
    requires
        i <= line@.len(),
    ensures
        e == ws_run_end(line@, i as int),
        i <= e <= line@.len(),
{
    let mut e = i;
    while e < line.len() && ws_char(line[e])
        invariant
            i <= e <= line@.len(),
            ws_run_end(line@, i as int) == ws_run_end(line@, e as int),
        decreases line@.len() - e,
    {
        e = e + 1;
    }
    e
}

/// Whether the literal `pat` occupies `line[i .. i + pat.len()]`.
pub open spec fn lit_at(line: Seq<char>, i: int, pat: Seq<char>) -> bool {
    &&& 0 <= i
    &&& i + pat.len() <= line.len()
    &&& forall|j: int| 0 <= j < pat.len() ==> line[i + j] == #[trigger] pat[j]
}

pub fn lit_at_pos(line: &Vec<char>, i: usize, pat: &str) -> (b: bool)
    ensures
        b == lit_at(line@, i as int, pat@),
{
    let n = pat.unicode_len();
    let ln = line.len();
    if n > ln || i > ln - n {
        return false;
    }
    let mut j: usize = 0;
    while j < n
        invariant
            n == pat@.len(),
            ln == line@.len(),
            i + n <= ln,
            j <= n,
            forall|k: int| 0 <= k < j ==> line@[i + k] == #[trigger] pat@[k],
        decreases n - j,
    {
        if line[i + j] != pat.get_char(j) {
            return false;
        }
        j = j + 1;
    }
    true
}

/// `line` trimmed of leading and trailing whitespace.
pub open spec fn trimmed(line: Seq<char>) -> Seq<char> {
    let a = ws_run_end(line, 0);
    let b = ws_run_start(line, line.len() as int);
    if a <= b {
        line.subrange(a, b)
    } else {
        Seq::empty()
    }
}

pub fn trim_range(line: &Vec<char>) -> (r: (usize, usize))
    ensures
        ({
            let a = ws_run_end(line@, 0);
            let b = ws_run_start(line@, line@.len() as int);
            if a <= b {
                r.0 == a && r.1 == b
            } else {
                r.0 == r.1
            }
        }),
        r.0 <= r.1 <= line@.len(),
        trimmed(line@) == line@.subrange(r.0 as int, r.1 as int),
{
    proof {
        lemma_ws_run_end(line@, 0);
    }
    let a = ws_run_end_at(line, 0);
    let b = ws_run_start_at(line, line.len());
    if a <= b {
        proof {
            assert(trimmed(line@) == line@.subrange(a as int, b as int));
        }
        (a, b)
    } else {
        proof {
            assert(trimmed(line@) =~= line@.subrange(a as int, a as int));
        }
        (a, a)
    }
}

/// The string holding `line` trimmed of surrounding whitespace.
pub fn trim_to_string(line: &Vec<char>) -> (s: String)
    ensures
        s@ == trimmed(line@),
{
    let (a, b) = trim_range(line);
    string_from_range(line, a, b)
}

/// The index of the first occurrence of `c` at or after `pos`, or the length
/// of `s`.
pub open spec fn find_from(s: Seq<char>, c: char, pos: int) -> int
    decreases s.len() - pos when 0 <= pos <= s.len()
{
    if pos < s.len() {
        if s[pos] == c {
            pos
        } else {
            find_from(s, c, pos + 1)
        }
    } else {
        pos
    }
}

pub proof fn lemma_find_from(s: Seq<char>, c: char, pos: int)
    requires
        0 <= pos <= s.len(),
    ensures
        pos <= find_from(s, c, pos) <= s.len(),
        find_from(s, c, pos) < s.len() ==> s[find_from(s, c, pos)] == c,
        forall|j: int| pos <= j < find_from(s, c, pos) ==> s[j] != c,
    decreases s.len() - pos,
{
    if pos < s.len() && s[pos] != c {
        lemma_find_from(s, c, pos + 1);
    }
}

pub fn find_from_at(s: &Vec<char>, c: char, pos: usize) -> (e: usize)
    requires
        pos <= s@.len(),
    ensures
        e == find_from(s@, c, pos as int),
        pos <= e <= s@.len(),
{
    proof {
        lemma_find_from(s@, c, pos as int);
    }
    let mut e = pos;
    while e < s.len() && s[e] != c
        invariant
            pos <= e <= s@.len(),
            find_from(s@, c, pos as int) == find_from(s@, c, e as int),
        decreases s@.len() - e,
    {
        e = e + 1;
    }
    e
}

/// The index of the first `'\n'` at or after `pos`, or the length of `s`.
pub open spec fn next_newline(s: Seq<char>, pos: int) -> int {
    find_from(s, '\n', pos)
}

pub proof fn lemma_next_newline(s: Seq<char>, pos: int)
    requires
        0 <= pos <= s.len(),
    ensures
        pos <= next_newline(s, pos) <= s.len(),
        next_newline(s, pos) < s.len() ==> s[next_newline(s, pos)] == '\n',
    decreases s.len() - pos,
{
    lemma_find_from(s, '\n', pos);
}

pub fn next_newline_at(s: &Vec<char>, pos: usize) -> (e: usize)
    requires
        pos <= s@.len(),
    ensures
        e == next_newline(s@, pos as int),
        pos <= e <= s@.len(),
{
    find_from_at(s, '\n', pos)
}

/// One physical line of `s` beginning at `pos` and ending at the newline at
/// index `nl` (or at the end of `s`); a carriage return immediately before a
/// newline is dropped.
pub open spec fn line_at(s: Seq<char>, pos: int, nl: int) -> Seq<char> {
    if nl < s.len() && nl > pos && s[nl - 1] == '\r' {
        s.subrange(pos, nl - 1)
    } else {
        s.subrange(pos, nl)
    }
}

/// The physical lines of `s` from `pos` on, split at newlines, with `'\r'`
/// dropped before each `'\n'`; a final line ending is optional and a final
/// empty segment after a trailing newline yields no line.
pub open spec fn lines_from(s: Seq<char>, pos: int) -> Seq<Seq<char>>
    decreases s.len() - pos when 0 <= pos <= s.len() via lines_from_decreases
{
    if pos >= s.len() {
        Seq::empty()
    } else {
        let nl = next_newline(s, pos);
        if nl >= s.len() {
            seq![line_at(s, pos, nl)]
        } else {
            seq![line_at(s, pos, nl)] + lines_from(s, nl + 1)
        }
    }
}

#[via_fn]
proof fn lines_from_decreases(s: Seq<char>, pos: int) {
    if 0 <= pos < s.len() {
        lemma_next_newline(s, pos);
    }
}

/// The physical lines of `s`.
pub open spec fn lines_of(s: Seq<char>) -> Seq<Seq<char>> {
    lines_from(s, 0)
}

/// Splits text into its physical lines.
pub fn split_lines(s: &Vec<char>) -> (lines: Vec<Vec<char>>)
    ensures
        lines.deep_view() == lines_of(s@),
{
    let mut lines: Vec<Vec<char>> = Vec::new();
    let mut pos: usize = 0;
    while pos < s.len()
        invariant
            pos <= s@.len(),
            lines.deep_view() + lines_from(s@, pos as int) == lines_of(s@),
        decreases s@.len() - pos,
    {
        proof {
            lemma_next_newline(s@, pos as int);
        }
        let nl = next_newline_at(s, pos);
        let end = if nl < s.len() && nl > pos && s[nl - 1] == '\r' {
            nl - 1
        } else {
            nl
        };
        let mut line: Vec<char> = Vec::new();
        let mut i = pos;
        while i < end
            invariant
                pos <= i <= end <= s@.len(),
                line@ == s@.subrange(pos as int, i as int),
            decreases end - i,
        {
            line.push(s[i]);
            i = i + 1;
            proof {
                assert(line@ =~= s@.subrange(pos as int, i as int));
            }
        }
        proof {
            assert(line@ =~= line_at(s@, pos as int, nl as int));
            assert(line.deep_view() =~= line@);
        }
        let ghost prior = lines.deep_view();
        lines.push(line);
        proof {
            assert(lines.deep_view() =~= prior.push(line_at(s@, pos as int, nl as int)));
        }
        if nl >= s.len() {
            proof {
                assert(lines_from(s@, pos as int) =~= seq![line_at(s@, pos as int, nl as int)]);
                assert(lines.deep_view() =~= lines_of(s@));
            }
            return lines;
        }
        proof {
            assert(lines_from(s@, pos as int) =~= seq![line_at(s@, pos as int, nl as int)]
                + lines_from(s@, nl + 1));
            assert(lines.deep_view() + lines_from(s@, nl + 1) =~= lines_of(s@));
        }
        pos = nl + 1;
    }
    proof {
        assert(lines.deep_view() =~= lines_of(s@));
    }
    lines
}

/// The decimal digit character for `d`.
pub open spec fn digit_to_char(d: int) -> char {
    if d == 0 { '0' }
    else if d == 1 { '1' }
    else if d == 2 { '2' }
    else if d == 3 { '3' }
    else if d == 4 { '4' }
    else if d == 5 { '5' }
    else if d == 6 { '6' }
    else if d == 7 { '7' }
    else if d == 8 { '8' }
    else { '9' }
}

/// The decimal rendering of `n`.
pub open spec fn dec_str(n: nat) -> Seq<char>
    decreases n,
{
    if n < 10 {
        seq![digit_to_char(n as int)]
    } else {
        dec_str(n / 10).push(digit_to_char((n % 10) as int))
    }
}

fn digit_char_of(d: u64) -> (c: char)
    requires
        d < 10,
    ensures
        c == digit_to_char(d as int),
{
    match d {
        0 => '0',
        1 => '1',
        2 => '2',
        3 => '3',
        4 => '4',
        5 => '5',
        6 => '6',
        7 => '7',
        8 => '8',
        _ => '9',
    }
}

/// Renders `n` in decimal.
pub fn u64_to_dec(n: u64) -> (s: String)
    ensures
        s@ == dec_str(n as nat),
    decreases n,
{
    if n < 10 {
        let mut s = String::new();
        push_char(&mut s, digit_char_of(n));
        proof {
            assert(s@ =~= dec_str(n as nat));
        }
        s
    } else {
        let mut s = u64_to_dec(n / 10);
        push_char(&mut s, digit_char_of(n % 10));
        s
    }
}

/// Strict lexicographic order on character sequences, by code point.
pub open spec fn lex_lt(a: Seq<char>, b: Seq<char>) -> bool
    decreases a.len(),
{
    if b.len() == 0 {
        false
    } else if a.len() == 0 {
        true
    } else if a[0] != b[0] {
        a[0] < b[0]
    } else {
        lex_lt(a.skip(1), b.skip(1))
    }
}

/// No sequence comes strictly before itself.
pub proof fn lemma_lex_lt_irrefl(a: Seq<char>)
    ensures
        !lex_lt(a, a),
    decreases a.len(),
{
    if a.len() > 0 {
        lemma_lex_lt_irrefl(a.skip(1));
    }
}

/// The lexicographic order is transitive.
pub proof fn lemma_lex_lt_trans(a: Seq<char>, b: Seq<char>, c: Seq<char>)
    requires
        lex_lt(a, b),
        lex_lt(b, c),
    ensures
        lex_lt(a, c),
    decreases a.len() + b.len() + c.len(),
{
    if c.len() == 0 {
        // lex_lt(b, c) is impossible
    } else if b.len() == 0 {
        // lex_lt(a, b) is impossible
    } else if a.len() == 0 {
        // lex_lt(a, c) holds as c is nonempty
    } else {
        if a[0] != b[0] {
            if b[0] != c[0] {
                assert(a[0] < c[0]);
            }
        } else {
            if b[0] != c[0] {
            } else {
                lemma_lex_lt_trans(a.skip(1), b.skip(1), c.skip(1));
            }
        }
    }
}

/// Compares two character vectors lexicographically.
pub fn lex_lt_vec(a: &Vec<char>, b: &Vec<char>) -> (r: bool)
    ensures
        r == lex_lt(a@, b@),
{
    let mut i: usize = 0;
    proof {
        assert(a@.skip(0) =~= a@);
        assert(b@.skip(0) =~= b@);
    }
    loop
        invariant
            i <= a@.len(),
            i <= b@.len(),
            forall|j: int| 0 <= j < i ==> a@[j] == b@[j],
            lex_lt(a@, b@) == lex_lt(a@.skip(i as int), b@.skip(i as int)),
        decreases a@.len() - i,
    {
        if i == b.len() {
            return false;
        }
        if i == a.len() {
            return true;
        }
        if a[i] != b[i] {
            return a[i] < b[i];
        }
        proof {
            assert(a@.skip(i as int).skip(1) =~= a@.skip(i + 1));
            assert(b@.skip(i as int).skip(1) =~= b@.skip(i + 1));
            assert(a@.skip(i as int)[0] == a@[i as int]);
            assert(b@.skip(i as int)[0] == b@[i as int]);
        }
        i = i + 1;
    }
}

/// Whether the characters of `v` spell exactly `s`.
pub fn chars_eq_str(v: &Vec<char>, s: &str) -> (b: bool)
    ensures
        b == (v@ == s@),
{
    let n = s.unicode_len();
    if v.len() != n {
        proof {
            assert(v@.len() != s@.len());
        }
        return false;
    }
    let r = lit_at_pos(v, 0, s);
    proof {
        if r {
            assert(v@ =~= s@);
        } else {
            assert(v@.len() == s@.len());
            if v@ == s@ {
                assert(forall|j: int| 0 <= j < s@.len() ==> v@[0 + j] == s@[j]);
                assert(lit_at(v@, 0, s@));
            }
        }
    }
    r
}

/// `c` folded to lowercase if it is an ASCII uppercase letter.
pub open spec fn spec_lower_char(c: char) -> char {
    if is_upper(c) {
        ((c as u8) + 32) as char
    } else {
        c
    }
}

/// `s` with ASCII uppercase letters folded to lowercase.
pub open spec fn lower_seq(s: Seq<char>) -> Seq<char> {
    s.map_values(|c: char| spec_lower_char(c))
}

pub fn to_lower_char(c: char) -> (r: char)
    ensures
        r == spec_lower_char(c),
{
    if upper_char(c) {
        ((c as u8) + 32) as char
    } else {
        c
    }
}

/// Folds ASCII uppercase letters of `v` to lowercase.
pub fn to_lower_vec(v: &Vec<char>) -> (r: Vec<char>)
    ensures
        r@ == lower_seq(v@),
{
    let mut r: Vec<char> = Vec::new();
    let mut i: usize = 0;
    while i < v.len()
        invariant
            i <= v@.len(),
            r@ == lower_seq(v@.subrange(0, i as int)),
        decreases v@.len() - i,
    {
        r.push(to_lower_char(v[i]));
        i = i + 1;
        proof {
            assert(r@ =~= lower_seq(v@.subrange(0, i as int)));
        }
    }
    proof {
        assert(v@.subrange(0, v@.len() as int) =~= v@);
    }
    r
}

/// The index of the last occurrence of `c` in `s`, or `-1`.
pub open spec fn rfind(s: Seq<char>, c: char) -> int
    decreases s.len(),
{
    if s.len() == 0 {
        -1
    } else if s.last() == c {
        s.len() - 1
    } else {
        rfind(s.drop_last(), c)
    }
}

pub proof fn lemma_rfind(s: Seq<char>, c: char)
    ensures
        -1 <= rfind(s, c) < s.len(),
        rfind(s, c) >= 0 ==> s[rfind(s, c)] == c,
        forall|j: int| rfind(s, c) < j < s.len() ==> s[j] != c,
    decreases s.len(),
{
    if s.len() > 0 && s.last() != c {
        lemma_rfind(s.drop_last(), c);
        assert(forall|j: int| 0 <= j < s.len() - 1 ==> s.drop_last()[j] == s[j]);
    }
}

/// The index of the last occurrence of `c` in `v`, or `v.len()` if absent.
pub fn rfind_at(v: &Vec<char>, c: char) -> (r: Option<usize>)
    ensures
        r matches Some(i) ==> i == rfind(v@, c) && 0 <= rfind(v@, c),
        r is None ==> rfind(v@, c) == -1,
{
    proof {
        lemma_rfind(v@, c);
    }
    let mut i = v.len();
    while i > 0
        invariant
            i <= v@.len(),
            forall|j: int| i <= j < v@.len() ==> v@[j] != c,
            rfind(v@, c) < i,
        decreases i,
    {
        i = i - 1;
        if v[i] == c {
            proof {
                lemma_rfind(v@, c);
                if rfind(v@, c) < i as int {
                    assert(v@[i as int] != c);
                }
            }
            return Some(i);
        }
        proof {
            lemma_rfind(v@, c);
            if rfind(v@, c) == i as int {
                assert(v@[i as int] == c);
            }
        }
    }
    None
}

/// The vector holding `chars[from..to]`.
pub fn vec_range(chars: &Vec<char>, from: usize, to: usize) -> (v: Vec<char>)
    requires
        from <= to <= chars@.len(),
    ensures
        v@ == chars@.subrange(from as int, to as int),
{
    let mut v: Vec<char> = Vec::new();
    let mut i: usize = from;
    while i < to
        invariant
            from <= i <= to <= chars@.len(),
            v@ == chars@.subrange(from as int, i as int),
        decreases to - i,
    {
        v.push(chars[i]);
        i = i + 1;
        proof {
            assert(v@ =~= chars@.subrange(from as int, i as int));
        }
    }
    v
}

/// The distinct elements of `names`, each at its first occurrence, in order.
pub open spec fn first_occurrences(names: Seq<Seq<char>>) -> Seq<Seq<char>>
    decreases names.len(),
{
    if names.len() == 0 {
        Seq::empty()
    } else {
        let rest = first_occurrences(names.drop_last());
        if rest.contains(names.last()) {
            rest
        } else {
            rest.push(names.last())
        }
    }
}

/// A name occurs among the first occurrences exactly when it occurs at all.
pub proof fn lemma_first_occurrences_contains(names: Seq<Seq<char>>, x: Seq<char>)
    ensures
        first_occurrences(names).contains(x) <==> names.contains(x),
    decreases names.len(),
{
    if names.len() > 0 {
        let prefix = names.drop_last();
        lemma_first_occurrences_contains(prefix, x);
        let rest = first_occurrences(prefix);
        lemma_first_occurrences_contains(prefix, names.last());
        if names.contains(x) {
            let i = choose|i: int| 0 <= i < names.len() && names[i] == x;
            if i < names.len() - 1 {
                assert(prefix[i] == x);
                assert(prefix.contains(x));
            } else {
                assert(names.last() == x);
            }
            if rest.contains(names.last()) {
                assert(first_occurrences(names) == rest);
                if prefix.contains(x) {
                } else {
                    assert(x == names.last());
                }
            } else {
                let pushed = rest.push(names.last());
                if prefix.contains(x) {
                    let j = choose|j: int| 0 <= j < rest.len() && rest[j] == x;
                    assert(pushed[j] == x);
                    assert(pushed.contains(x));
                } else {
                    assert(pushed[rest.len() as int] == x);
                    assert(pushed.contains(x));
                }
            }
        } else {
            assert(!prefix.contains(x)) by {
                if prefix.contains(x) {
                    let j = choose|j: int| 0 <= j < prefix.len() && prefix[j] == x;
                    assert(names[j] == x);
                }
            }
            assert(names.last() != x) by {
                if names.last() == x {
                    assert(names[names.len() - 1] == x);
                }
            }
            if !rest.contains(names.last()) {
                let pushed = rest.push(names.last());
                assert(!pushed.contains(x)) by {
                    if pushed.contains(x) {
                        let j = choose|j: int| 0 <= j < pushed.len() && pushed[j] == x;
                        if j < rest.len() {
                            assert(rest[j] == x);
                        } else {
                            assert(names.last() == x);
                        }
                    }
                }
            }
        }
    }
}

/// The string holding `chars[from..to]`.
pub fn string_from_range(chars: &Vec<char>, from: usize, to: usize) -> (s: String)
    requires
        from <= to <= chars@.len(),
    ensures
        s@ == chars@.subrange(from as int, to as int),
{
    let mut s = String::new();
    let mut i: usize = from;
    while i < to
        invariant
            from <= i <= to <= chars@.len(),
            s@ == chars@.subrange(from as int, i as int),
        decreases to - i,
    {
        push_char(&mut s, chars[i]);
        i = i + 1;
        proof {
            assert(s@ =~= chars@.subrange(from as int, i as int));
        }
    }
    s
}

} // verus!
