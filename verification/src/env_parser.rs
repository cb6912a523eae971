//! The environment-file parser: `KEY=VALUE` lines, `#` full-line comments, an
//! optional `export ` prefix, and an optional single matching pair of quotes
//! around the value.

use vstd::prelude::*;

use crate::text::{
    find_from, find_from_at, is_lower, is_upper, is_word_char, lemma_find_from, lines_of, lit_at,
    lit_at_pos, split_lines, string_from_range, to_char_vec, trim_range, trimmed, vec_range,
};
use crate::types::{DefView, EnvVarDefinition};

verus! {

/// A character allowed to start an environment-variable key in a definition
/// file: an ASCII letter or underscore.
pub open spec fn is_key_start(c: char) -> bool {
    is_upper(c) || is_lower(c) || c == '_'
}

/// A valid environment-variable key in a definition file: a letter or
/// underscore followed by letters, digits, or underscores.
pub open spec fn is_valid_key(s: Seq<char>) -> bool {
    &&& s.len() > 0
    &&& is_key_start(s[0])
    &&& forall|i: int| 0 <= i < s.len() ==> is_word_char(#[trigger] s[i])
}

/// Checks whether a string is a valid environment-variable key.
pub fn is_valid_env_var_name(name: &str) -> (b: bool)
    ensures
        b == is_valid_key(name@),
{
    let chars = to_char_vec(name);
    if chars.len() == 0 {
        return false;
    }
    let c0 = chars[0];
    if !(crate::text::upper_char(c0) || crate::text::lower_char(c0) || c0 == '_') {
        return false;
    }
    let mut i: usize = 0;
    while i < chars.len()
        invariant
            chars@ == name@,
            i <= chars@.len(),
            forall|j: int| 0 <= j < i ==> is_word_char(#[trigger] chars@[j]),
        decreases chars@.len() - i,
    {
        if !crate::text::word_char(chars[i]) {
            return false;
        }
        i = i + 1;
    }
    true
}

/// The value of an environment-file entry: surrounding whitespace trimmed,
/// then one matching pair of surrounding double or single quotes removed.
pub open spec fn strip_quotes_spec(v: Seq<char>) -> Seq<char> {
    let t = trimmed(v);
    if t.len() >= 2 && ((t[0] == '"' && t[t.len() - 1] == '"') || (t[0] == '\'' && t[t.len() - 1]
        == '\'')) {
        t.subrange(1, t.len() - 1)
    } else {
        t
    }
}

/// Removes surrounding whitespace and one matching pair of quotes.
pub fn strip_quotes(s: &str) -> (r: String)
    ensures
        r@ == strip_quotes_spec(s@),
{
    let chars = to_char_vec(s);
    let (a, b) = trim_range(&chars);
    let t = vec_range(&chars, a, b);
    proof {
        assert(t@ == trimmed(chars@));
    }
    if t.len() >= 2 && ((t[0] == '"' && t[t.len() - 1] == '"') || (t[0] == '\'' && t[t.len() - 1]
        == '\'')) {
        string_from_range(&t, 1, t.len() - 1)
    } else {
        string_from_range(&t, 0, t.len())
    }
}

/// The line with a leading `export ` token removed.
pub open spec fn strip_export(line: Seq<char>) -> Seq<char> {
    if lit_at(line, 0, "export "@) {
        line.skip("export "@.len() as int)
    } else {
        line
    }
}

/// The `(key, value)` of one environment-file line, if the line defines one:
/// an optional `export ` prefix is dropped, the line is split at the first
/// `=`, the key must be a valid identifier once trimmed, and the value is
/// trimmed and unquoted. A line with no `=` or an invalid key defines
/// nothing.
pub open spec fn parse_env_line_spec(line: Seq<char>) -> Option<(Seq<char>, Seq<char>)> {
    let l = strip_export(line);
    let eq = find_from(l, '=', 0);
    if eq >= l.len() {
        None
    } else {
        let key = trimmed(l.subrange(0, eq));
        if is_valid_key(key) {
            Some((key, strip_quotes_spec(l.subrange(eq + 1, l.len() as int))))
        } else {
            None
        }
    }
}

/// Parses a single line from an environment file; returns the key and value
/// if the line is a valid definition.
pub fn parse_env_line(line: &str) -> (r: Option<(String, String)>)
    ensures
        r is Some <==> parse_env_line_spec(line@) is Some,
        r matches Some(kv) ==> parse_env_line_spec(line@) matches Some(s) && kv.0@ == s.0
            && kv.1@ == s.1,
{
    let chars = to_char_vec(line);
    let l = if lit_at_pos(&chars, 0, "export ") {
        proof {
            reveal_strlit("export ");
            assert(chars@.len() >= 7);
        }
        let v = vec_range(&chars, 7, chars.len());
        proof {
            assert(v@ =~= strip_export(line@));
        }
        v
    } else {
        proof {
            assert(chars@ == strip_export(line@));
        }
        chars
    };
    proof {
        lemma_find_from(l@, '=', 0);
    }
    let eq = find_from_at(&l, '=', 0);
    if eq >= l.len() {
        return None;
    }
    let key_part = vec_range(&l, 0, eq);
    let (ka, kb) = trim_range(&key_part);
    let key = vec_range(&key_part, ka, kb);
    proof {
        assert(key@ == trimmed(l@.subrange(0, eq as int)));
    }
    // validity of the trimmed key
    if key.len() == 0 {
        return None;
    }
    let c0 = key[0];
    if !(crate::text::upper_char(c0) || crate::text::lower_char(c0) || c0 == '_') {
        return None;
    }
    let mut i: usize = 0;
    while i < key.len()
        invariant
            key@ == trimmed(l@.subrange(0, find_from(l@, '=', 0))),
            l@ == strip_export(line@),
            i <= key@.len(),
            forall|j: int| 0 <= j < i ==> is_word_char(#[trigger] key@[j]),
        decreases key@.len() - i,
    {
        if !crate::text::word_char(key[i]) {
            return None;
        }
        i = i + 1;
    }
    let value_part = vec_range(&l, eq + 1, l.len());
    let (va, vb) = trim_range(&value_part);
    let tv = vec_range(&value_part, va, vb);
    proof {
        assert(tv@ == trimmed(l@.subrange(eq + 1, l@.len() as int)));
    }
    let value = if tv.len() >= 2 && ((tv[0] == '"' && tv[tv.len() - 1] == '"') || (tv[0] == '\''
        && tv[tv.len() - 1] == '\'')) {
        string_from_range(&tv, 1, tv.len() - 1)
    } else {
        string_from_range(&tv, 0, tv.len())
    };
    let key_s = string_from_range(&key, 0, key.len());
    proof {
        assert(key_s@ =~= key@);
    }
    Some((key_s, value))
}

/// The definitions extracted from the physical lines of an environment file,
/// 1-indexed: blank lines, `#` comments, and non-conforming lines contribute
/// nothing.
pub open spec fn env_defs_from(lines: Seq<Seq<char>>, path: Seq<char>, i: int) -> Seq<DefView>
    decreases lines.len() - i when 0 <= i <= lines.len()
{
    if i >= lines.len() {
        Seq::empty()
    } else {
        let t = trimmed(lines[i]);
        let rest = env_defs_from(lines, path, i + 1);
        if t.len() == 0 || t[0] == '#' {
            rest
        } else {
            match parse_env_line_spec(t) {
                Some(kv) => seq![
                    DefView { name: kv.0, value: Some(kv.1), source_file: path, line: i + 1 },
                ] + rest,
                None => rest,
            }
        }
    }
}

/// The definitions extracted from the text of an environment file.
pub open spec fn env_defs_of(text: Seq<char>, path: Seq<char>) -> Seq<DefView> {
    env_defs_from(lines_of(text), path, 0)
}

/// Parses the text of an environment file and extracts all variable
/// definitions, attributing each to `path` and its 1-based line number.
pub fn parse_env_text(content: &str, path: &str) -> (defs: Vec<EnvVarDefinition>)
    ensures
        defs.deep_view() == env_defs_of(content@, path@),
{
    let chars = to_char_vec(content);
    let lines = split_lines(&chars);
    let ghost lv = lines.deep_view();
    let mut defs: Vec<EnvVarDefinition> = Vec::new();
    proof {
        assert(defs.deep_view() + env_defs_from(lv, path@, 0) =~= env_defs_of(content@, path@));
    }
    let mut i: usize = 0;
    while i < lines.len()
        invariant
            lv == lines.deep_view(),
            lv == lines_of(content@),
            i <= lines@.len(),
            lines@.len() == lv.len(),
            defs.deep_view() + env_defs_from(lv, path@, i as int) == env_defs_of(content@, path@),
        decreases lines@.len() - i,
    {
        proof {
            assert(lines@[i as int].deep_view() == lv[i as int]);
            assert(lines@[i as int]@ == lv[i as int]);
        }
        let line = &lines[i];
        let (ta, tb) = trim_range(line);
        let t = vec_range(line, ta, tb);
        proof {
            assert(t@ == trimmed(lv[i as int]));
        }
        if !(t.len() == 0 || t[0] == '#') {
            let t_str = string_from_range(&t, 0, t.len());
            proof {
                assert(t_str@ =~= t@);
            }
            if let Some((key, value)) = parse_env_line(t_str.as_str()) {
                let def = EnvVarDefinition {
                    name: key,
                    value: Some(value),
                    source_file: path.to_owned(),
                    line: i + 1,
                };
                let ghost prior = defs.deep_view();
                defs.push(def);
                proof {
                    assert(defs.deep_view() =~= prior.push(def@));
                    assert(env_defs_from(lv, path@, i as int) =~= seq![def@] + env_defs_from(
                        lv,
                        path@,
                        i + 1,
                    ));
                    assert(defs.deep_view() + env_defs_from(lv, path@, i + 1) =~= env_defs_of(
                        content@,
                        path@,
                    ));
                }
            }
        }
        i = i + 1;
    }
    proof {
        assert(defs.deep_view() =~= env_defs_of(content@, path@));
    }
    defs
}

} // verus!
