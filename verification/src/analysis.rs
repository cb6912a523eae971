//! Cross-reference analysis: reconciles definition facts and usage facts into
//! missing, unused, and naming findings, merged and sorted.

pub mod missing;
pub mod naming;
pub mod unused;

pub use missing::find_missing_vars;
pub use naming::find_naming_issues;
pub use unused::find_unused_vars;

use vstd::prelude::*;

use crate::config::Config;
use crate::rules::{all_rules_spec, get_all_rules};
use crate::text::lex_lt;
use crate::types::{
    severity_rank, DefView, EnvVarDefinition, EnvVarUsage, Issue, IssueView, Location, LocView,
    UsageView,
};

verus! {

/// The names of a definition sequence, in order, with duplicates.
pub open spec fn def_names(defs: Seq<DefView>) -> Seq<Seq<char>> {
    defs.map_values(|d: DefView| d.name)
}

/// The names of a usage sequence, in order, with duplicates.
pub open spec fn usage_names(us: Seq<UsageView>) -> Seq<Seq<char>> {
    us.map_values(|u: UsageView| u.name)
}

/// The set of defined names.
pub open spec fn def_name_set(defs: Seq<DefView>) -> Set<Seq<char>> {
    def_names(defs).to_set()
}

/// The set of used names.
pub open spec fn usage_name_set(us: Seq<UsageView>) -> Set<Seq<char>> {
    usage_names(us).to_set()
}

/// Whether some string of `names` spells `x`.
pub fn names_contain(names: &Vec<String>, x: &String) -> (b: bool)
    ensures
        b == names.deep_view().contains(x@),
{
    let mut i: usize = 0;
    while i < names.len()
        invariant
            i <= names@.len(),
            names.deep_view().len() == names@.len(),
            forall|j: int| 0 <= j < i ==> names.deep_view()[j] != x@,
        decreases names@.len() - i,
    {
        proof {
            assert(names.deep_view()[i as int] == names@[i as int]@);
        }
        if names[i] == *x {
            return true;
        }
        i = i + 1;
    }
    proof {
        if names.deep_view().contains(x@) {
            let j = choose|j: int|
                0 <= j < names.deep_view().len() && names.deep_view()[j] == x@;
        }
    }
    false
}

/// The names of the definitions, as strings.
pub fn collect_def_names(defs: &Vec<EnvVarDefinition>) -> (r: Vec<String>)
    ensures
        r.deep_view() == def_names(defs.deep_view()),
{
    let mut r: Vec<String> = Vec::new();
    let mut i: usize = 0;
    while i < defs.len()
        invariant
            i <= defs@.len(),
            r.deep_view() == def_names(defs.deep_view().take(i as int)),
        decreases defs@.len() - i,
    {
        let ghost prior = r.deep_view();
        r.push(defs[i].name.clone());
        i = i + 1;
        proof {
            assert(r.deep_view() =~= prior.push(defs.deep_view()[i - 1].name));
            assert(r.deep_view() =~= def_names(defs.deep_view().take(i as int)));
        }
    }
    proof {
        assert(defs.deep_view().take(defs.deep_view().len() as int) =~= defs.deep_view());
        assert(r.deep_view() =~= def_names(defs.deep_view()));
    }
    r
}

/// The names of the usages, as strings.
pub fn collect_usage_names(us: &Vec<EnvVarUsage>) -> (r: Vec<String>)
    ensures
        r.deep_view() == usage_names(us.deep_view()),
{
    let mut r: Vec<String> = Vec::new();
    let mut i: usize = 0;
    while i < us.len()
        invariant
            i <= us@.len(),
            r.deep_view() == usage_names(us.deep_view().take(i as int)),
        decreases us@.len() - i,
    {
        let ghost prior = r.deep_view();
        r.push(us[i].name.clone());
        i = i + 1;
        proof {
            assert(r.deep_view() =~= prior.push(us.deep_view()[i - 1].name));
            assert(r.deep_view() =~= usage_names(us.deep_view().take(i as int)));
        }
    }
    proof {
        assert(us.deep_view().take(us.deep_view().len() as int) =~= us.deep_view());
        assert(r.deep_view() =~= usage_names(us.deep_view()));
    }
    r
}

/// The elements of `names` that do not occur in `excluded`, in order.
pub open spec fn names_not_in(names: Seq<Seq<char>>, excluded: Seq<Seq<char>>) -> Seq<Seq<char>>
    decreases names.len(),
{
    if names.len() == 0 {
        Seq::empty()
    } else {
        let rest = names_not_in(names.drop_last(), excluded);
        if excluded.contains(names.last()) {
            rest
        } else {
            rest.push(names.last())
        }
    }
}

/// Collects the distinct elements of `names`, each at its first occurrence.
pub fn distinct_names(names: &Vec<String>) -> (r: Vec<String>)
    ensures
        r.deep_view() == crate::text::first_occurrences(names.deep_view()),
{
    let ghost nv = names.deep_view();
    let mut r: Vec<String> = Vec::new();
    let mut i: usize = 0;
    proof {
        assert(nv.take(0) =~= Seq::<Seq<char>>::empty());
    }
    while i < names.len()
        invariant
            nv == names.deep_view(),
            i <= names@.len(),
            nv.len() == names@.len(),
            r.deep_view() == crate::text::first_occurrences(nv.take(i as int)),
        decreases names@.len() - i,
    {
        proof {
            assert(names@[i as int]@ == nv[i as int]);
        }
        let ghost prior = r.deep_view();
        if !names_contain(&r, &names[i]) {
            r.push(names[i].clone());
            proof {
                assert(r.deep_view() =~= prior.push(nv[i as int]));
            }
        }
        i = i + 1;
        proof {
            assert(nv.take(i as int).drop_last() =~= nv.take(i - 1));
            assert(nv.take(i as int).last() == nv[i - 1]);
            assert(r.deep_view() =~= crate::text::first_occurrences(nv.take(i as int)));
        }
    }
    proof {
        assert(nv.take(nv.len() as int) =~= nv);
    }
    r
}

/// Keeps the elements of `names` that do not occur among `excluded`.
pub fn filter_names_not_in(names: &Vec<String>, excluded: &Vec<String>) -> (r: Vec<String>)
    ensures
        r.deep_view() == names_not_in(names.deep_view(), excluded.deep_view()),
{
    let ghost nv = names.deep_view();
    let ghost ev = excluded.deep_view();
    let mut r: Vec<String> = Vec::new();
    let mut i: usize = 0;
    proof {
        assert(nv.take(0) =~= Seq::<Seq<char>>::empty());
    }
    while i < names.len()
        invariant
            nv == names.deep_view(),
            ev == excluded.deep_view(),
            i <= names@.len(),
            nv.len() == names@.len(),
            r.deep_view() == names_not_in(nv.take(i as int), ev),
        decreases names@.len() - i,
    {
        proof {
            assert(names@[i as int]@ == nv[i as int]);
        }
        let ghost prior = r.deep_view();
        if !names_contain(excluded, &names[i]) {
            r.push(names[i].clone());
            proof {
                assert(r.deep_view() =~= prior.push(nv[i as int]));
            }
        }
        i = i + 1;
        proof {
            assert(nv.take(i as int).drop_last() =~= nv.take(i - 1));
            assert(nv.take(i as int).last() == nv[i - 1]);
            assert(r.deep_view() =~= names_not_in(nv.take(i as int), ev));
        }
    }
    proof {
        assert(nv.take(nv.len() as int) =~= nv);
    }
    r
}

/// A name survives the exclusion filter exactly when it occurs in `names`
/// and not in `excluded`.
pub proof fn lemma_names_not_in_contains(
    names: Seq<Seq<char>>,
    excluded: Seq<Seq<char>>,
    x: Seq<char>,
)
    ensures
        names_not_in(names, excluded).contains(x) <==> names.contains(x) && !excluded.contains(x),
    decreases names.len(),
{
    if names.len() > 0 {
        let prefix = names.drop_last();
        lemma_names_not_in_contains(prefix, excluded, x);
        let rest = names_not_in(prefix, excluded);
        if names.contains(x) {
            let i = choose|i: int| 0 <= i < names.len() && names[i] == x;
            if i < names.len() - 1 {
                assert(prefix[i] == x);
                assert(prefix.contains(x));
            } else {
                assert(names.last() == x);
            }
        } else {
            assert(!prefix.contains(x)) by {
                if prefix.contains(x) {
                    let j = choose|j: int| 0 <= j < prefix.len() && prefix[j] == x;
                    assert(names[j] == x);
                }
            }
            assert(names.last() != x) by {
                if names.last() == x {
                    assert(names[names.len() - 1] == x);
                }
            }
        }
        if !excluded.contains(names.last()) {
            let pushed = rest.push(names.last());
            assert forall|y: Seq<char>| pushed.contains(y) implies rest.contains(y) || y
                == names.last() by {
                let j = choose|j: int| 0 <= j < pushed.len() && pushed[j] == y;
                if j < rest.len() {
                    assert(rest[j] == y);
                }
            }
            if rest.contains(x) {
                let j = choose|j: int| 0 <= j < rest.len() && rest[j] == x;
                assert(pushed[j] == x);
            }
            if names.last() == x {
                assert(pushed[rest.len() as int] == x);
            }
        }
    }
}

/// The variable names carried by a sequence of issues.
pub open spec fn issue_names(issues: Seq<IssueView>) -> Seq<Seq<char>> {
    issues.map_values(|i: IssueView| i.var_name)
}

/// The missing findings name exactly the used-but-undefined names, and the
/// unused findings exactly the defined-but-unused names; each is a set
/// difference of the two name sets, so the element order and multiplicity of
/// the definition and usage facts do not matter.
pub proof fn lemma_missing_unused_name_sets(defs: Seq<DefView>, us: Seq<UsageView>)
    ensures
        issue_names(missing::missing_issues_spec(defs, us)).to_set() =~= usage_name_set(
            us,
        ).difference(def_name_set(defs)),
        issue_names(unused::unused_issues_spec(defs, us)).to_set() =~= def_name_set(
            defs,
        ).difference(usage_name_set(us)),
{
    let mnames = missing::missing_names(defs, us);
    assert(issue_names(missing::missing_issues_spec(defs, us)) =~= mnames);
    assert forall|x: Seq<char>| #[trigger] mnames.to_set().contains(x) <==> usage_name_set(
        us,
    ).difference(def_name_set(defs)).contains(x) by {
        lemma_names_not_in_contains(
            crate::text::first_occurrences(usage_names(us)),
            def_names(defs),
            x,
        );
        crate::text::lemma_first_occurrences_contains(usage_names(us), x);
    }
    let wnames = unused::unused_names(defs, us);
    assert(issue_names(unused::unused_issues_spec(defs, us)) =~= wnames);
    assert forall|x: Seq<char>| #[trigger] wnames.to_set().contains(x) <==> def_name_set(
        defs,
    ).difference(usage_name_set(us)).contains(x) by {
        lemma_names_not_in_contains(
            crate::text::first_occurrences(def_names(defs)),
            usage_names(us),
            x,
        );
        crate::text::lemma_first_occurrences_contains(def_names(defs), x);
    }
}

/// Whatever names appear in two fact sets, only their name sets decide which
/// names the missing and unused findings report.
pub proof fn lemma_name_sets_decide_missing_unused(
    d1: Seq<DefView>,
    u1: Seq<UsageView>,
    d2: Seq<DefView>,
    u2: Seq<UsageView>,
)
    requires
        def_name_set(d1) == def_name_set(d2),
        usage_name_set(u1) == usage_name_set(u2),
    ensures
        issue_names(missing::missing_issues_spec(d1, u1)).to_set() == issue_names(
            missing::missing_issues_spec(d2, u2),
        ).to_set(),
        issue_names(unused::unused_issues_spec(d1, u1)).to_set() == issue_names(
            unused::unused_issues_spec(d2, u2),
        ).to_set(),
{
    lemma_missing_unused_name_sets(d1, u1);
    lemma_missing_unused_name_sets(d2, u2);
}

/// When the defined names and the used names coincide as sets, the missing
/// and unused findings are empty, whatever duplicates either side holds.
pub proof fn lemma_balanced_names_yield_no_issues(defs: Seq<DefView>, us: Seq<UsageView>)
    requires
        def_name_set(defs) == usage_name_set(us),
    ensures
        missing::missing_issues_spec(defs, us) =~= Seq::<IssueView>::empty(),
        unused::unused_issues_spec(defs, us) =~= Seq::<IssueView>::empty(),
{
    let mnames = missing::missing_names(defs, us);
    assert(mnames.len() == 0) by {
        if mnames.len() > 0 {
            let x = mnames[0];
            assert(mnames.contains(x));
            lemma_names_not_in_contains(
                crate::text::first_occurrences(usage_names(us)),
                def_names(defs),
                x,
            );
            crate::text::lemma_first_occurrences_contains(usage_names(us), x);
            assert(usage_name_set(us).contains(x));
            assert(def_name_set(defs).contains(x));
        }
    }
    assert(missing::missing_issues_spec(defs, us) =~= Seq::<IssueView>::empty());
    let wnames = unused::unused_names(defs, us);
    assert(wnames.len() == 0) by {
        if wnames.len() > 0 {
            let x = wnames[0];
            assert(wnames.contains(x));
            lemma_names_not_in_contains(
                crate::text::first_occurrences(def_names(defs)),
                usage_names(us),
                x,
            );
            crate::text::lemma_first_occurrences_contains(def_names(defs), x);
            assert(def_name_set(defs).contains(x));
            assert(usage_name_set(us).contains(x));
        }
    }
    assert(unused::unused_issues_spec(defs, us) =~= Seq::<IssueView>::empty());
}

/// The elements of `names` that also occur in `within`, in order.
pub open spec fn names_also_in(names: Seq<Seq<char>>, within: Seq<Seq<char>>) -> Seq<Seq<char>>
    decreases names.len(),
{
    if names.len() == 0 {
        Seq::empty()
    } else {
        let rest = names_also_in(names.drop_last(), within);
        if within.contains(names.last()) {
            rest.push(names.last())
        } else {
            rest
        }
    }
}

/// Keeps the elements of `names` that occur among `within`.
fn filter_names_in(names: &Vec<String>, within: &Vec<String>) -> (r: Vec<String>)
    ensures
        r.deep_view() == names_also_in(names.deep_view(), within.deep_view()),
{
    let ghost nv = names.deep_view();
    let ghost wv = within.deep_view();
    let mut r: Vec<String> = Vec::new();
    let mut i: usize = 0;
    proof {
        assert(nv.take(0) =~= Seq::<Seq<char>>::empty());
    }
    while i < names.len()
        invariant
            nv == names.deep_view(),
            wv == within.deep_view(),
            i <= names@.len(),
            nv.len() == names@.len(),
            r.deep_view() == names_also_in(nv.take(i as int), wv),
        decreases names@.len() - i,
    {
        proof {
            assert(names@[i as int]@ == nv[i as int]);
        }
        let ghost prior = r.deep_view();
        if names_contain(within, &names[i]) {
            r.push(names[i].clone());
            proof {
                assert(r.deep_view() =~= prior.push(nv[i as int]));
            }
        }
        i = i + 1;
        proof {
            assert(nv.take(i as int).drop_last() =~= nv.take(i - 1));
            assert(nv.take(i as int).last() == nv[i - 1]);
            assert(r.deep_view() =~= names_also_in(nv.take(i as int), wv));
        }
    }
    proof {
        assert(nv.take(nv.len() as int) =~= nv);
    }
    r
}

/// The names only the first definition set holds, in first-occurrence order.
pub open spec fn only_in_first(d1: Seq<DefView>, d2: Seq<DefView>) -> Seq<Seq<char>> {
    names_not_in(crate::text::first_occurrences(def_names(d1)), def_names(d2))
}

/// The names both definition sets hold, in first-occurrence order of the
/// first set.
pub open spec fn in_both(d1: Seq<DefView>, d2: Seq<DefView>) -> Seq<Seq<char>> {
    names_also_in(crate::text::first_occurrences(def_names(d1)), def_names(d2))
}

/// Compares two definition sets by name: the names only the first holds, the
/// names only the second holds, and the names both hold, each distinct and in
/// first-occurrence order.
pub fn compare_definitions(defs1: &Vec<EnvVarDefinition>, defs2: &Vec<EnvVarDefinition>) -> (r: (
    Vec<String>,
    Vec<String>,
    Vec<String>,
))
    ensures
        r.0.deep_view() == only_in_first(defs1.deep_view(), defs2.deep_view()),
        r.1.deep_view() == only_in_first(defs2.deep_view(), defs1.deep_view()),
        r.2.deep_view() == in_both(defs1.deep_view(), defs2.deep_view()),
{
    let names1 = collect_def_names(defs1);
    let names2 = collect_def_names(defs2);
    let distinct1 = distinct_names(&names1);
    let distinct2 = distinct_names(&names2);
    let only1 = filter_names_not_in(&distinct1, &names2);
    let only2 = filter_names_not_in(&distinct2, &names1);
    let both = filter_names_in(&distinct1, &names2);
    (only1, only2, both)
}

/// Strict order on optional integers: absent sorts first.
pub open spec fn opt_lt(a: Option<int>, b: Option<int>) -> bool {
    match (a, b) {
        (Option::None, Option::Some(_)) => true,
        (Option::Some(x), Option::Some(y)) => x < y,
        _ => false,
    }
}

/// Strict order on locations: by file, then line, and, when `with_column`
/// holds, by column.
pub open spec fn loc_lt(a: LocView, b: LocView, with_column: bool) -> bool {
    if a.file != b.file {
        lex_lt(a.file, b.file)
    } else if a.line != b.line {
        opt_lt(a.line, b.line)
    } else if with_column {
        a.column != b.column && opt_lt(a.column, b.column)
    } else {
        false
    }
}

fn opt_usize_lt(a: &Option<usize>, b: &Option<usize>) -> (r: bool)
    ensures
        r == opt_lt(
            match a {
                Some(x) => Some(*x as int),
                None => None,
            },
            match b {
                Some(y) => Some(*y as int),
                None => None,
            },
        ),
{
    match (a, b) {
        (None, Some(_)) => true,
        (Some(x), Some(y)) => *x < *y,
        _ => false,
    }
}

pub(crate) fn opt_usize_eq(a: &Option<usize>, b: &Option<usize>) -> (r: bool)
    ensures
        r == (match a {
            Some(x) => Some(*x as int),
            None => None::<int>,
        } == match b {
            Some(y) => Some(*y as int),
            None => None::<int>,
        }),
{
    match (a, b) {
        (None, None) => true,
        (Some(x), Some(y)) => *x == *y,
        _ => false,
    }
}

/// Decides `lex_lt` on two strings.
pub fn str_lex_lt(a: &str, b: &str) -> (r: bool)
    ensures
        r == lex_lt(a@, b@),
{
    let av = crate::text::to_char_vec(a);
    let bv = crate::text::to_char_vec(b);
    crate::text::lex_lt_vec(&av, &bv)
}

fn loc_lt_exec(a: &Location, b: &Location, with_column: bool) -> (r: bool)
    ensures
        r == loc_lt(a@, b@, with_column),
{
    let files_eq = a.file == b.file;
    if !files_eq {
        str_lex_lt(a.file.as_str(), b.file.as_str())
    } else if !opt_usize_eq(&a.line, &b.line) {
        opt_usize_lt(&a.line, &b.line)
    } else if with_column {
        !opt_usize_eq(&a.column, &b.column) && opt_usize_lt(&a.column, &b.column)
    } else {
        false
    }
}

/// `x` inserted into `s` after every element it is not strictly before.
pub open spec fn insert_loc(x: LocView, s: Seq<LocView>, with_column: bool) -> Seq<LocView>
    decreases s.len(),
{
    if s.len() == 0 {
        seq![x]
    } else if loc_lt(x, s[0], with_column) {
        seq![x] + s
    } else {
        seq![s[0]] + insert_loc(x, s.skip(1), with_column)
    }
}

/// Stable insertion sort of locations.
pub open spec fn sort_locs(s: Seq<LocView>, with_column: bool) -> Seq<LocView>
    decreases s.len(),
{
    if s.len() == 0 {
        Seq::empty()
    } else {
        insert_loc(s.last(), sort_locs(s.drop_last(), with_column), with_column)
    }
}

proof fn lemma_insert_loc_at(x: LocView, s: Seq<LocView>, j: int, with_column: bool)
    requires
        0 <= j <= s.len(),
        forall|k: int| 0 <= k < j ==> !loc_lt(x, #[trigger] s[k], with_column),
        j < s.len() ==> loc_lt(x, s[j], with_column),
    ensures
        insert_loc(x, s, with_column) == s.take(j) + seq![x] + s.skip(j),
    decreases s.len(),
{
    if s.len() == 0 {
        assert(insert_loc(x, s, with_column) =~= s.take(j) + seq![x] + s.skip(j));
    } else if loc_lt(x, s[0], with_column) {
        assert(j == 0);
        assert(insert_loc(x, s, with_column) =~= s.take(0) + seq![x] + s.skip(0));
    } else {
        assert(j >= 1);
        let s1 = s.skip(1);
        assert(forall|k: int| 0 <= k < j - 1 ==> !loc_lt(x, #[trigger] s1[k], with_column));
        lemma_insert_loc_at(x, s1, j - 1, with_column);
        assert(insert_loc(x, s, with_column) =~= s.take(j) + seq![x] + s.skip(j));
    }
}

/// Sorts locations by file, line, and (optionally) column; elements that
/// compare equal keep their relative order.
pub fn sort_locations(v: Vec<Location>, with_column: bool) -> (r: Vec<Location>)
    ensures
        r.deep_view() == sort_locs(v.deep_view(), with_column),
{
    let ghost orig = v.deep_view();
    let mut out: Vec<Location> = Vec::new();
    let mut idx: usize = 0;
    proof {
        assert(orig.take(0) =~= Seq::<LocView>::empty());
    }
    while idx < v.len()
        invariant
            idx <= v@.len(),
            orig == v.deep_view(),
            orig.len() == v@.len(),
            out.deep_view() == sort_locs(orig.take(idx as int), with_column),
        decreases v@.len() - idx,
    {
        let x = v[idx].clone();
        proof {
            assert(x@ == v@[idx as int]@);
            assert(x@ == orig[idx as int]);
        }
        let mut j: usize = 0;
        while j < out.len() && !loc_lt_exec(&x, &out[j], with_column)
            invariant
                j <= out@.len(),
                out.deep_view().len() == out@.len(),
                forall|k: int| 0 <= k < j ==> !loc_lt(x@, #[trigger] out.deep_view()[k], with_column),
                j < out@.len() ==> out.deep_view()[j as int] == out@[j as int]@,
            decreases out@.len() - j,
        {
            j = j + 1;
            proof {
                if (j as int) < out@.len() {
                    assert(out.deep_view()[j as int] == out@[j as int]@);
                }
            }
        }
        let ghost sorted = out.deep_view();
        proof {
            if (j as int) < sorted.len() {
                assert(out.deep_view()[j as int] == out@[j as int]@);
            }
            lemma_insert_loc_at(x@, sorted, j as int, with_column);
        }
        out.insert(j, x);
        proof {
            assert(out.deep_view() =~= sorted.take(j as int) + seq![x@] + sorted.skip(j as int));
            assert(orig.take(idx + 1).drop_last() =~= orig.take(idx as int));
            assert(orig.take(idx + 1).last() == orig[idx as int]);
            assert(out.deep_view() =~= sort_locs(orig.take(idx + 1), with_column));
        }
        idx = idx + 1;
    }
    proof {
        assert(orig.take(idx as int) =~= orig);
    }
    out
}

/// Strict order on issues as the final report presents them: by severity
/// descending, then by variable name ascending.
pub open spec fn issue_lt(a: IssueView, b: IssueView) -> bool {
    ||| severity_rank(a.severity) > severity_rank(b.severity)
    ||| (a.severity == b.severity && lex_lt(a.var_name, b.var_name))
}

fn issue_lt_exec(a: &Issue, b: &Issue) -> (r: bool)
    ensures
        r == issue_lt(a@, b@),
{
    let ra = a.severity.rank();
    let rb = b.severity.rank();
    if ra > rb {
        true
    } else if ra == rb {
        proof {
            assert(a@.severity == b@.severity) by {
                crate::types::lemma_severity_rank_injective(a.severity, b.severity);
            }
        }
        str_lex_lt(a.var_name.as_str(), b.var_name.as_str())
    } else {
        false
    }
}

/// `x` inserted into `s` after every issue it is not strictly before.
pub open spec fn insert_issue(x: IssueView, s: Seq<IssueView>) -> Seq<IssueView>
    decreases s.len(),
{
    if s.len() == 0 {
        seq![x]
    } else if issue_lt(x, s[0]) {
        seq![x] + s
    } else {
        seq![s[0]] + insert_issue(x, s.skip(1))
    }
}

/// Stable insertion sort of issues.
pub open spec fn sort_issues_spec(s: Seq<IssueView>) -> Seq<IssueView>
    decreases s.len(),
{
    if s.len() == 0 {
        Seq::empty()
    } else {
        insert_issue(s.last(), sort_issues_spec(s.drop_last()))
    }
}

proof fn lemma_insert_issue_at(x: IssueView, s: Seq<IssueView>, j: int)
    requires
        0 <= j <= s.len(),
        forall|k: int| 0 <= k < j ==> !issue_lt(x, #[trigger] s[k]),
        j < s.len() ==> issue_lt(x, s[j]),
    ensures
        insert_issue(x, s) == s.take(j) + seq![x] + s.skip(j),
    decreases s.len(),
{
    if s.len() == 0 {
        assert(insert_issue(x, s) =~= s.take(j) + seq![x] + s.skip(j));
    } else if issue_lt(x, s[0]) {
        assert(j == 0);
        assert(insert_issue(x, s) =~= s.take(0) + seq![x] + s.skip(0));
    } else {
        assert(j >= 1);
        let s1 = s.skip(1);
        assert(forall|k: int| 0 <= k < j - 1 ==> !issue_lt(x, #[trigger] s1[k]));
        lemma_insert_issue_at(x, s1, j - 1);
        assert(insert_issue(x, s) =~= s.take(j) + seq![x] + s.skip(j));
    }
}

/// All issues of one analysis run: the missing, unused, and naming findings
/// merged and sorted by severity descending, ties broken by ascending
/// variable name. The result is a function of the facts, the rules, and the
/// ignore patterns alone: analyzing the same facts twice yields the same
/// issue sequence.
pub open spec fn analyze_spec(
    defs: Seq<DefView>,
    us: Seq<UsageView>,
    rules: Seq<crate::rules::RuleView>,
    pats: Seq<Seq<char>>,
) -> Seq<IssueView> {
    sort_issues_spec(
        missing::missing_issues_spec(defs, us) + unused::unused_issues_spec(defs, us)
            + naming::naming_issues_spec(defs, us, rules, pats),
    )
}

/// Run all analyses and return the combined, sorted issues.
pub fn analyze(
    definitions: &Vec<EnvVarDefinition>,
    usages: &Vec<EnvVarUsage>,
    config: &Config,
) -> (r: Vec<Issue>)
    ensures
        r.deep_view() == analyze_spec(
            definitions.deep_view(),
            usages.deep_view(),
            all_rules_spec(config.naming.builtin_rules, config.naming.custom_rules.deep_view()),
            config.naming.ignore_patterns.deep_view(),
        ),
{
    let ghost dv = definitions.deep_view();
    let ghost uv = usages.deep_view();
    let mut issues = missing::find_missing_vars(definitions, usages);
    let mut unused_issues = unused::find_unused_vars(definitions, usages);
    let rules = get_all_rules(config);
    let mut naming_issues = naming::find_naming_issues(
        definitions,
        usages,
        &rules,
        &config.naming.ignore_patterns,
    );
    let ghost mi = issues.deep_view();
    let ghost ui = unused_issues.deep_view();
    let ghost ni = naming_issues.deep_view();
    issues.append(&mut unused_issues);
    proof {
        assert(issues.deep_view() =~= mi + ui);
    }
    issues.append(&mut naming_issues);
    proof {
        assert(issues.deep_view() =~= mi + ui + ni);
    }
    sort_issues(issues)
}

/// The report's presentation order: no later issue comes strictly before an
/// earlier one, by severity descending with ties broken by ascending variable
/// name.
pub open spec fn issues_ordered(s: Seq<IssueView>) -> bool {
    forall|i: int, j: int| 0 <= i < j < s.len() ==> !issue_lt(#[trigger] s[j], #[trigger] s[i])
}

proof fn lemma_issue_lt_irrefl(a: IssueView)
    ensures
        !issue_lt(a, a),
{
    crate::text::lemma_lex_lt_irrefl(a.var_name);
}

proof fn lemma_issue_lt_trans(a: IssueView, b: IssueView, c: IssueView)
    requires
        issue_lt(a, b),
        issue_lt(b, c),
    ensures
        issue_lt(a, c),
{
    if a.severity == b.severity && b.severity == c.severity {
        crate::text::lemma_lex_lt_trans(a.var_name, b.var_name, c.var_name);
    }
}

proof fn lemma_insert_issue_elems(x: IssueView, s: Seq<IssueView>, e: IssueView)
    requires
        insert_issue(x, s).contains(e),
    ensures
        e == x || s.contains(e),
    decreases s.len(),
{
    let r = insert_issue(x, s);
    let j = choose|j: int| 0 <= j < r.len() && r[j] == e;
    if s.len() == 0 {
    } else if issue_lt(x, s[0]) {
        if j > 0 {
            assert(s[j - 1] == e);
        }
    } else {
        if j == 0 {
            assert(s[0] == e);
        } else {
            let t = insert_issue(x, s.skip(1));
            assert(t[j - 1] == e);
            assert(t.contains(e));
            lemma_insert_issue_elems(x, s.skip(1), e);
            if s.skip(1).contains(e) {
                let k = choose|k: int| 0 <= k < s.skip(1).len() && s.skip(1)[k] == e;
                assert(s[k + 1] == e);
            }
        }
    }
}

proof fn lemma_insert_issue_ordered(x: IssueView, s: Seq<IssueView>)
    requires
        issues_ordered(s),
    ensures
        issues_ordered(insert_issue(x, s)),
    decreases s.len(),
{
    if s.len() == 0 {
    } else if issue_lt(x, s[0]) {
        let r = seq![x] + s;
        assert forall|i: int, j: int| 0 <= i < j < r.len() implies !issue_lt(r[j], r[i]) by {
            if i == 0 {
                if issue_lt(r[j], x) {
                    lemma_issue_lt_trans(r[j], x, s[0]);
                    if j == 1 {
                        lemma_issue_lt_irrefl(s[0]);
                    } else {
                        assert(r[j] == s[j - 1]);
                        assert(!issue_lt(s[j - 1], s[0]));
                    }
                }
            } else {
                assert(r[i] == s[i - 1] && r[j] == s[j - 1]);
                assert(!issue_lt(s[j - 1], s[i - 1]));
            }
        }
    } else {
        let s1 = s.skip(1);
        assert(issues_ordered(s1)) by {
            assert forall|i: int, j: int| 0 <= i < j < s1.len() implies !issue_lt(
                s1[j],
                s1[i],
            ) by {
                assert(s1[i] == s[i + 1] && s1[j] == s[j + 1]);
                assert(!issue_lt(s[j + 1], s[i + 1]));
            }
        }
        lemma_insert_issue_ordered(x, s1);
        let t = insert_issue(x, s1);
        let r = seq![s[0]] + t;
        assert forall|i: int, j: int| 0 <= i < j < r.len() implies !issue_lt(r[j], r[i]) by {
            if i == 0 {
                let e = r[j];
                assert(t[j - 1] == e);
                assert(t.contains(e));
                lemma_insert_issue_elems(x, s1, e);
                if e == x {
                    assert(!issue_lt(x, s[0]));
                } else {
                    let k = choose|k: int| 0 <= k < s1.len() && s1[k] == e;
                    assert(s[k + 1] == e);
                    assert(!issue_lt(s[k + 1], s[0]));
                }
            } else {
                assert(r[i] == t[i - 1] && r[j] == t[j - 1]);
                assert(!issue_lt(t[j - 1], t[i - 1]));
            }
        }
    }
}

proof fn lemma_sort_issues_ordered(s: Seq<IssueView>)
    ensures
        issues_ordered(sort_issues_spec(s)),
    decreases s.len(),
{
    if s.len() > 0 {
        lemma_sort_issues_ordered(s.drop_last());
        lemma_insert_issue_ordered(s.last(), sort_issues_spec(s.drop_last()));
    }
}

/// The analyzer's issue list is sorted for presentation: severity descending,
/// ties broken by ascending variable name.
pub proof fn lemma_analyze_spec_ordered(
    defs: Seq<DefView>,
    us: Seq<UsageView>,
    rules: Seq<crate::rules::RuleView>,
    pats: Seq<Seq<char>>,
)
    ensures
        issues_ordered(analyze_spec(defs, us, rules, pats)),
{
    lemma_sort_issues_ordered(
        missing::missing_issues_spec(defs, us) + unused::unused_issues_spec(defs, us)
            + naming::naming_issues_spec(defs, us, rules, pats),
    );
}

/// Sorts issues by severity descending, then variable name ascending; issues
/// that compare equal keep their relative order.
pub fn sort_issues(v: Vec<Issue>) -> (r: Vec<Issue>)
    ensures
        r.deep_view() == sort_issues_spec(v.deep_view()),
{
    let ghost orig = v.deep_view();
    let mut out: Vec<Issue> = Vec::new();
    let mut idx: usize = 0;
    proof {
        assert(orig.take(0) =~= Seq::<IssueView>::empty());
    }
    while idx < v.len()
        invariant
            idx <= v@.len(),
            orig == v.deep_view(),
            orig.len() == v@.len(),
            out.deep_view() == sort_issues_spec(orig.take(idx as int)),
        decreases v@.len() - idx,
    {
        let x = v[idx].clone();
        proof {
            assert(x@ == v@[idx as int]@);
            assert(x@ == orig[idx as int]);
        }
        let mut j: usize = 0;
        while j < out.len() && !issue_lt_exec(&x, &out[j])
            invariant
                j <= out@.len(),
                out.deep_view().len() == out@.len(),
                forall|k: int| 0 <= k < j ==> !issue_lt(x@, #[trigger] out.deep_view()[k]),
                j < out@.len() ==> out.deep_view()[j as int] == out@[j as int]@,
            decreases out@.len() - j,
        {
            j = j + 1;
            proof {
                if (j as int) < out@.len() {
                    assert(out.deep_view()[j as int] == out@[j as int]@);
                }
            }
        }
        let ghost sorted = out.deep_view();
        proof {
            if (j as int) < sorted.len() {
                assert(out.deep_view()[j as int] == out@[j as int]@);
            }
            lemma_insert_issue_at(x@, sorted, j as int);
        }
        out.insert(j, x);
        proof {
            assert(out.deep_view() =~= sorted.take(j as int) + seq![x@] + sorted.skip(j as int));
            assert(orig.take(idx + 1).drop_last() =~= orig.take(idx as int));
            assert(orig.take(idx + 1).last() == orig[idx as int]);
            assert(out.deep_view() =~= sort_issues_spec(orig.take(idx + 1)));
        }
        idx = idx + 1;
    }
    proof {
        assert(orig.take(idx as int) =~= orig);
    }
    out
}

} // verus!
