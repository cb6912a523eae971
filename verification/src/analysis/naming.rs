//! Naming findings: alternative names that appear among the facts and should
//! be replaced by a rule's preferred name, unless an ignore pattern matches
//! them.

use vstd::prelude::*;
use vstd::string::StringExecFns;

use super::missing::usage_locations;
use super::unused::def_locations;
use super::{
    collect_def_names, collect_usage_names, def_names, names_contain, sort_locations, sort_locs,
    usage_names,
};
use crate::rules::{NamingRule, RuleView};
use crate::types::{
    DefView, EnvVarDefinition, EnvVarUsage, Issue, IssueKind, IssueView, Location, LocView,
    UsageView,
};

verus! {

/// Whether a regular expression matches somewhere in a text. The result is a
/// function of the pattern and the text alone; a pattern that does not
/// compile matches nothing.
pub uninterp spec fn regex_match(pattern: Seq<char>, text: Seq<char>) -> bool;

/// Relies on `regex::Regex::new` and `regex::Regex::is_match`: whether
/// `pattern` compiles and matches anywhere in `text`. Both are deterministic
/// in their string arguments, so the result is a function of the two strings;
/// a pattern that fails to compile is dropped, matching nothing.
#[verifier::external_body]
fn pattern_matches(pattern: &str, text: &str) -> (r: bool)
    ensures
        r == regex_match(pattern@, text@),
{
    match regex::Regex::new(pattern) {
        Ok(re) => re.is_match(text),
        Err(_) => false,
    }
}

/// Whether some ignore pattern matches the name.
pub open spec fn ignored(name: Seq<char>, pats: Seq<Seq<char>>) -> bool {
    exists|k: int| 0 <= k < pats.len() && regex_match(#[trigger] pats[k], name)
}

/// Decides `ignored` by testing each pattern.
fn is_ignored(name: &String, pats: &Vec<String>) -> (r: bool)
    ensures
        r == ignored(name@, pats.deep_view()),
{
    let mut k: usize = 0;
    while k < pats.len()
        invariant
            k <= pats@.len(),
            pats.deep_view().len() == pats@.len(),
            forall|j: int| 0 <= j < k ==> !regex_match(#[trigger] pats.deep_view()[j], name@),
        decreases pats@.len() - k,
    {
        proof {
            assert(pats.deep_view()[k as int] == pats@[k as int]@);
        }
        if pattern_matches(pats[k].as_str(), name.as_str()) {
            return true;
        }
        k = k + 1;
    }
    false
}

/// Whether two locations share file and line.
pub open spec fn same_fl(a: LocView, b: LocView) -> bool {
    a.file == b.file && a.line == b.line
}

fn same_fl_exec(a: &Location, b: &Location) -> (r: bool)
    ensures
        r == same_fl(a@, b@),
{
    a.file == b.file && super::opt_usize_eq(&a.line, &b.line)
}

/// The tail of deduplication: elements from `i` on, dropping each that shares
/// file and line with the last kept location.
pub open spec fn dedup_from(s: Seq<LocView>, i: int, last: LocView) -> Seq<LocView>
    decreases s.len() - i when 0 <= i <= s.len()
{
    if i >= s.len() {
        Seq::empty()
    } else if same_fl(s[i], last) {
        dedup_from(s, i + 1, last)
    } else {
        seq![s[i]] + dedup_from(s, i + 1, s[i])
    }
}

/// Deduplicates consecutive locations sharing file and line, keeping the
/// first of each run.
pub open spec fn dedup_fl(s: Seq<LocView>) -> Seq<LocView> {
    if s.len() == 0 {
        s
    } else {
        seq![s[0]] + dedup_from(s, 1, s[0])
    }
}

/// Removes consecutive locations sharing file and line, keeping the first.
fn dedup_locations(v: Vec<Location>) -> (r: Vec<Location>)
    ensures
        r.deep_view() == dedup_fl(v.deep_view()),
{
    let ghost orig = v.deep_view();
    let mut out: Vec<Location> = Vec::new();
    if v.len() == 0 {
        proof {
            assert(out.deep_view() =~= dedup_fl(orig));
        }
        return out;
    }
    let mut last = v[0].clone();
    let ghost mut lastv = orig[0];
    out.push(v[0].clone());
    let mut i: usize = 1;
    proof {
        assert(last@ == lastv);
        assert(out.deep_view() =~= seq![orig[0]]);
    }
    while i < v.len()
        invariant
            1 <= i <= v@.len(),
            orig == v.deep_view(),
            orig.len() == v@.len(),
            last@ == lastv,
            out.deep_view() + dedup_from(orig, i as int, lastv) == dedup_fl(orig),
        decreases v@.len() - i,
    {
        let x = v[i].clone();
        proof {
            assert(x@ == v@[i as int]@);
            assert(x@ == orig[i as int]);
        }
        if !same_fl_exec(&x, &last) {
            let ghost prior = out.deep_view();
            out.push(x.clone());
            last = x;
            proof {
                assert(out.deep_view() =~= prior.push(orig[i as int]));
                assert(dedup_from(orig, i as int, lastv) =~= seq![orig[i as int]] + dedup_from(
                    orig,
                    i + 1,
                    orig[i as int],
                ));
                assert(out.deep_view() + dedup_from(orig, i + 1, orig[i as int]) =~= dedup_fl(
                    orig,
                ));
                lastv = orig[i as int];
            }
        }
        i = i + 1;
    }
    proof {
        assert(out.deep_view() =~= dedup_fl(orig));
    }
    out
}

/// The locations reported for an alternative name: its definition locations
/// then its usage locations, sorted by file and line, deduplicated by file
/// and line.
pub open spec fn naming_locations(defs: Seq<DefView>, us: Seq<UsageView>, alt: Seq<char>) -> Seq<
    LocView,
> {
    dedup_fl(sort_locs(def_locations(defs, alt) + usage_locations(us, alt), false))
}

/// The issue reported for one alternative name under one rule.
pub open spec fn rule_alt_issue(
    defs: Seq<DefView>,
    us: Seq<UsageView>,
    rule: RuleView,
    alt: Seq<char>,
) -> IssueView {
    IssueView {
        kind: IssueKind::InconsistentNaming,
        severity: rule.severity,
        var_name: alt,
        message: "'"@ + alt + "' could be renamed to '"@ + rule.preferred + "' for consistency"@,
        locations: naming_locations(defs, us, alt),
        suggestion: Some(
            "Consider using '"@ + rule.preferred + "' instead of '"@ + alt + "'"@ + (
            match rule.description {
                Some(d) => " ("@ + d + ")"@,
                None => Seq::empty(),
            }),
        ),
    }
}

/// Whether `name` occurs among the defined or the used names.
pub open spec fn name_present(defs: Seq<DefView>, us: Seq<UsageView>, name: Seq<char>) -> bool {
    def_names(defs).contains(name) || usage_names(us).contains(name)
}

/// The alternatives of a rule that are present and not ignored, in rule
/// order.
pub open spec fn alts_to_report(
    alts: Seq<Seq<char>>,
    defs: Seq<DefView>,
    us: Seq<UsageView>,
    pats: Seq<Seq<char>>,
) -> Seq<Seq<char>>
    decreases alts.len(),
{
    if alts.len() == 0 {
        Seq::empty()
    } else {
        let rest = alts_to_report(alts.drop_last(), defs, us, pats);
        if name_present(defs, us, alts.last()) && !ignored(alts.last(), pats) {
            rest.push(alts.last())
        } else {
            rest
        }
    }
}

/// The issues of one rule, one per reported alternative.
pub open spec fn rule_issues_spec(
    defs: Seq<DefView>,
    us: Seq<UsageView>,
    rule: RuleView,
    pats: Seq<Seq<char>>,
) -> Seq<IssueView> {
    alts_to_report(rule.alternatives, defs, us, pats).map_values(
        |alt: Seq<char>| rule_alt_issue(defs, us, rule, alt),
    )
}

/// The naming issues of all rules from index `i` on, in rule order.
pub open spec fn naming_from(
    defs: Seq<DefView>,
    us: Seq<UsageView>,
    rules: Seq<RuleView>,
    pats: Seq<Seq<char>>,
    i: int,
) -> Seq<IssueView>
    decreases rules.len() - i when 0 <= i <= rules.len()
{
    if i >= rules.len() {
        Seq::empty()
    } else {
        rule_issues_spec(defs, us, rules[i], pats) + naming_from(defs, us, rules, pats, i + 1)
    }
}

/// The naming issues of all rules. Rules are independent: overlapping rules
/// may each report the same name.
pub open spec fn naming_issues_spec(
    defs: Seq<DefView>,
    us: Seq<UsageView>,
    rules: Seq<RuleView>,
    pats: Seq<Seq<char>>,
) -> Seq<IssueView> {
    naming_from(defs, us, rules, pats, 0)
}

/// Collects the definition locations then the usage locations of `alt`,
/// sorted by file and line and deduplicated.
fn collect_naming_locations(
    definitions: &Vec<EnvVarDefinition>,
    usages: &Vec<EnvVarUsage>,
    alt: &String,
) -> (r: Vec<Location>)
    ensures
        r.deep_view() == naming_locations(definitions.deep_view(), usages.deep_view(), alt@),
{
    let ghost dv = definitions.deep_view();
    let ghost uv = usages.deep_view();
    let mut locs: Vec<Location> = Vec::new();
    let mut i: usize = 0;
    proof {
        assert(dv.take(0) =~= Seq::<DefView>::empty());
    }
    while i < definitions.len()
        invariant
            dv == definitions.deep_view(),
            i <= definitions@.len(),
            dv.len() == definitions@.len(),
            locs.deep_view() == def_locations(dv.take(i as int), alt@),
        decreases definitions@.len() - i,
    {
        proof {
            assert(definitions@[i as int]@ == dv[i as int]);
        }
        let ghost prior = locs.deep_view();
        let d = &definitions[i];
        if d.name == *alt {
            locs.push(Location { file: d.source_file.clone(), line: Some(d.line), column: None });
            proof {
                assert(locs.deep_view() =~= prior.push(super::unused::loc_of_def(dv[i as int])));
            }
        }
        i = i + 1;
        proof {
            assert(dv.take(i as int).drop_last() =~= dv.take(i - 1));
            assert(dv.take(i as int).last() == dv[i - 1]);
            assert(locs.deep_view() =~= def_locations(dv.take(i as int), alt@));
        }
    }
    proof {
        assert(dv.take(dv.len() as int) =~= dv);
    }
    let ghost dlocs = def_locations(dv, alt@);
    let mut j: usize = 0;
    proof {
        assert(uv.take(0) =~= Seq::<UsageView>::empty());
        assert(locs.deep_view() =~= dlocs + usage_locations(uv.take(0), alt@));
    }
    while j < usages.len()
        invariant
            uv == usages.deep_view(),
            j <= usages@.len(),
            uv.len() == usages@.len(),
            locs.deep_view() == dlocs + usage_locations(uv.take(j as int), alt@),
        decreases usages@.len() - j,
    {
        proof {
            assert(usages@[j as int]@ == uv[j as int]);
        }
        let ghost prior = locs.deep_view();
        let u = &usages[j];
        if u.name == *alt {
            locs.push(
                Location { file: u.file_path.clone(), line: Some(u.line), column: Some(u.column) },
            );
            proof {
                assert(locs.deep_view() =~= prior.push(
                    super::missing::loc_of_usage(uv[j as int]),
                ));
            }
        }
        j = j + 1;
        proof {
            assert(uv.take(j as int).drop_last() =~= uv.take(j - 1));
            assert(uv.take(j as int).last() == uv[j - 1]);
            assert(locs.deep_view() =~= dlocs + usage_locations(uv.take(j as int), alt@));
        }
    }
    proof {
        assert(uv.take(uv.len() as int) =~= uv);
        assert(locs.deep_view() =~= def_locations(dv, alt@) + usage_locations(uv, alt@));
    }
    let sorted = sort_locations(locs, false);
    dedup_locations(sorted)
}

/// Find environment variables whose names conflict with the naming rules.
/// For each rule, each alternative name that appears among the defined or
/// used names and matches no ignore pattern yields one issue.
pub fn find_naming_issues(
    definitions: &Vec<EnvVarDefinition>,
    usages: &Vec<EnvVarUsage>,
    rules: &Vec<NamingRule>,
    ignore_patterns: &Vec<String>,
) -> (r: Vec<Issue>)
    ensures
        r.deep_view() == naming_issues_spec(
            definitions.deep_view(),
            usages.deep_view(),
            rules.deep_view(),
            ignore_patterns.deep_view(),
        ),
{
    let ghost dv = definitions.deep_view();
    let ghost uv = usages.deep_view();
    let ghost rv = rules.deep_view();
    let ghost pv = ignore_patterns.deep_view();
    let dnames = collect_def_names(definitions);
    let unames = collect_usage_names(usages);
    let mut issues: Vec<Issue> = Vec::new();
    let mut ri: usize = 0;
    proof {
        assert(issues.deep_view() + naming_from(dv, uv, rv, pv, 0) =~= naming_issues_spec(
            dv,
            uv,
            rv,
            pv,
        ));
    }
    while ri < rules.len()
        invariant
            dv == definitions.deep_view(),
            uv == usages.deep_view(),
            rv == rules.deep_view(),
            pv == ignore_patterns.deep_view(),
            dnames.deep_view() == def_names(dv),
            unames.deep_view() == usage_names(uv),
            ri <= rules@.len(),
            rv.len() == rules@.len(),
            issues.deep_view() + naming_from(dv, uv, rv, pv, ri as int) == naming_issues_spec(
                dv,
                uv,
                rv,
                pv,
            ),
        decreases rules@.len() - ri,
    {
        proof {
            assert(rules@[ri as int]@ == rv[ri as int]);
        }
        let rule = &rules[ri];
        let ghost rw = rv[ri as int];
        // which alternatives this rule reports
        let mut kept: Vec<String> = Vec::new();
        let mut ai: usize = 0;
        proof {
            assert(rw.alternatives.take(0) =~= Seq::<Seq<char>>::empty());
            assert(kept.deep_view() =~= alts_to_report(rw.alternatives.take(0), dv, uv, pv));
        }
        while ai < rule.alternatives.len()
            invariant
                dv == definitions.deep_view(),
                uv == usages.deep_view(),
                pv == ignore_patterns.deep_view(),
                dnames.deep_view() == def_names(dv),
                unames.deep_view() == usage_names(uv),
                rw == rules@[ri as int]@,
                ri < rules@.len(),
                rule@ == rw,
                ai <= rule.alternatives@.len(),
                rw.alternatives.len() == rule.alternatives@.len(),
                kept.deep_view() == alts_to_report(rw.alternatives.take(ai as int), dv, uv, pv),
            decreases rule.alternatives@.len() - ai,
        {
            proof {
                assert(rule.alternatives@[ai as int]@ == rw.alternatives[ai as int]);
            }
            let alt = &rule.alternatives[ai];
            let ghost prior = kept.deep_view();
            let present = names_contain(&dnames, alt) || names_contain(&unames, alt);
            if present && !is_ignored(alt, ignore_patterns) {
                kept.push(alt.clone());
                proof {
                    assert(kept.deep_view() =~= prior.push(rw.alternatives[ai as int]));
                }
            }
            ai = ai + 1;
            proof {
                assert(rw.alternatives.take(ai as int).drop_last() =~= rw.alternatives.take(
                    ai - 1,
                ));
                assert(rw.alternatives.take(ai as int).last() == rw.alternatives[ai - 1]);
                assert(kept.deep_view() =~= alts_to_report(
                    rw.alternatives.take(ai as int),
                    dv,
                    uv,
                    pv,
                ));
            }
        }
        proof {
            assert(rw.alternatives.take(rw.alternatives.len() as int) =~= rw.alternatives);
        }
        let ghost mapped = alts_to_report(rw.alternatives, dv, uv, pv).map_values(
            |alt: Seq<char>| rule_alt_issue(dv, uv, rw, alt),
        );
        let ghost before = issues.deep_view();
        let mut k: usize = 0;
        proof {
            assert(issues.deep_view() =~= before + mapped.take(0));
        }
        while k < kept.len()
            invariant
                dv == definitions.deep_view(),
                uv == usages.deep_view(),
                rw == rules@[ri as int]@,
                ri < rules@.len(),
                rule@ == rw,
                k <= kept@.len(),
                kept.deep_view() == alts_to_report(rw.alternatives, dv, uv, pv),
                kept.deep_view().len() == kept@.len(),
                mapped == alts_to_report(rw.alternatives, dv, uv, pv).map_values(
                    |alt: Seq<char>| rule_alt_issue(dv, uv, rw, alt),
                ),
                issues.deep_view() == before + mapped.take(k as int),
            decreases kept@.len() - k,
        {
            proof {
                assert(kept@[k as int]@ == kept.deep_view()[k as int]);
            }
            let alt = &kept[k];
            let locs = collect_naming_locations(definitions, usages, alt);
            let mut msg = String::from_str("'");
            msg.append(alt.as_str());
            msg.append("' could be renamed to '");
            msg.append(rule.preferred.as_str());
            msg.append("' for consistency");
            let mut sug = String::from_str("Consider using '");
            sug.append(rule.preferred.as_str());
            sug.append("' instead of '");
            sug.append(alt.as_str());
            sug.append("'");
            match &rule.description {
                Some(d) => {
                    sug.append(" (");
                    sug.append(d.as_str());
                    sug.append(")");
                },
                None => {},
            }
            let issue = Issue {
                kind: IssueKind::InconsistentNaming,
                severity: rule.severity,
                var_name: alt.clone(),
                message: msg,
                locations: locs,
                suggestion: Some(sug),
            };
            proof {
                let a = kept.deep_view()[k as int];
                assert(issue.message@ =~= "'"@ + a + "' could be renamed to '"@ + rw.preferred
                    + "' for consistency"@);
                assert(issue.suggestion matches Some(s) && s@ =~= "Consider using '"@
                    + rw.preferred + "' instead of '"@ + a + "'"@ + (match rw.description {
                    Some(d) => " ("@ + d + ")"@,
                    None => Seq::empty(),
                }));
                assert(issue@ == rule_alt_issue(dv, uv, rw, a));
            }
            let ghost prior = issues.deep_view();
            issues.push(issue);
            k = k + 1;
            proof {
                assert(issues.deep_view() =~= prior.push(mapped[k - 1]));
                assert(mapped.take(k as int) =~= mapped.take(k - 1).push(mapped[k - 1]));
            }
        }
        proof {
            assert(mapped.take(mapped.len() as int) =~= mapped);
            assert(issues.deep_view() =~= before + rule_issues_spec(dv, uv, rw, pv));
            assert(naming_from(dv, uv, rv, pv, ri as int) =~= rule_issues_spec(dv, uv, rw, pv)
                + naming_from(dv, uv, rv, pv, ri + 1));
            assert(issues.deep_view() + naming_from(dv, uv, rv, pv, ri + 1) =~= naming_issues_spec(
                dv,
                uv,
                rv,
                pv,
            ));
        }
        ri = ri + 1;
    }
    proof {
        assert(issues.deep_view() =~= naming_issues_spec(dv, uv, rv, pv));
    }
    issues
}

} // verus!
