//! Unused variables: defined in an environment file but never used in code.

use vstd::prelude::*;
use vstd::string::StringExecFns;

use super::{
    collect_def_names, collect_usage_names, def_names, distinct_names, filter_names_not_in,
    names_not_in, usage_names,
};
use crate::text::first_occurrences;
use crate::types::{
    DefView, EnvVarDefinition, EnvVarUsage, Issue, IssueKind, IssueView, Location, LocView,
    Severity, UsageView,
};

verus! {

/// The unused names: each defined name that is used nowhere, at its first
/// occurrence among the definitions, in order.
pub open spec fn unused_names(defs: Seq<DefView>, us: Seq<UsageView>) -> Seq<Seq<char>> {
    names_not_in(first_occurrences(def_names(defs)), usage_names(us))
}

/// The location of one definition.
pub open spec fn loc_of_def(d: DefView) -> LocView {
    LocView { file: d.source_file, line: Some(d.line), column: None }
}

/// The locations of every definition of `name`, in definition order.
pub open spec fn def_locations(defs: Seq<DefView>, name: Seq<char>) -> Seq<LocView>
    decreases defs.len(),
{
    if defs.len() == 0 {
        Seq::empty()
    } else {
        let rest = def_locations(defs.drop_last(), name);
        if defs.last().name == name {
            rest.push(loc_of_def(defs.last()))
        } else {
            rest
        }
    }
}

/// The issue reported for one unused name: always a warning, located at every
/// definition of the name.
pub open spec fn unused_issue(defs: Seq<DefView>, name: Seq<char>) -> IssueView {
    IssueView {
        kind: IssueKind::UnusedEnvVar,
        severity: Severity::Warning,
        var_name: name,
        message: "'"@ + name + "' is defined but never used in code"@,
        locations: def_locations(defs, name),
        suggestion: Some("Remove "@ + name + " from your .env file if it's no longer needed"@),
    }
}

/// The unused-variable issues, one per unused name.
pub open spec fn unused_issues_spec(defs: Seq<DefView>, us: Seq<UsageView>) -> Seq<IssueView> {
    unused_names(defs, us).map_values(|n: Seq<char>| unused_issue(defs, n))
}

/// Collects the locations of every definition of `name`, in definition order.
fn collect_def_locations(definitions: &Vec<EnvVarDefinition>, name: &String) -> (r: Vec<Location>)
    ensures
        r.deep_view() == def_locations(definitions.deep_view(), name@),
{
    let ghost dv = definitions.deep_view();
    let mut r: Vec<Location> = Vec::new();
    let mut i: usize = 0;
    proof {
        assert(dv.take(0) =~= Seq::<DefView>::empty());
    }
    while i < definitions.len()
        invariant
            dv == definitions.deep_view(),
            i <= definitions@.len(),
            dv.len() == definitions@.len(),
            r.deep_view() == def_locations(dv.take(i as int), name@),
        decreases definitions@.len() - i,
    {
        proof {
            assert(definitions@[i as int]@ == dv[i as int]);
        }
        let ghost prior = r.deep_view();
        let d = &definitions[i];
        if d.name == *name {
            let loc = Location { file: d.source_file.clone(), line: Some(d.line), column: None };
            r.push(loc);
            proof {
                assert(r.deep_view() =~= prior.push(loc_of_def(dv[i as int])));
            }
        }
        i = i + 1;
        proof {
            assert(dv.take(i as int).drop_last() =~= dv.take(i - 1));
            assert(dv.take(i as int).last() == dv[i - 1]);
            assert(r.deep_view() =~= def_locations(dv.take(i as int), name@));
        }
    }
    proof {
        assert(dv.take(dv.len() as int) =~= dv);
    }
    r
}

/// Find environment variables that are defined in an environment file but
/// never used in code.
pub fn find_unused_vars(definitions: &Vec<EnvVarDefinition>, usages: &Vec<EnvVarUsage>) -> (r: Vec<
    Issue,
>)
    ensures
        r.deep_view() == unused_issues_spec(definitions.deep_view(), usages.deep_view()),
{
    let ghost dv = definitions.deep_view();
    let ghost uv = usages.deep_view();
    let dnames = collect_def_names(definitions);
    let unames = collect_usage_names(usages);
    let distinct = distinct_names(&dnames);
    let unused = filter_names_not_in(&distinct, &unames);
    let ghost wnames = unused_names(dv, uv);
    proof {
        assert(unused.deep_view() == wnames);
    }
    let ghost mapped = wnames.map_values(|n: Seq<char>| unused_issue(dv, n));
    let mut issues: Vec<Issue> = Vec::new();
    let mut k: usize = 0;
    proof {
        assert(issues.deep_view() =~= mapped.take(0));
    }
    while k < unused.len()
        invariant
            dv == definitions.deep_view(),
            uv == usages.deep_view(),
            unused.deep_view() == wnames,
            mapped == wnames.map_values(|n: Seq<char>| unused_issue(dv, n)),
            k <= unused@.len(),
            wnames.len() == unused@.len(),
            issues.deep_view() == mapped.take(k as int),
        decreases unused@.len() - k,
    {
        proof {
            assert(unused@[k as int]@ == wnames[k as int]);
        }
        let name = &unused[k];
        let locs = collect_def_locations(definitions, name);
        let mut msg = String::from_str("'");
        msg.append(name.as_str());
        msg.append("' is defined but never used in code");
        let mut sug = String::from_str("Remove ");
        sug.append(name.as_str());
        sug.append(" from your .env file if it's no longer needed");
        let issue = Issue {
            kind: IssueKind::UnusedEnvVar,
            severity: Severity::Warning,
            var_name: name.clone(),
            message: msg,
            locations: locs,
            suggestion: Some(sug),
        };
        proof {
            let n = wnames[k as int];
            assert(issue.message@ =~= "'"@ + n + "' is defined but never used in code"@);
            assert(issue.suggestion matches Some(s) && s@ =~= "Remove "@ + n
                + " from your .env file if it's no longer needed"@);
            assert(issue@ == unused_issue(dv, n));
        }
        let ghost prior = issues.deep_view();
        issues.push(issue);
        k = k + 1;
        proof {
            assert(issues.deep_view() =~= prior.push(mapped[k - 1]));
            assert(mapped.take(k as int) =~= mapped.take(k - 1).push(mapped[k - 1]));
        }
    }
    proof {
        assert(mapped.take(mapped.len() as int) =~= mapped);
        assert(issues.deep_view() =~= unused_issues_spec(dv, uv));
    }
    issues
}

} // verus!
