//! Missing variables: used in code but defined in no environment file.

use vstd::prelude::*;
use vstd::string::StringExecFns;

use super::{
    collect_def_names, collect_usage_names, def_names, distinct_names, filter_names_not_in,
    names_not_in, sort_locations, sort_locs, usage_names,
};
use crate::text::{dec_str, first_occurrences, u64_to_dec};
use crate::types::{
    DefView, EnvVarDefinition, EnvVarUsage, Issue, IssueKind, IssueView, Location, LocView,
    Severity, UsageView,
};

verus! {

/// The missing names: each used name that is defined nowhere, at its first
/// occurrence among the usages, in order.
pub open spec fn missing_names(defs: Seq<DefView>, us: Seq<UsageView>) -> Seq<Seq<char>> {
    names_not_in(first_occurrences(usage_names(us)), def_names(defs))
}

/// The location of one usage.
pub open spec fn loc_of_usage(u: UsageView) -> LocView {
    LocView { file: u.file_path, line: Some(u.line), column: Some(u.column) }
}

/// The locations of every usage of `name`, in usage order.
pub open spec fn usage_locations(us: Seq<UsageView>, name: Seq<char>) -> Seq<LocView>
    decreases us.len(),
{
    if us.len() == 0 {
        Seq::empty()
    } else {
        let rest = usage_locations(us.drop_last(), name);
        if us.last().name == name {
            rest.push(loc_of_usage(us.last()))
        } else {
            rest
        }
    }
}

/// The message of a missing-variable issue, pluralized on the number of
/// usage locations.
pub open spec fn missing_message(name: Seq<char>, count: int) -> Seq<char> {
    if count == 1 {
        "'"@ + name + "' is used in code but not defined in any .env file"@
    } else {
        "'"@ + name + "' is used in "@ + dec_str(count as nat)
            + " locations but not defined in any .env file"@
    }
}

/// The issue reported for one missing name: always an error, located at every
/// usage of the name sorted by file, line, and column.
pub open spec fn missing_issue(us: Seq<UsageView>, name: Seq<char>) -> IssueView {
    let locs = sort_locs(usage_locations(us, name), true);
    IssueView {
        kind: IssueKind::MissingEnvVar,
        severity: Severity::Error,
        var_name: name,
        message: missing_message(name, locs.len() as int),
        locations: locs,
        suggestion: Some("Add "@ + name + " to your .env file"@),
    }
}

/// The missing-variable issues, one per missing name.
pub open spec fn missing_issues_spec(defs: Seq<DefView>, us: Seq<UsageView>) -> Seq<IssueView> {
    missing_names(defs, us).map_values(|n: Seq<char>| missing_issue(us, n))
}

/// Collects the locations of every usage of `name`, in usage order.
fn collect_usage_locations(usages: &Vec<EnvVarUsage>, name: &String) -> (r: Vec<Location>)
    ensures
        r.deep_view() == usage_locations(usages.deep_view(), name@),
{
    let ghost uv = usages.deep_view();
    let mut r: Vec<Location> = Vec::new();
    let mut i: usize = 0;
    proof {
        assert(uv.take(0) =~= Seq::<UsageView>::empty());
    }
    while i < usages.len()
        invariant
            uv == usages.deep_view(),
            i <= usages@.len(),
            uv.len() == usages@.len(),
            r.deep_view() == usage_locations(uv.take(i as int), name@),
        decreases usages@.len() - i,
    {
        proof {
            assert(usages@[i as int]@ == uv[i as int]);
        }
        let ghost prior = r.deep_view();
        let u = &usages[i];
        if u.name == *name {
            let loc = Location {
                file: u.file_path.clone(),
                line: Some(u.line),
                column: Some(u.column),
            };
            r.push(loc);
            proof {
                assert(r.deep_view() =~= prior.push(loc_of_usage(uv[i as int])));
            }
        }
        i = i + 1;
        proof {
            assert(uv.take(i as int).drop_last() =~= uv.take(i - 1));
            assert(uv.take(i as int).last() == uv[i - 1]);
            assert(r.deep_view() =~= usage_locations(uv.take(i as int), name@));
        }
    }
    proof {
        assert(uv.take(uv.len() as int) =~= uv);
    }
    r
}

/// Find environment variables that are used in code but not defined in any
/// environment file.
pub fn find_missing_vars(definitions: &Vec<EnvVarDefinition>, usages: &Vec<EnvVarUsage>) -> (r:
    Vec<Issue>)
    ensures
        r.deep_view() == missing_issues_spec(definitions.deep_view(), usages.deep_view()),
{
    let ghost dv = definitions.deep_view();
    let ghost uv = usages.deep_view();
    let dnames = collect_def_names(definitions);
    let unames = collect_usage_names(usages);
    let distinct = distinct_names(&unames);
    let miss = filter_names_not_in(&distinct, &dnames);
    let ghost mnames = missing_names(dv, uv);
    proof {
        assert(miss.deep_view() == mnames);
    }
    let ghost mapped = mnames.map_values(|n: Seq<char>| missing_issue(uv, n));
    let mut issues: Vec<Issue> = Vec::new();
    let mut k: usize = 0;
    proof {
        assert(issues.deep_view() =~= mapped.take(0));
    }
    while k < miss.len()
        invariant
            dv == definitions.deep_view(),
            uv == usages.deep_view(),
            miss.deep_view() == mnames,
            mapped == mnames.map_values(|n: Seq<char>| missing_issue(uv, n)),
            k <= miss@.len(),
            mnames.len() == miss@.len(),
            issues.deep_view() == mapped.take(k as int),
        decreases miss@.len() - k,
    {
        proof {
            assert(miss@[k as int]@ == mnames[k as int]);
        }
        let name = &miss[k];
        let locs = collect_usage_locations(usages, name);
        let locs = sort_locations(locs, true);
        let mut msg = String::from_str("'");
        msg.append(name.as_str());
        if locs.len() == 1 {
            msg.append("' is used in code but not defined in any .env file");
        } else {
            msg.append("' is used in ");
            let c = u64_to_dec(locs.len() as u64);
            msg.append(c.as_str());
            msg.append(" locations but not defined in any .env file");
        }
        let mut sug = String::from_str("Add ");
        sug.append(name.as_str());
        sug.append(" to your .env file");
        let issue = Issue {
            kind: IssueKind::MissingEnvVar,
            severity: Severity::Error,
            var_name: name.clone(),
            message: msg,
            locations: locs,
            suggestion: Some(sug),
        };
        proof {
            let n = mnames[k as int];
            let slocs = sort_locs(usage_locations(uv, n), true);
            assert(issue.locations.deep_view() == slocs);
            assert(issue.message@ =~= missing_message(n, slocs.len() as int));
            assert(issue.suggestion matches Some(s) && s@ =~= "Add "@ + n
                + " to your .env file"@);
            assert(issue@ == missing_issue(uv, n));
        }
        let ghost prior = issues.deep_view();
        issues.push(issue);
        k = k + 1;
        proof {
            assert(issues.deep_view() =~= prior.push(mapped[k - 1]));
            assert(mapped.take(k as int) =~= mapped.take(k - 1).push(mapped[k - 1]));
        }
    }
    proof {
        assert(mapped.take(mapped.len() as int) =~= mapped);
        assert(issues.deep_view() =~= missing_issues_spec(dv, uv));
    }
    issues
}

} // verus!
