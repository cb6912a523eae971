//! Naming-convention rules: a fixed built-in table plus user rules from
//! configuration.

use vstd::prelude::*;
use vstd::string::StringExecFns;

use crate::config::{Config, CustomRuleView};
use crate::types::Severity;

verus! {

/// A naming convention rule: names in `alternatives` should be replaced by
/// `preferred`.
#[derive(Debug, Clone)]
pub struct NamingRule {
    pub name: String,
    pub description: Option<String>,
    pub alternatives: Vec<String>,
    pub preferred: String,
    pub severity: Severity,
}

/// The mathematical content of a `NamingRule`.
pub struct RuleView {
    pub name: Seq<char>,
    pub description: Option<Seq<char>>,
    pub alternatives: Seq<Seq<char>>,
    pub preferred: Seq<char>,
    pub severity: Severity,
}

impl View for NamingRule {
    type V = RuleView;

    open spec fn view(&self) -> RuleView {
        RuleView {
            name: self.name@,
            description: match self.description {
                Some(d) => Some(d@),
                None => None,
            },
            alternatives: self.alternatives.deep_view(),
            preferred: self.preferred@,
            severity: self.severity,
        }
    }
}

impl DeepView for NamingRule {
    type V = RuleView;

    open spec fn deep_view(&self) -> RuleView {
        self.view()
    }
}

/// A well-formed rule never lists its preferred name among the alternatives.
pub open spec fn rule_wf(r: RuleView) -> bool {
    !r.alternatives.contains(r.preferred)
}

/// The built-in naming convention rules.
pub open spec fn builtin_rules_spec() -> Seq<RuleView> {
    seq![
        RuleView {
            name: "database-url"@,
            description: Some("Database connection URL"@),
            alternatives: seq!["DB_URL"@, "DB_CONNECTION"@, "DB_HOST"@],
            preferred: "DATABASE_URL"@,
            severity: Severity::Warning,
        },
        RuleView {
            name: "redis-url"@,
            description: Some("Redis connection URL"@),
            alternatives: seq!["REDIS_HOST"@, "REDIS_CONNECTION"@],
            preferred: "REDIS_URL"@,
            severity: Severity::Warning,
        },
        RuleView {
            name: "api-key"@,
            description: Some("API key naming"@),
            alternatives: seq!["APIKEY"@, "API_SECRET"@],
            preferred: "API_KEY"@,
            severity: Severity::Info,
        },
        RuleView {
            name: "secret-key"@,
            description: Some("Secret key naming"@),
            alternatives: seq!["SECRET"@, "APP_SECRET"@],
            preferred: "SECRET_KEY"@,
            severity: Severity::Info,
        },
        RuleView {
            name: "port"@,
            description: Some("Application port"@),
            alternatives: seq!["APP_PORT"@, "SERVER_PORT"@, "HTTP_PORT"@],
            preferred: "PORT"@,
            severity: Severity::Info,
        },
        RuleView {
            name: "log-level"@,
            description: Some("Logging level"@),
            alternatives: seq!["LOGLEVEL"@, "LOGGING_LEVEL"@],
            preferred: "LOG_LEVEL"@,
            severity: Severity::Info,
        },
        RuleView {
            name: "aws-region"@,
            description: Some("AWS region"@),
            alternatives: seq!["REGION"@, "AMAZON_REGION"@],
            preferred: "AWS_REGION"@,
            severity: Severity::Info,
        },
        RuleView {
            name: "jwt-secret"@,
            description: Some("JWT signing secret"@),
            alternatives: seq!["JWT_KEY"@, "TOKEN_SECRET"@],
            preferred: "JWT_SECRET"@,
            severity: Severity::Info,
        },
    ]
}

fn mk_string_vec2(a: &str, b: &str) -> (r: Vec<String>)
    ensures
        r.deep_view() == seq![a@, b@],
{
    let r: Vec<String> = vec![String::from_str(a), String::from_str(b)];
    proof {
        assert(r.deep_view() =~= seq![a@, b@]);
    }
    r
}

fn mk_string_vec3(a: &str, b: &str, c: &str) -> (r: Vec<String>)
    ensures
        r.deep_view() == seq![a@, b@, c@],
{
    let r: Vec<String> = vec![String::from_str(a), String::from_str(b), String::from_str(c)];
    proof {
        assert(r.deep_view() =~= seq![a@, b@, c@]);
    }
    r
}

fn mk_rule(
    name: &str,
    description: &str,
    alternatives: Vec<String>,
    preferred: &str,
    severity: Severity,
) -> (r: NamingRule)
    ensures
        r@ == (RuleView {
            name: name@,
            description: Some(description@),
            alternatives: alternatives.deep_view(),
            preferred: preferred@,
            severity,
        }),
{
    NamingRule {
        name: name.to_owned(),
        description: Some(description.to_owned()),
        alternatives,
        preferred: preferred.to_owned(),
        severity,
    }
}

/// Returns the built-in naming convention rules.
pub fn get_builtin_rules() -> (r: Vec<NamingRule>)
    ensures
        r.deep_view() == builtin_rules_spec(),
{
    let r: Vec<NamingRule> = vec![
        mk_rule(
            "database-url",
            "Database connection URL",
            mk_string_vec3("DB_URL", "DB_CONNECTION", "DB_HOST"),
            "DATABASE_URL",
            Severity::Warning,
        ),
        mk_rule(
            "redis-url",
            "Redis connection URL",
            mk_string_vec2("REDIS_HOST", "REDIS_CONNECTION"),
            "REDIS_URL",
            Severity::Warning,
        ),
        mk_rule(
            "api-key",
            "API key naming",
            mk_string_vec2("APIKEY", "API_SECRET"),
            "API_KEY",
            Severity::Info,
        ),
        mk_rule(
            "secret-key",
            "Secret key naming",
            mk_string_vec2("SECRET", "APP_SECRET"),
            "SECRET_KEY",
            Severity::Info,
        ),
        mk_rule(
            "port",
            "Application port",
            mk_string_vec3("APP_PORT", "SERVER_PORT", "HTTP_PORT"),
            "PORT",
            Severity::Info,
        ),
        mk_rule(
            "log-level",
            "Logging level",
            mk_string_vec2("LOGLEVEL", "LOGGING_LEVEL"),
            "LOG_LEVEL",
            Severity::Info,
        ),
        mk_rule(
            "aws-region",
            "AWS region",
            mk_string_vec2("REGION", "AMAZON_REGION"),
            "AWS_REGION",
            Severity::Info,
        ),
        mk_rule(
            "jwt-secret",
            "JWT signing secret",
            mk_string_vec2("JWT_KEY", "TOKEN_SECRET"),
            "JWT_SECRET",
            Severity::Info,
        ),
    ];
    proof {
        assert(r.deep_view() =~= builtin_rules_spec());
    }
    r
}

/// The rule a user-supplied rule stands for: its severity label parsed.
pub open spec fn rule_of_custom(c: CustomRuleView) -> RuleView {
    RuleView {
        name: c.name,
        description: c.description,
        alternatives: c.alternatives,
        preferred: c.preferred,
        severity: crate::config::spec_severity_of(c.severity),
    }
}

/// All rules in force: the built-in table when enabled, then the user rules.
pub open spec fn all_rules_spec(builtin: bool, custom: Seq<CustomRuleView>) -> Seq<RuleView> {
    (if builtin {
        builtin_rules_spec()
    } else {
        Seq::empty()
    }) + custom.map_values(|c: CustomRuleView| rule_of_custom(c))
}

fn clone_string_vec(v: &Vec<String>) -> (r: Vec<String>)
    ensures
        r.deep_view() == v.deep_view(),
{
    let mut r: Vec<String> = Vec::new();
    let mut i: usize = 0;
    while i < v.len()
        invariant
            i <= v@.len(),
            v.deep_view().len() == v@.len(),
            r.deep_view() == v.deep_view().take(i as int),
        decreases v@.len() - i,
    {
        let ghost prior = r.deep_view();
        r.push(v[i].clone());
        i = i + 1;
        proof {
            assert(r.deep_view() =~= prior.push(v.deep_view()[i - 1]));
            assert(r.deep_view() =~= v.deep_view().take(i as int));
        }
    }
    proof {
        assert(v.deep_view().take(v.deep_view().len() as int) =~= v.deep_view());
    }
    r
}

/// Get all naming rules: built-in (when enabled) plus custom from config.
pub fn get_all_rules(config: &Config) -> (r: Vec<NamingRule>)
    ensures
        r.deep_view() == all_rules_spec(
            config.naming.builtin_rules,
            config.naming.custom_rules.deep_view(),
        ),
{
    let ghost customs = config.naming.custom_rules.deep_view();
    let ghost base: Seq<RuleView> = if config.naming.builtin_rules {
        builtin_rules_spec()
    } else {
        Seq::empty()
    };
    let mut r: Vec<NamingRule> = if config.naming.builtin_rules {
        get_builtin_rules()
    } else {
        Vec::new()
    };
    let mut i: usize = 0;
    proof {
        assert(r.deep_view() =~= base + customs.take(0).map_values(
            |c: CustomRuleView| rule_of_custom(c),
        ));
    }
    while i < config.naming.custom_rules.len()
        invariant
            customs == config.naming.custom_rules.deep_view(),
            base == if config.naming.builtin_rules {
                builtin_rules_spec()
            } else {
                Seq::<RuleView>::empty()
            },
            i <= config.naming.custom_rules@.len(),
            customs.len() == config.naming.custom_rules@.len(),
            r.deep_view() == base + customs.take(i as int).map_values(
                |c: CustomRuleView| rule_of_custom(c),
            ),
        decreases config.naming.custom_rules@.len() - i,
    {
        let custom = &config.naming.custom_rules[i];
        let rule = NamingRule {
            name: custom.name.clone(),
            description: match &custom.description {
                Some(d) => Some(d.clone()),
                None => None,
            },
            alternatives: clone_string_vec(&custom.alternatives),
            preferred: custom.preferred.clone(),
            severity: custom.severity_level(),
        };
        proof {
            assert(custom@ == customs[i as int]);
            assert(rule@ == rule_of_custom(customs[i as int]));
        }
        let ghost prior = r.deep_view();
        r.push(rule);
        i = i + 1;
        proof {
            assert(r.deep_view() =~= prior.push(rule_of_custom(customs[i - 1])));
            assert(customs.take(i as int).map_values(|c: CustomRuleView| rule_of_custom(c))
                =~= customs.take(i - 1).map_values(|c: CustomRuleView| rule_of_custom(c)).push(
                rule_of_custom(customs[i - 1]),
            ));
            assert(r.deep_view() =~= base + customs.take(i as int).map_values(
                |c: CustomRuleView| rule_of_custom(c),
            ));
        }
    }
    proof {
        assert(customs.take(customs.len() as int) =~= customs);
        assert(r.deep_view() =~= all_rules_spec(config.naming.builtin_rules, customs));
    }
    r
}

} // verus!
