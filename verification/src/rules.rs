//! Opening rules and their resolution: the first rule whose source-app
//! filter and URL pattern both accept the request wins; with no winning
//! rule the configured default applies; an unparsable URL resolves to
//! nothing at all.

use vstd::prelude::*;

use crate::config::{
    clone_opt_profile_and_options,
    clone_opt_string,
    Config,
    ConfigRule,
    ProfileAndOptions,
};
use crate::text::str_eq;
use crate::url_parse::{parse_url, parsed_url_of, ParsedUrl, ParsedUrlView};
use crate::url_pattern::{compile_spec, matcher_accepts, UrlGlobMatcher};

verus! {

/// An incoming open request: the (already cleaned) URL and, when known,
/// the identifier of the application it came from.
pub struct UrlOpenContext {
    pub cleaned_url: String,
    pub source_app_maybe: Option<String>,
}

/// One opening rule: optional source-app filter (exact match), optional
/// URL pattern (compiled on evaluation), and the target to open with.
pub struct OpeningRule {
    pub source_app: Option<String>,
    pub url_pattern: Option<String>,
    pub opener: Option<ProfileAndOptions>,
}

/// The ordered rule list plus the optional default target.
pub struct OpeningRulesAndDefaultProfile {
    pub opening_rules: Vec<OpeningRule>,
    pub default_profile: Option<ProfileAndOptions>,
}

/// A rule's URL predicate: no pattern accepts every URL.
pub open spec fn rule_url_matches(r: OpeningRule, u: ParsedUrlView) -> bool {
    match r.url_pattern {
        None => true,
        Some(p) => matcher_accepts(compile_spec(p@), u),
    }
}

/// A rule's source predicate: no filter accepts every source; a filter
/// requires a known, exactly equal source app.
pub open spec fn rule_source_app_matches(r: OpeningRule, source: Option<Seq<char>>) -> bool {
    match r.source_app {
        None => true,
        Some(f) => match source {
            Some(s) => f@ == s,
            None => false,
        },
    }
}

pub open spec fn rule_matches(r: OpeningRule, u: ParsedUrlView, source: Option<Seq<char>>) -> bool {
    rule_url_matches(r, u) && rule_source_app_matches(r, source)
}

/// First-match resolution over a parsed URL.
pub open spec fn resolve_rules_parsed(
    rules: Seq<OpeningRule>,
    default_profile: Option<ProfileAndOptions>,
    u: ParsedUrlView,
    source: Option<Seq<char>>,
) -> Option<ProfileAndOptions>
    decreases rules.len(),
{
    if rules.len() == 0 {
        default_profile
    } else if rule_matches(rules[0], u, source) {
        rules[0].opener
    } else {
        resolve_rules_parsed(rules.skip(1), default_profile, u, source)
    }
}

/// Full resolution: an unparsable URL yields `None`, default or not.
pub open spec fn resolve_rules(
    rules: Seq<OpeningRule>,
    default_profile: Option<ProfileAndOptions>,
    parsed: Option<ParsedUrlView>,
    source: Option<Seq<char>>,
) -> Option<ProfileAndOptions> {
    match parsed {
        None => None,
        Some(u) => resolve_rules_parsed(rules, default_profile, u, source),
    }
}

pub open spec fn opt_string_view(o: Option<String>) -> Option<Seq<char>> {
    match o {
        Some(s) => Some(s@),
        None => None,
    }
}

impl OpeningRulesAndDefaultProfile {
    /// Resolve the target for an open request. The result is exactly
    /// first-match resolution of the rule list over the parsed URL, the
    /// default when no rule matches, and `None` when the URL does not
    /// parse.
    pub fn get_rule_for_source_app_and_url(&self, url_open_context: &UrlOpenContext) -> (r: Option<
        ProfileAndOptions,
    >)
        ensures
            r == resolve_rules(
                self.opening_rules@,
                self.default_profile,
                parsed_url_of(url_open_context.cleaned_url@),
                opt_string_view(url_open_context.source_app_maybe),
            ),
    {
        let url_result = parse_url(url_open_context.cleaned_url.as_str());
        let given_url = match url_result {
            None => {
                return None;
            },
            Some(u) => u,
        };
        let ghost u = given_url@;
        let ghost src = opt_string_view(url_open_context.source_app_maybe);
        let n = self.opening_rules.len();
        let mut i: usize = 0;
        proof {
            assert(self.opening_rules@.skip(0) =~= self.opening_rules@);
        }
        while i < n
            invariant
                n == self.opening_rules@.len(),
                i <= n,
                u == given_url@,
                src == opt_string_view(url_open_context.source_app_maybe),
                parsed_url_of(url_open_context.cleaned_url@) == Some(given_url@),
                resolve_rules_parsed(self.opening_rules@, self.default_profile, u, src)
                    == resolve_rules_parsed(
                    self.opening_rules@.skip(i as int),
                    self.default_profile,
                    u,
                    src,
                ),
            decreases n - i,
        {
            let rule = &self.opening_rules[i];
            let url_match = Self::url_matches(rule, &given_url);
            let source_app_match = Self::source_app_matches(rule, &url_open_context.source_app_maybe);
            proof {
                let rest = self.opening_rules@.skip(i as int);
                assert(rest.len() > 0);
                assert(rest[0] == self.opening_rules@[i as int]);
                assert(rest.skip(1) =~= self.opening_rules@.skip(i as int + 1));
                assert(rule_matches(rest[0], u, src) == (url_match && source_app_match));
                if url_match && source_app_match {
                    assert(resolve_rules_parsed(rest, self.default_profile, u, src)
                        == rest[0].opener);
                } else {
                    assert(resolve_rules_parsed(rest, self.default_profile, u, src)
                        == resolve_rules_parsed(rest.skip(1), self.default_profile, u, src));
                }
            }
            if url_match && source_app_match {
                return clone_opt_profile_and_options(&rule.opener);
            }
            i = i + 1;
        }
        proof {
            assert(self.opening_rules@.skip(n as int).len() == 0);
        }
        clone_opt_profile_and_options(&self.default_profile)
    }

    fn url_matches(r: &OpeningRule, given_url: &ParsedUrl) -> (b: bool)
        ensures
            b == rule_url_matches(*r, given_url@),
    {
        match &r.url_pattern {
            Some(url_pattern) => UrlGlobMatcher::compile(url_pattern.as_str()).matches(given_url),
            None => true,
        }
    }

    fn source_app_matches(r: &OpeningRule, actual_source_app: &Option<String>) -> (b: bool)
        ensures
            b == rule_source_app_matches(*r, opt_string_view(*actual_source_app)),
    {
        match &r.source_app {
            None => true,
            Some(source_app_rule) => match actual_source_app {
                Some(source_app) => str_eq(source_app_rule.as_str(), source_app.as_str()),
                None => false,
            },
        }
    }
}

/// The opening rules a configuration carries, in the resolver's form.
pub open spec fn spec_to_opening_rules(config_rules: Seq<ConfigRule>) -> Seq<OpeningRule> {
    config_rules.map_values(
        |r: ConfigRule|
            OpeningRule {
                source_app: r.source_app,
                url_pattern: r.url_pattern,
                opener: r.opener,
            },
    )
}

pub fn to_opening_rules(config_rules: &Vec<ConfigRule>) -> (r: Vec<OpeningRule>)
    ensures
        r@ == spec_to_opening_rules(config_rules@),
{
    let mut r: Vec<OpeningRule> = Vec::new();
    let mut i: usize = 0;
    while i < config_rules.len()
        invariant
            i <= config_rules@.len(),
            r@ == spec_to_opening_rules(config_rules@.take(i as int)),
        decreases config_rules@.len() - i,
    {
        let cr = &config_rules[i];
        r.push(
            OpeningRule {
                source_app: clone_opt_string(&cr.source_app),
                url_pattern: clone_opt_string(&cr.url_pattern),
                opener: clone_opt_profile_and_options(&cr.opener),
            },
        );
        i = i + 1;
        proof {
            assert(r@ =~= spec_to_opening_rules(config_rules@.take(i as int)));
        }
    }
    proof {
        assert(config_rules@.take(config_rules@.len() as int) =~= config_rules@);
    }
    r
}

/// Assemble the resolver's state from the configuration.
pub fn get_opening_rules(config: &Config) -> (r: OpeningRulesAndDefaultProfile)
    ensures
        r.opening_rules@ == spec_to_opening_rules(config.spec_rules()),
        r.default_profile == config.spec_default_profile(),
{
    let config_rules = config.get_rules();
    let default_profile = config.get_default_profile();
    let opening_rules = to_opening_rules(config_rules);
    OpeningRulesAndDefaultProfile {
        opening_rules,
        default_profile: clone_opt_profile_and_options(default_profile),
    }
}

} // verus!
