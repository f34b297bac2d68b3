use browsers::{
    get_opening_rules,
    unwrap_url,
    BehavioralConfig,
    Config,
    ConfigRule,
    OpeningRule,
    OpeningRulesAndDefaultProfile,
    ProfileAndOptions,
    UrlOpenContext,
};

fn target(profile: &str) -> Option<ProfileAndOptions> {
    Some(ProfileAndOptions { profile: profile.to_string(), incognito: false })
}

fn rule(source: Option<&str>, pattern: Option<&str>, profile: &str) -> OpeningRule {
    OpeningRule {
        source_app: source.map(|s| s.to_string()),
        url_pattern: pattern.map(|s| s.to_string()),
        opener: target(profile),
    }
}

fn resolver_with_default() -> OpeningRulesAndDefaultProfile {
    OpeningRulesAndDefaultProfile {
        opening_rules: vec![
            rule(Some("A"), Some("*.x.com"), "P1"),
            rule(None, None, "P2"),
        ],
        default_profile: target("P3"),
    }
}

fn ctx(url: &str, source: Option<&str>) -> UrlOpenContext {
    UrlOpenContext {
        cleaned_url: url.to_string(),
        source_app_maybe: source.map(|s| s.to_string()),
    }
}

#[test]
fn first_matching_rule_wins() {
    let r = resolver_with_default();
    let picked = r.get_rule_for_source_app_and_url(&ctx("https://foo.x.com", Some("A")));
    assert_eq!(picked.unwrap().profile, "P1");
}

#[test]
fn source_mismatch_falls_through_to_catch_all() {
    let r = resolver_with_default();
    let picked = r.get_rule_for_source_app_and_url(&ctx("https://foo.x.com", Some("B")));
    assert_eq!(picked.unwrap().profile, "P2");
}

#[test]
fn unparsable_url_resolves_to_none_despite_default() {
    let r = resolver_with_default();
    let picked = r.get_rule_for_source_app_and_url(&ctx("not a url", Some("A")));
    assert!(picked.is_none());
    let picked2 = r.get_rule_for_source_app_and_url(&ctx("not a url", None));
    assert!(picked2.is_none());
}

#[test]
fn no_rule_matches_gives_default() {
    let r = OpeningRulesAndDefaultProfile {
        opening_rules: vec![rule(Some("A"), Some("*.x.com"), "P1")],
        default_profile: target("P3"),
    };
    let picked = r.get_rule_for_source_app_and_url(&ctx("https://other.com", Some("C")));
    assert_eq!(picked.unwrap().profile, "P3");
}

#[test]
fn no_rule_and_no_default_gives_none() {
    let r = OpeningRulesAndDefaultProfile {
        opening_rules: vec![rule(Some("A"), Some("*.x.com"), "P1")],
        default_profile: None,
    };
    let picked = r.get_rule_for_source_app_and_url(&ctx("https://other.com", None));
    assert!(picked.is_none());
}

#[test]
fn source_filter_requires_known_source() {
    let r = OpeningRulesAndDefaultProfile {
        opening_rules: vec![rule(Some("A"), None, "P1")],
        default_profile: None,
    };
    let picked = r.get_rule_for_source_app_and_url(&ctx("https://foo.x.com", None));
    assert!(picked.is_none());
}

#[test]
fn rules_come_over_from_the_configuration() {
    let mut config = Config::new();
    config.set_rules(&vec![ConfigRule {
        source_app: None,
        url_pattern: Some("*.x.com".to_string()),
        opener: target("P1"),
    }]);
    config.set_default_profile(&target("P9"));
    let r = get_opening_rules(&config);
    assert_eq!(r.opening_rules.len(), 1);
    let picked = r.get_rule_for_source_app_and_url(&ctx("https://a.x.com", None));
    assert_eq!(picked.unwrap().profile, "P1");
    let fallback = r.get_rule_for_source_app_and_url(&ctx("https://other.com", None));
    assert_eq!(fallback.unwrap().profile, "P9");
}

#[test]
fn unwrap_url_unwraps_outlook_safelinks() {
    let settings = BehavioralConfig { unwrap_urls: true };
    let wrapped =
        "https://nam12.safelinks.protection.outlook.com/?url=https%3A%2F%2Fexample.com%2Fa%3Fb%3D1&data=ignored";
    assert_eq!(unwrap_url(wrapped, &settings), "https://example.com/a?b=1");
}

#[test]
fn unwrap_url_unwraps_messenger_links() {
    let settings = BehavioralConfig { unwrap_urls: true };
    let wrapped = "https://l.messenger.com/l.php?u=https%3A%2F%2Ffoo.com%2Fbar";
    assert_eq!(unwrap_url(wrapped, &settings), "https://foo.com/bar");
}

#[test]
fn unwrap_url_keeps_ordinary_urls() {
    let settings = BehavioralConfig { unwrap_urls: true };
    assert_eq!(unwrap_url("https://example.com/x", &settings), "https://example.com/x");
}

#[test]
fn unwrap_url_disabled_keeps_everything() {
    let settings = BehavioralConfig { unwrap_urls: false };
    let wrapped = "https://l.messenger.com/l.php?u=https%3A%2F%2Ffoo.com";
    assert_eq!(unwrap_url(wrapped, &settings), wrapped);
}

#[test]
fn unwrap_url_keeps_wrapper_without_expected_key() {
    let settings = BehavioralConfig { unwrap_urls: true };
    let wrapped = "https://l.messenger.com/l.php?other=x";
    assert_eq!(unwrap_url(wrapped, &settings), wrapped);
}

#[test]
fn unwrap_url_keeps_unparsable_input() {
    let settings = BehavioralConfig { unwrap_urls: true };
    assert_eq!(unwrap_url("not a url", &settings), "not a url");
}
