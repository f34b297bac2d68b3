use std::sync::Arc;

use browsers::{
    open_link_if_matching_rule,
    BrowserCommon,
    CommonBrowserProfile,
    Config,
    InstalledAppProfilesType,
    InstalledBrowserProfile,
    OpeningRule,
    OpeningRulesAndDefaultProfile,
    ProfileAndOptions,
    SupportedApp,
    TargetOs,
    UrlOpenContext,
    UrlTransform,
    VisibleAndHiddenProfiles,
};

fn strings(items: &[&str]) -> Vec<String> {
    items.iter().map(|s| s.to_string()).collect()
}

fn a_profile() -> CommonBrowserProfile {
    let app = Arc::new(BrowserCommon {
        command: strings(&["b", "%u"]),
        executable_path: "/bin/b".to_string(),
        display_name: "B".to_string(),
        icon_path: String::new(),
        supported_app: SupportedApp::new(
            "com.b".to_string(),
            false,
            false,
            Vec::new(),
            Vec::new(),
            UrlTransform::Keep,
            &Vec::new(),
        ),
        profiles_type: InstalledAppProfilesType::RealProfiles,
    });
    CommonBrowserProfile::new(
        &InstalledBrowserProfile {
            profile_cli_arg_value: "p".to_string(),
            profile_cli_container_name: None,
            profile_name: "p".to_string(),
            profile_icon: None,
            profile_restricted_url_patterns: Vec::new(),
        },
        app,
    )
}

fn resolver(profile_id: &str) -> OpeningRulesAndDefaultProfile {
    OpeningRulesAndDefaultProfile {
        opening_rules: vec![OpeningRule {
            source_app: None,
            url_pattern: Some("*.x.com".to_string()),
            opener: Some(ProfileAndOptions { profile: profile_id.to_string(), incognito: false }),
        }],
        default_profile: None,
    }
}

fn ctx(url: &str) -> UrlOpenContext {
    UrlOpenContext { cleaned_url: url.to_string(), source_app_maybe: None }
}

#[test]
fn matching_rule_builds_the_invocation() {
    let profile = a_profile();
    let id = profile.get_unique_id();
    let state = VisibleAndHiddenProfiles {
        visible_browser_profiles: vec![profile],
        hidden_browser_profiles: Vec::new(),
    };
    let cmd = open_link_if_matching_rule(
        &ctx("https://a.x.com"),
        &resolver(&id),
        &state,
        TargetOs::Linux,
    );
    let cmd = cmd.expect("the rule should pick a profile");
    assert_eq!(cmd.program, "b");
    assert_eq!(cmd.arguments, strings(&["https://a.x.com"]));
}

#[test]
fn no_matching_rule_builds_nothing() {
    let profile = a_profile();
    let id = profile.get_unique_id();
    let state = VisibleAndHiddenProfiles {
        visible_browser_profiles: vec![profile],
        hidden_browser_profiles: Vec::new(),
    };
    let cmd = open_link_if_matching_rule(
        &ctx("https://other.com"),
        &resolver(&id),
        &state,
        TargetOs::Linux,
    );
    assert!(cmd.is_none());
}

#[test]
fn stale_profile_id_builds_nothing() {
    let profile = a_profile();
    let state = VisibleAndHiddenProfiles {
        visible_browser_profiles: vec![profile],
        hidden_browser_profiles: Vec::new(),
    };
    let cmd = open_link_if_matching_rule(
        &ctx("https://a.x.com"),
        &resolver("/bin/gone#p"),
        &state,
        TargetOs::Linux,
    );
    assert!(cmd.is_none());
}

#[test]
fn config_hidden_profile_lists_round_trip() {
    let mut config = Config::new();
    config.hide_profile("/bin/b#p");
    config.hide_profile("/bin/b#p");
    assert_eq!(config.get_hidden_profiles(), &strings(&["/bin/b#p"]));
    config.hide_profile("/bin/b#q");
    config.restore_profile("/bin/b#p");
    assert_eq!(config.get_hidden_profiles(), &strings(&["/bin/b#q"]));
}

#[test]
fn config_hide_all_records_every_id() {
    let mut config = Config::new();
    config.hide_all_profiles(&strings(&["a", "b", "a"]));
    assert_eq!(config.get_hidden_profiles(), &strings(&["a", "b"]));
}

#[test]
fn ui_rules_convert_to_config_rules() {
    let ui_rules = vec![browsers::UISettingsRule {
        source_app: Some("A".to_string()),
        url_pattern: Some("*.x.com".to_string()),
        opener: Some(browsers::UIProfileAndIncognito {
            profile: "/bin/b#p".to_string(),
            incognito: true,
        }),
    }];
    let rules = browsers::messages::to_config_rules(&ui_rules);
    assert_eq!(rules.len(), 1);
    assert_eq!(rules[0].source_app.as_deref(), Some("A"));
    assert_eq!(rules[0].url_pattern.as_deref(), Some("*.x.com"));
    let opener = rules[0].opener.as_ref().unwrap();
    assert_eq!(opener.profile, "/bin/b#p");
    assert!(opener.incognito);
}
