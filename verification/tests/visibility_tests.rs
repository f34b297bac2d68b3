use std::sync::Arc;

use browsers::{
    generate_all_browser_profiles,
    move_app_profile,
    non_priority_profile_ids,
    sort_browser_profiles,
    BrowserCommon,
    CommonBrowserProfile,
    Config,
    InstalledAppProfiles,
    InstalledAppProfilesType,
    InstalledBrowser,
    InstalledBrowserProfile,
    MoveTo,
    SupportedApp,
    UrlTransform,
    VisibleAndHiddenProfiles,
};

fn strings(items: &[&str]) -> Vec<String> {
    items.iter().map(|s| s.to_string()).collect()
}

fn supported_app(restricted: &[&str]) -> SupportedApp {
    SupportedApp::new(
        "com.example.app".to_string(),
        false,
        false,
        Vec::new(),
        Vec::new(),
        UrlTransform::Keep,
        &strings(restricted),
    )
}

fn profile(exe: &str, cli: &str, restricted: &[&str]) -> CommonBrowserProfile {
    let app = Arc::new(BrowserCommon {
        command: strings(&[exe]),
        executable_path: exe.to_string(),
        display_name: "App".to_string(),
        icon_path: "icon.png".to_string(),
        supported_app: supported_app(&[]),
        profiles_type: InstalledAppProfilesType::RealProfiles,
    });
    CommonBrowserProfile::new(
        &InstalledBrowserProfile {
            profile_cli_arg_value: cli.to_string(),
            profile_cli_container_name: None,
            profile_name: cli.to_string(),
            profile_icon: None,
            profile_restricted_url_patterns: strings(restricted),
        },
        app,
    )
}

fn uid(exe: &str, cli: &str) -> String {
    format!("{}#{}", exe, cli)
}

fn ids(profiles: &[CommonBrowserProfile]) -> Vec<String> {
    profiles.iter().map(|p| p.get_unique_id()).collect()
}

fn state(visible: Vec<CommonBrowserProfile>) -> VisibleAndHiddenProfiles {
    VisibleAndHiddenProfiles {
        visible_browser_profiles: visible,
        hidden_browser_profiles: Vec::new(),
    }
}

#[test]
fn unique_id_format_is_stable() {
    let p = profile("/usr/bin/b", "work", &[]);
    assert_eq!(p.get_unique_id(), "/usr/bin/b#work");
    let app = Arc::new(BrowserCommon {
        command: strings(&["/usr/bin/b"]),
        executable_path: "/usr/bin/b".to_string(),
        display_name: "App".to_string(),
        icon_path: String::new(),
        supported_app: supported_app(&[]),
        profiles_type: InstalledAppProfilesType::RealProfiles,
    });
    let with_container = CommonBrowserProfile::new(
        &InstalledBrowserProfile {
            profile_cli_arg_value: "work".to_string(),
            profile_cli_container_name: Some("tab".to_string()),
            profile_name: "work".to_string(),
            profile_icon: None,
            profile_restricted_url_patterns: Vec::new(),
        },
        app,
    );
    assert_eq!(with_container.get_unique_id(), "/usr/bin/b#work#tab");
}

#[test]
fn priority_comes_from_profile_or_application_patterns() {
    let own = profile("/b", "p", &["*.corp.com"]);
    assert!(own.has_priority_ordering());
    let plain = profile("/b", "q", &[]);
    assert!(!plain.has_priority_ordering());
    // with no profile-level patterns, the application-level fallback counts
    let app = Arc::new(BrowserCommon {
        command: strings(&["/b"]),
        executable_path: "/b".to_string(),
        display_name: "App".to_string(),
        icon_path: String::new(),
        supported_app: supported_app(&["*.corp.com"]),
        profiles_type: InstalledAppProfilesType::RealProfiles,
    });
    let fallback = CommonBrowserProfile::new(
        &InstalledBrowserProfile {
            profile_cli_arg_value: "r".to_string(),
            profile_cli_container_name: None,
            profile_name: "r".to_string(),
            profile_icon: None,
            profile_restricted_url_patterns: Vec::new(),
        },
        app,
    );
    assert!(fallback.has_priority_ordering());
}

#[test]
fn sort_puts_priority_profiles_first_then_ranked_order() {
    let mut visible = vec![
        profile("/b", "c", &[]),
        profile("/b", "a", &["*.corp.com"]),
        profile("/b", "b", &[]),
    ];
    let order = strings(&[&uid("/b", "b"), &uid("/b", "c")]);
    sort_browser_profiles(&mut visible, &order);
    assert_eq!(ids(&visible), vec![uid("/b", "a"), uid("/b", "b"), uid("/b", "c")]);
}

#[test]
fn sort_is_stable_for_unranked_profiles() {
    let mut visible = vec![
        profile("/b", "one", &[]),
        profile("/b", "two", &[]),
        profile("/b", "three", &[]),
    ];
    sort_browser_profiles(&mut visible, &Vec::new());
    assert_eq!(
        ids(&visible),
        vec![uid("/b", "one"), uid("/b", "two"), uid("/b", "three")],
    );
}

#[test]
fn hide_then_restore_appends_after_non_priority() {
    let mut s = state(vec![
        profile("/b", "pri", &["*.corp.com"]),
        profile("/b", "x", &[]),
        profile("/b", "y", &[]),
    ]);
    let id = uid("/b", "x");
    s.hide_profile(&id);
    assert_eq!(
        ids(&s.visible_browser_profiles),
        vec![uid("/b", "pri"), uid("/b", "y")],
    );
    assert_eq!(ids(&s.hidden_browser_profiles), vec![id.clone()]);
    s.restore_profile(&id, &Vec::new());
    assert!(s.hidden_browser_profiles.is_empty());
    assert_eq!(
        ids(&s.visible_browser_profiles),
        vec![uid("/b", "pri"), uid("/b", "y"), uid("/b", "x")],
    );
}

#[test]
fn hide_of_unknown_id_is_a_noop() {
    let mut s = state(vec![profile("/b", "x", &[])]);
    s.hide_profile("/nope#zzz");
    assert_eq!(s.visible_browser_profiles.len(), 1);
    assert!(s.hidden_browser_profiles.is_empty());
}

#[test]
fn hide_all_profiles_of_app_keeps_relative_order() {
    let mut s = state(vec![
        profile("/b", "x", &[]),
        profile("/other", "o", &[]),
        profile("/b", "y", &[]),
    ]);
    s.hide_all_profiles_of_app("/b");
    assert_eq!(ids(&s.visible_browser_profiles), vec![uid("/other", "o")]);
    assert_eq!(
        ids(&s.hidden_browser_profiles),
        vec![uid("/b", "x"), uid("/b", "y")],
    );
}

#[test]
fn move_top_on_first_non_priority_is_a_noop() {
    let mut visible = vec![
        profile("/b", "pri", &["*.corp.com"]),
        profile("/b", "x", &[]),
        profile("/b", "y", &[]),
    ];
    let before = ids(&visible);
    move_app_profile(&mut visible, &uid("/b", "x"), MoveTo::TOP);
    assert_eq!(ids(&visible), before);
}

#[test]
fn move_bottom_on_last_profile_is_a_noop() {
    let mut visible = vec![profile("/b", "x", &[]), profile("/b", "y", &[])];
    let before = ids(&visible);
    move_app_profile(&mut visible, &uid("/b", "y"), MoveTo::BOTTOM);
    assert_eq!(ids(&visible), before);
}

#[test]
fn move_up_swaps_with_the_neighbor_above() {
    let mut visible = vec![
        profile("/b", "x", &[]),
        profile("/b", "y", &[]),
        profile("/b", "z", &[]),
    ];
    move_app_profile(&mut visible, &uid("/b", "z"), MoveTo::UP);
    assert_eq!(
        ids(&visible),
        vec![uid("/b", "x"), uid("/b", "z"), uid("/b", "y")],
    );
}

#[test]
fn move_never_crosses_the_priority_prefix() {
    let mut visible = vec![
        profile("/b", "pri", &["*.corp.com"]),
        profile("/b", "x", &[]),
        profile("/b", "y", &[]),
    ];
    move_app_profile(&mut visible, &uid("/b", "y"), MoveTo::TOP);
    assert_eq!(
        ids(&visible),
        vec![uid("/b", "pri"), uid("/b", "y"), uid("/b", "x")],
    );
    move_app_profile(&mut visible, &uid("/b", "pri"), MoveTo::DOWN);
    assert_eq!(
        ids(&visible),
        vec![uid("/b", "pri"), uid("/b", "y"), uid("/b", "x")],
    );
}

#[test]
fn non_priority_ids_skip_the_priority_prefix() {
    let visible = vec![
        profile("/b", "pri", &["*.corp.com"]),
        profile("/b", "x", &[]),
        profile("/b", "y", &[]),
    ];
    assert_eq!(
        non_priority_profile_ids(&visible),
        vec![uid("/b", "x"), uid("/b", "y")],
    );
}

#[test]
fn lookup_searches_visible_then_hidden() {
    let mut s = state(vec![profile("/b", "x", &[]), profile("/b", "y", &[])]);
    s.hide_profile(&uid("/b", "y"));
    let visible_hit = s.get_browser_profile_by_id(&uid("/b", "x"));
    assert_eq!(visible_hit.unwrap().get_profile_name(), "x");
    let hidden_hit = s.get_browser_profile_by_id(&uid("/b", "y"));
    assert_eq!(hidden_hit.unwrap().get_profile_name(), "y");
    assert!(s.get_browser_profile_by_id("/b#missing").is_none());
}

#[test]
fn generate_partitions_and_orders_discovered_profiles() {
    let installed = InstalledBrowser {
        command: strings(&["/usr/bin/b", "%u"]),
        executable_path: "/usr/bin/b".to_string(),
        display_name: "Browser".to_string(),
        bundle: "com.example.app".to_string(),
        user_dir: String::new(),
        icon_path: String::new(),
        profiles: InstalledAppProfiles::new_real(vec![
            InstalledBrowserProfile {
                profile_cli_arg_value: "plain".to_string(),
                profile_cli_container_name: None,
                profile_name: "plain".to_string(),
                profile_icon: None,
                profile_restricted_url_patterns: Vec::new(),
            },
            InstalledBrowserProfile {
                profile_cli_arg_value: "work".to_string(),
                profile_cli_container_name: None,
                profile_name: "work".to_string(),
                profile_icon: None,
                profile_restricted_url_patterns: strings(&["*.corp.com"]),
            },
            InstalledBrowserProfile {
                profile_cli_arg_value: "secret".to_string(),
                profile_cli_container_name: None,
                profile_name: "secret".to_string(),
                profile_icon: None,
                profile_restricted_url_patterns: Vec::new(),
            },
        ]),
        restricted_domains: Vec::new(),
    };
    let mut config = Config::new();
    config.set_hidden_profiles(&strings(&[&uid("/usr/bin/b", "secret")]));
    let s = generate_all_browser_profiles(&config, vec![(installed, supported_app(&[]))]);
    assert_eq!(
        ids(&s.visible_browser_profiles),
        vec![uid("/usr/bin/b", "work"), uid("/usr/bin/b", "plain")],
    );
    assert_eq!(
        ids(&s.hidden_browser_profiles),
        vec![uid("/usr/bin/b", "secret")],
    );
}

#[test]
fn generate_hides_whole_applications() {
    let installed = InstalledBrowser {
        command: strings(&["/usr/bin/b"]),
        executable_path: "/usr/bin/b".to_string(),
        display_name: "Browser".to_string(),
        bundle: "com.example.app".to_string(),
        user_dir: String::new(),
        icon_path: String::new(),
        profiles: InstalledAppProfiles::new_placeholder(),
        restricted_domains: Vec::new(),
    };
    let mut config = Config::new();
    config.set_hidden_apps(&strings(&["/usr/bin/b"]));
    let s = generate_all_browser_profiles(&config, vec![(installed, supported_app(&[]))]);
    assert!(s.visible_browser_profiles.is_empty());
    assert_eq!(s.hidden_browser_profiles.len(), 1);
}

#[test]
fn ordering_invariant_survives_mixed_operations() {
    let mut s = state(vec![
        profile("/b", "p1", &["*.a.com"]),
        profile("/b", "p2", &["*.b.com"]),
        profile("/b", "x", &[]),
        profile("/b", "y", &[]),
    ]);
    s.hide_profile(&uid("/b", "p2"));
    s.restore_profile(&uid("/b", "p2"), &Vec::new());
    move_app_profile(&mut s.visible_browser_profiles, &uid("/b", "x"), MoveTo::DOWN);
    s.hide_profile(&uid("/b", "y"));
    s.restore_profile(&uid("/b", "y"), &Vec::new());
    // every priority-restricted visible profile precedes every unrestricted one
    let priorities: Vec<bool> = s
        .visible_browser_profiles
        .iter()
        .map(|p| p.has_priority_ordering())
        .collect();
    let first_plain = priorities.iter().position(|p| !p).unwrap_or(priorities.len());
    assert!(priorities[..first_plain].iter().all(|p| *p));
    assert!(priorities[first_plain..].iter().all(|p| !p));
    // visible and hidden together still hold exactly the discovered profiles
    let mut all = ids(&s.visible_browser_profiles);
    all.extend(ids(&s.hidden_browser_profiles));
    all.sort();
    let mut expected = vec![
        uid("/b", "p1"),
        uid("/b", "p2"),
        uid("/b", "x"),
        uid("/b", "y"),
    ];
    expected.sort();
    assert_eq!(all, expected);
}
