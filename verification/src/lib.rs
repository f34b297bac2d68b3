//! Decision core of a "route a URL to a browser profile" utility.
//!
//! The crate compiles glob-style URL patterns into matchers, resolves an
//! ordered rule list against an incoming URL and source application,
//! keeps the visible/hidden profile partition ordered with
//! priority-restricted profiles pinned first, and constructs the
//! platform-specific launch invocation for a chosen profile.

pub mod command;
pub mod config;
pub mod dispatch;
pub mod messages;
pub mod profiles;
pub mod rules;
pub mod text;
pub mod unwrap;
pub mod url_parse;
pub mod url_pattern;
pub mod visibility;

pub use command::{ProcessInvocation, TargetOs};
pub use config::{BehavioralConfig, Config, ConfigRule, ProfileAndOptions, UIConfig};
pub use dispatch::open_link_if_matching_rule;
pub use messages::{
    MessageToMain,
    UIBehavioralSettings,
    UIProfileAndIncognito,
    UISettingsRule,
    UIVisualSettings,
};
pub use profiles::{
    BrowserCommon,
    CommonBrowserProfile,
    GenericApp,
    InstalledAppProfiles,
    InstalledAppProfilesType,
    InstalledBrowser,
    InstalledBrowserProfile,
    ProfileIcon,
    SupportedApp,
    UrlTransform,
};
pub use rules::{get_opening_rules, OpeningRule, OpeningRulesAndDefaultProfile, UrlOpenContext};
pub use unwrap::unwrap_url;
pub use url_parse::{parse_url, ParsedUrl};
pub use url_pattern::UrlGlobMatcher;
pub use visibility::{
    generate_all_browser_profiles,
    move_app_profile,
    non_priority_profile_ids,
    sort_browser_profiles,
    MoveTo,
    VisibleAndHiddenProfiles,
};
