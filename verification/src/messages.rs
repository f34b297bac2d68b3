//! The messages the serialized main loop processes, and the conversions
//! between the presentation layer's rule values and the persisted
//! configuration rules. The loop itself (channels, spawning, the event
//! sink) lives outside the core; the decisions its branches make are the
//! verified operations of the other modules.

use vstd::prelude::*;

use crate::config::{clone_opt_string, BehavioralConfig, ConfigRule, ProfileAndOptions};
use crate::visibility::MoveTo;

verus! {

/// A rule target as the presentation layer hands it over.
pub struct UIProfileAndIncognito {
    pub profile: String,
    pub incognito: bool,
}

/// A rule as the presentation layer hands it over.
pub struct UISettingsRule {
    pub source_app: Option<String>,
    pub url_pattern: Option<String>,
    pub opener: Option<UIProfileAndIncognito>,
}

impl UISettingsRule {
    pub fn get_source_app(&self) -> (r: Option<String>)
        ensures
            r == self.source_app,
    {
        clone_opt_string(&self.source_app)
    }

    pub fn get_url_pattern(&self) -> (r: Option<String>)
        ensures
            r == self.url_pattern,
    {
        clone_opt_string(&self.url_pattern)
    }
}

/// Presentation preferences as the settings dialog hands them over.
pub struct UIVisualSettings {
    pub show_hotkeys: bool,
    pub quit_on_lost_focus: bool,
    pub theme: String,
}

/// Behaviour toggles as the settings dialog hands them over.
pub struct UIBehavioralSettings {
    pub unwrap_urls: bool,
}

/// Everything the main loop can be asked to do.
pub enum MessageToMain {
    Refresh,
    OpenLink(usize, bool, String),
    UrlOpenRequest(String, String),
    UrlPassedToMain(String, String, BehavioralConfig),
    LinkOpenedFromBundle(String, String),
    SetBrowsersAsDefaultBrowser,
    HideAppProfile(String),
    HideAllProfiles(String),
    RestoreAppProfile(String),
    MoveAppProfile(String, MoveTo),
    SaveConfigRules(Vec<UISettingsRule>),
    SaveConfigDefaultOpener(Option<UIProfileAndIncognito>),
    SaveConfigUISettings(UIVisualSettings),
    SaveConfigUIBehavioralSettings(UIBehavioralSettings),
}

/// The target a presentation-layer rule selects, in the persisted form.
pub open spec fn spec_profile_and_options(o: Option<UIProfileAndIncognito>) -> Option<
    ProfileAndOptions,
> {
    match o {
        Some(p) => Some(ProfileAndOptions { profile: p.profile, incognito: p.incognito }),
        None => None,
    }
}

pub fn map_as_profile_and_options(opener: &Option<UIProfileAndIncognito>) -> (r: Option<
    ProfileAndOptions,
>)
    ensures
        r == spec_profile_and_options(*opener),
{
    match opener {
        Some(p) => Some(
            ProfileAndOptions { profile: p.profile.clone(), incognito: p.incognito },
        ),
        None => None,
    }
}

/// A presentation-layer rule in the persisted form.
pub open spec fn spec_config_rule(r: UISettingsRule) -> ConfigRule {
    ConfigRule {
        source_app: r.source_app,
        url_pattern: r.url_pattern,
        opener: spec_profile_and_options(r.opener),
    }
}

/// The persisted rules a saved rule list stands for, in order.
pub fn to_config_rules(ui_rules: &Vec<UISettingsRule>) -> (r: Vec<ConfigRule>)
    ensures
        r@ == ui_rules@.map_values(|u: UISettingsRule| spec_config_rule(u)),
{
    let mut r: Vec<ConfigRule> = Vec::new();
    let mut i: usize = 0;
    while i < ui_rules.len()
        invariant
            i <= ui_rules@.len(),
            r@ == ui_rules@.take(i as int).map_values(|u: UISettingsRule| spec_config_rule(u)),
        decreases ui_rules@.len() - i,
    {
        let ui_rule = &ui_rules[i];
        r.push(
            ConfigRule {
                source_app: ui_rule.get_source_app(),
                url_pattern: ui_rule.get_url_pattern(),
                opener: map_as_profile_and_options(&ui_rule.opener),
            },
        );
        i = i + 1;
        proof {
            assert(r@ =~= ui_rules@.take(i as int).map_values(
                |u: UISettingsRule| spec_config_rule(u),
            ));
        }
    }
    proof {
        assert(ui_rules@.take(ui_rules@.len() as int) =~= ui_rules@);
    }
    r
}

} // verus!
