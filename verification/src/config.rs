//! The in-memory configuration the surrounding system loads for the
//! core and persists after every mutation: the ordered rule list, the
//! default opener, the explicit profile ranking, and the hidden
//! profile/application id sets.

use vstd::prelude::*;

use crate::text::{contains_string, contains_string_exec, str_eq};

verus! {

/// A rule's or the default's target: a profile id plus the incognito flag.
pub struct ProfileAndOptions {
    pub profile: String,
    pub incognito: bool,
}

impl Clone for ProfileAndOptions {
    fn clone(&self) -> (res: Self)
        ensures
            res == *self,
    {
        ProfileAndOptions { profile: self.profile.clone(), incognito: self.incognito }
    }
}

pub fn clone_opt_profile_and_options(o: &Option<ProfileAndOptions>) -> (r: Option<
    ProfileAndOptions,
>)
    ensures
        r == *o,
{
    match o {
        Some(p) => Some(p.clone()),
        None => None,
    }
}

pub fn clone_opt_string(o: &Option<String>) -> (r: Option<String>)
    ensures
        r == *o,
{
    match o {
        Some(s) => Some(s.clone()),
        None => None,
    }
}

/// One configured opening rule as persisted: optional source-app filter,
/// optional URL pattern, optional target.
pub struct ConfigRule {
    pub source_app: Option<String>,
    pub url_pattern: Option<String>,
    pub opener: Option<ProfileAndOptions>,
}

impl Clone for ConfigRule {
    fn clone(&self) -> (res: Self)
        ensures
            res == *self,
    {
        ConfigRule {
            source_app: clone_opt_string(&self.source_app),
            url_pattern: clone_opt_string(&self.url_pattern),
            opener: clone_opt_profile_and_options(&self.opener),
        }
    }
}

impl ConfigRule {
    pub fn get_source_app(&self) -> (r: Option<String>)
        ensures
            r == self.source_app,
    {
        clone_opt_string(&self.source_app)
    }

    pub fn get_url_pattern(&self) -> (r: &Option<String>)
        ensures
            r == &self.url_pattern,
    {
        &self.url_pattern
    }

    pub fn get_opener(&self) -> (r: &Option<ProfileAndOptions>)
        ensures
            r == &self.opener,
    {
        &self.opener
    }
}

/// Presentation preferences kept alongside the core configuration.
pub struct UIConfig {
    pub show_hotkeys: bool,
    pub quit_on_lost_focus: bool,
    pub theme: String,
}

/// Behaviour toggles; `unwrap_urls` governs tracking-wrapper unwrapping.
pub struct BehavioralConfig {
    pub unwrap_urls: bool,
}

/// The full persisted configuration.
pub struct Config {
    rules: Vec<ConfigRule>,
    default_profile: Option<ProfileAndOptions>,
    profile_order: Vec<String>,
    hidden_profiles: Vec<String>,
    hidden_apps: Vec<String>,
    ui_config: UIConfig,
    behavior: BehavioralConfig,
}

impl Config {
    pub fn new() -> (c: Config)
        ensures
            c.spec_rules().len() == 0,
            c.spec_default_profile() is None,
            c.spec_profile_order().len() == 0,
            c.spec_hidden_profiles().len() == 0,
            c.spec_hidden_apps().len() == 0,
            !c.spec_behavior().unwrap_urls,
    {
        Config {
            rules: Vec::new(),
            default_profile: None,
            profile_order: Vec::new(),
            hidden_profiles: Vec::new(),
            hidden_apps: Vec::new(),
            ui_config: UIConfig {
                show_hotkeys: false,
                quit_on_lost_focus: false,
                theme: String::new(),
            },
            behavior: BehavioralConfig { unwrap_urls: false },
        }
    }

    pub closed spec fn spec_rules(&self) -> Seq<ConfigRule> {
        self.rules@
    }

    pub fn get_rules(&self) -> (r: &Vec<ConfigRule>)
        ensures
            r@ == self.spec_rules(),
    {
        &self.rules
    }

    pub closed spec fn spec_default_profile(&self) -> Option<ProfileAndOptions> {
        self.default_profile
    }

    pub fn get_default_profile(&self) -> (r: &Option<ProfileAndOptions>)
        ensures
            *r == self.spec_default_profile(),
    {
        &self.default_profile
    }

    pub closed spec fn spec_profile_order(&self) -> Seq<String> {
        self.profile_order@
    }

    pub fn get_profile_order(&self) -> (r: &Vec<String>)
        ensures
            r@ == self.spec_profile_order(),
    {
        &self.profile_order
    }

    pub closed spec fn spec_hidden_profiles(&self) -> Seq<String> {
        self.hidden_profiles@
    }

    pub fn get_hidden_profiles(&self) -> (r: &Vec<String>)
        ensures
            r@ == self.spec_hidden_profiles(),
    {
        &self.hidden_profiles
    }

    pub closed spec fn spec_hidden_apps(&self) -> Seq<String> {
        self.hidden_apps@
    }

    pub fn get_hidden_apps(&self) -> (r: &Vec<String>)
        ensures
            r@ == self.spec_hidden_apps(),
    {
        &self.hidden_apps
    }

    pub closed spec fn spec_ui_config(&self) -> UIConfig {
        self.ui_config
    }

    pub fn get_ui_config(&self) -> (r: &UIConfig)
        ensures
            *r == self.spec_ui_config(),
    {
        &self.ui_config
    }

    pub closed spec fn spec_behavior(&self) -> BehavioralConfig {
        self.behavior
    }

    pub fn get_behavior(&self) -> (r: &BehavioralConfig)
        ensures
            *r == self.spec_behavior(),
    {
        &self.behavior
    }

    /// Record one profile id as hidden; already-hidden ids are kept once.
    pub fn hide_profile(&mut self, unique_id: &str)
        ensures
            contains_string(final(self).spec_hidden_profiles(), unique_id@),
            contains_string(old(self).spec_hidden_profiles(), unique_id@)
                ==> final(self).spec_hidden_profiles() == old(self).spec_hidden_profiles(),
            !contains_string(old(self).spec_hidden_profiles(), unique_id@) ==> {
                &&& final(self).spec_hidden_profiles().len()
                    == old(self).spec_hidden_profiles().len() + 1
                &&& final(self).spec_hidden_profiles().drop_last()
                    == old(self).spec_hidden_profiles()
                &&& final(self).spec_hidden_profiles().last()@ == unique_id@
            },
            final(self).spec_rules() == old(self).spec_rules(),
            final(self).spec_default_profile() == old(self).spec_default_profile(),
            final(self).spec_profile_order() == old(self).spec_profile_order(),
            final(self).spec_hidden_apps() == old(self).spec_hidden_apps(),
            final(self).spec_behavior() == old(self).spec_behavior(),
    {
        if !contains_string_exec(&self.hidden_profiles, unique_id) {
            self.hidden_profiles.push(String::from_str(unique_id));
            proof {
                let s = self.spec_hidden_profiles();
                assert(s.drop_last() =~= old(self).spec_hidden_profiles());
                assert(s[s.len() - 1]@ == unique_id@);
            }
        }
    }

    /// Record several profile ids as hidden, in order.
    pub fn hide_all_profiles(&mut self, unique_ids: &Vec<String>)
        ensures
            forall|i: int|
                0 <= i < unique_ids@.len() ==> contains_string(
                    final(self).spec_hidden_profiles(),
                    unique_ids@[i]@,
                ),
            final(self).spec_rules() == old(self).spec_rules(),
            final(self).spec_default_profile() == old(self).spec_default_profile(),
            final(self).spec_profile_order() == old(self).spec_profile_order(),
            final(self).spec_hidden_apps() == old(self).spec_hidden_apps(),
            final(self).spec_behavior() == old(self).spec_behavior(),
    {
        let mut i: usize = 0;
        while i < unique_ids.len()
            invariant
                i <= unique_ids@.len(),
                forall|k: int|
                    0 <= k < i ==> contains_string(self.spec_hidden_profiles(), unique_ids@[k]@),
                self.spec_rules() == old(self).spec_rules(),
                self.spec_default_profile() == old(self).spec_default_profile(),
                self.spec_profile_order() == old(self).spec_profile_order(),
                self.spec_hidden_apps() == old(self).spec_hidden_apps(),
                self.spec_behavior() == old(self).spec_behavior(),
            decreases unique_ids@.len() - i,
        {
            let ghost before = self.spec_hidden_profiles();
            self.hide_profile(unique_ids[i].as_str());
            proof {
                assert forall|k: int| 0 <= k <= i implies contains_string(
                    self.spec_hidden_profiles(),
                    unique_ids@[k]@,
                ) by {
                    if k < i {
                        let w = choose|w: int|
                            0 <= w < before.len() && before[w]@ == unique_ids@[k]@;
                        assert(self.spec_hidden_profiles()[w]@ == unique_ids@[k]@);
                    } else {
                        if contains_string(before, unique_ids@[k]@) {
                            let w = choose|w: int|
                                0 <= w < before.len() && before[w]@ == unique_ids@[k]@;
                            assert(self.spec_hidden_profiles()[w]@ == unique_ids@[k]@);
                        } else {
                            let last = self.spec_hidden_profiles().len() - 1;
                            assert(self.spec_hidden_profiles()[last]@ == unique_ids@[k]@);
                        }
                    }
                }
            }
            i = i + 1;
        }
    }

    /// Drop one profile id from the hidden set, keeping the others in order.
    pub fn restore_profile(&mut self, unique_id: &str)
        ensures
            final(self).spec_hidden_profiles() == old(self).spec_hidden_profiles().filter(
                |s: String| s@ != unique_id@,
            ),
            !contains_string(final(self).spec_hidden_profiles(), unique_id@),
            final(self).spec_rules() == old(self).spec_rules(),
            final(self).spec_default_profile() == old(self).spec_default_profile(),
            final(self).spec_profile_order() == old(self).spec_profile_order(),
            final(self).spec_hidden_apps() == old(self).spec_hidden_apps(),
            final(self).spec_behavior() == old(self).spec_behavior(),
    {
        let ghost pred = |s: String| s@ != unique_id@;
        let ghost whole = self.hidden_profiles@;
        let mut kept: Vec<String> = Vec::new();
        let n = self.hidden_profiles.len();
        let mut i: usize = 0;
        proof {
            assert(whole.take(0int) =~= Seq::<String>::empty());
        }
        while i < n
            invariant
                n == self.hidden_profiles@.len(),
                whole == self.hidden_profiles@,
                i <= n,
                kept@ == whole.take(i as int).filter(pred),
                pred == (|s: String| s@ != unique_id@),
                forall|k: int| 0 <= k < kept@.len() ==> kept@[k]@ != unique_id@,
            decreases n - i,
        {
            proof {
                reveal_with_fuel(Seq::filter, 2);
                assert(whole.take(i as int + 1).drop_last() =~= whole.take(i as int));
                assert(whole.take(i as int + 1).last() == whole[i as int]);
            }
            if !str_eq(self.hidden_profiles[i].as_str(), unique_id) {
                kept.push(self.hidden_profiles[i].clone());
            }
            i = i + 1;
        }
        proof {
            assert(whole.take(n as int) =~= whole);
        }
        self.hidden_profiles = kept;
    }

    pub fn set_rules(&mut self, rules: &Vec<ConfigRule>)
        ensures
            final(self).spec_rules() == rules@,
            final(self).spec_default_profile() == old(self).spec_default_profile(),
            final(self).spec_profile_order() == old(self).spec_profile_order(),
            final(self).spec_hidden_profiles() == old(self).spec_hidden_profiles(),
            final(self).spec_hidden_apps() == old(self).spec_hidden_apps(),
            final(self).spec_behavior() == old(self).spec_behavior(),
    {
        let mut copied: Vec<ConfigRule> = Vec::new();
        let mut i: usize = 0;
        while i < rules.len()
            invariant
                i <= rules@.len(),
                copied@ == rules@.take(i as int),
            decreases rules@.len() - i,
        {
            copied.push(rules[i].clone());
            i = i + 1;
            proof {
                assert(copied@ =~= rules@.take(i as int));
            }
        }
        proof {
            assert(rules@.take(rules@.len() as int) =~= rules@);
        }
        self.rules = copied;
    }

    pub fn set_default_profile(&mut self, default_profile: &Option<ProfileAndOptions>)
        ensures
            final(self).spec_default_profile() == *default_profile,
            final(self).spec_rules() == old(self).spec_rules(),
            final(self).spec_profile_order() == old(self).spec_profile_order(),
            final(self).spec_hidden_profiles() == old(self).spec_hidden_profiles(),
            final(self).spec_hidden_apps() == old(self).spec_hidden_apps(),
            final(self).spec_behavior() == old(self).spec_behavior(),
    {
        self.default_profile = clone_opt_profile_and_options(default_profile);
    }

    pub fn set_profile_order(&mut self, order: &Vec<String>)
        ensures
            final(self).spec_profile_order() == order@,
            final(self).spec_rules() == old(self).spec_rules(),
            final(self).spec_default_profile() == old(self).spec_default_profile(),
            final(self).spec_hidden_profiles() == old(self).spec_hidden_profiles(),
            final(self).spec_hidden_apps() == old(self).spec_hidden_apps(),
            final(self).spec_behavior() == old(self).spec_behavior(),
    {
        self.profile_order = order.clone();
    }

    pub fn set_hidden_apps(&mut self, hidden_apps: &Vec<String>)
        ensures
            final(self).spec_hidden_apps() == hidden_apps@,
            final(self).spec_rules() == old(self).spec_rules(),
            final(self).spec_default_profile() == old(self).spec_default_profile(),
            final(self).spec_profile_order() == old(self).spec_profile_order(),
            final(self).spec_hidden_profiles() == old(self).spec_hidden_profiles(),
            final(self).spec_behavior() == old(self).spec_behavior(),
    {
        self.hidden_apps = hidden_apps.clone();
    }

    pub fn set_hidden_profiles(&mut self, hidden_profiles: &Vec<String>)
        ensures
            final(self).spec_hidden_profiles() == hidden_profiles@,
            final(self).spec_rules() == old(self).spec_rules(),
            final(self).spec_default_profile() == old(self).spec_default_profile(),
            final(self).spec_profile_order() == old(self).spec_profile_order(),
            final(self).spec_hidden_apps() == old(self).spec_hidden_apps(),
            final(self).spec_behavior() == old(self).spec_behavior(),
    {
        self.hidden_profiles = hidden_profiles.clone();
    }

    pub fn set_ui_config(&mut self, ui_config: UIConfig)
        ensures
            final(self).spec_ui_config() == ui_config,
            final(self).spec_rules() == old(self).spec_rules(),
            final(self).spec_default_profile() == old(self).spec_default_profile(),
            final(self).spec_profile_order() == old(self).spec_profile_order(),
            final(self).spec_hidden_profiles() == old(self).spec_hidden_profiles(),
            final(self).spec_hidden_apps() == old(self).spec_hidden_apps(),
            final(self).spec_behavior() == old(self).spec_behavior(),
    {
        self.ui_config = ui_config;
    }

    pub fn set_behavior(&mut self, behavior: BehavioralConfig)
        ensures
            final(self).spec_behavior() == behavior,
            final(self).spec_rules() == old(self).spec_rules(),
            final(self).spec_default_profile() == old(self).spec_default_profile(),
            final(self).spec_profile_order() == old(self).spec_profile_order(),
            final(self).spec_hidden_profiles() == old(self).spec_hidden_profiles(),
            final(self).spec_hidden_apps() == old(self).spec_hidden_apps(),
    {
        self.behavior = behavior;
    }
}

} // verus!
