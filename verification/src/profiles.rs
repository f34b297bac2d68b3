//! Applications and their profiles: the discovery descriptors handed to
//! the core, the shared read-only application record, and the profile
//! values the visibility manager moves between its collections.

use vstd::prelude::*;

use std::sync::Arc;

use crate::text::views_of;
use crate::url_pattern::{compile_spec, UrlGlobMatcher, UrlGlobMatcherView};

verus! {

/// The matcher views of a compiled pattern list.
pub open spec fn matcher_views(v: Seq<UrlGlobMatcher>) -> Seq<UrlGlobMatcherView> {
    v.map_values(|m: UrlGlobMatcher| m@)
}

/// How an application rewrites a URL before it is placed into the launch
/// arguments: either kept as it is, or wrapped between a fixed prefix and
/// suffix (the prefix may carry a profile-container marker).
pub enum UrlTransform {
    Keep,
    Wrap { prefix: String, suffix: String },
}

/// The transformed URL as a sequence.
pub open spec fn transformed_url(t: UrlTransform, url: Seq<char>) -> Seq<char> {
    match t {
        UrlTransform::Keep => url,
        UrlTransform::Wrap { prefix, suffix } => prefix@ + url + suffix@,
    }
}

/// Capability descriptor of a supported application: launch identity,
/// incognito capability, profile-argument template, URL-transform hook
/// and the application-level restricted-domain fallback.
pub struct SupportedApp {
    app_id: String,
    url_as_first_arg: bool,
    incognito_supported: bool,
    incognito_args: Vec<String>,
    profile_args_template: Vec<String>,
    url_transform: UrlTransform,
    restricted_hostname_matchers: Vec<UrlGlobMatcher>,
}

impl SupportedApp {
    pub closed spec fn spec_app_id(&self) -> Seq<char> {
        self.app_id@
    }

    pub closed spec fn spec_url_as_first_arg(&self) -> bool {
        self.url_as_first_arg
    }

    pub closed spec fn spec_supports_incognito(&self) -> bool {
        self.incognito_supported
    }

    pub closed spec fn spec_incognito_args(&self) -> Seq<String> {
        self.incognito_args@
    }

    pub closed spec fn spec_profile_args_template(&self) -> Seq<String> {
        self.profile_args_template@
    }

    pub closed spec fn spec_url_transform(&self) -> UrlTransform {
        self.url_transform
    }

    pub closed spec fn spec_restricted_matchers(&self) -> Seq<UrlGlobMatcherView> {
        matcher_views(self.restricted_hostname_matchers@)
    }

    /// Build a descriptor; the restricted-domain patterns are compiled
    /// here, once, into the application-level fallback matchers.
    pub fn new(
        app_id: String,
        url_as_first_arg: bool,
        incognito_supported: bool,
        incognito_args: Vec<String>,
        profile_args_template: Vec<String>,
        url_transform: UrlTransform,
        restricted_domains: &Vec<String>,
    ) -> (r: SupportedApp)
        ensures
            r.spec_app_id() == app_id@,
            r.spec_url_as_first_arg() == url_as_first_arg,
            r.spec_supports_incognito() == incognito_supported,
            r.spec_incognito_args() == incognito_args@,
            r.spec_profile_args_template() == profile_args_template@,
            r.spec_url_transform() == url_transform,
            r.spec_restricted_matchers().len() == restricted_domains@.len(),
            forall|i: int|
                0 <= i < restricted_domains@.len() ==> r.spec_restricted_matchers()[i]
                    == compile_spec(restricted_domains@[i]@),
    {
        SupportedApp {
            app_id,
            url_as_first_arg,
            incognito_supported,
            incognito_args,
            profile_args_template,
            url_transform,
            restricted_hostname_matchers: generate_restricted_hostname_matchers(
                restricted_domains,
            ),
        }
    }

    pub fn get_app_id(&self) -> (r: &String)
        ensures
            r@ == self.spec_app_id(),
    {
        &self.app_id
    }

    pub fn is_url_as_first_arg(&self) -> (r: bool)
        ensures
            r == self.spec_url_as_first_arg(),
    {
        self.url_as_first_arg
    }

    pub fn supports_incognito(&self) -> (r: bool)
        ensures
            r == self.spec_supports_incognito(),
    {
        self.incognito_supported
    }

    pub fn get_incognito_args(&self) -> (r: &Vec<String>)
        ensures
            r@ == self.spec_incognito_args(),
    {
        &self.incognito_args
    }

    pub fn get_profile_args_template(&self) -> (r: &Vec<String>)
        ensures
            r@ == self.spec_profile_args_template(),
    {
        &self.profile_args_template
    }

    pub fn get_url_transform(&self) -> (r: &UrlTransform)
        ensures
            *r == self.spec_url_transform(),
    {
        &self.url_transform
    }

    pub fn get_restricted_hostname_matchers(&self) -> (r: &Vec<UrlGlobMatcher>)
        ensures
            matcher_views(r@) == self.spec_restricted_matchers(),
    {
        &self.restricted_hostname_matchers
    }
}

/// Compile a list of restricted-domain patterns into matchers.
pub fn generate_restricted_hostname_matchers(restricted_url_patterns: &Vec<String>) -> (r: Vec<
    UrlGlobMatcher,
>)
    ensures
        r@.len() == restricted_url_patterns@.len(),
        forall|i: int|
            0 <= i < r@.len() ==> matcher_views(r@)[i] == compile_spec(
                restricted_url_patterns@[i]@,
            ),
{
    let mut r: Vec<UrlGlobMatcher> = Vec::new();
    let mut i: usize = 0;
    while i < restricted_url_patterns.len()
        invariant
            i <= restricted_url_patterns@.len(),
            r@.len() == i,
            forall|k: int|
                0 <= k < i ==> matcher_views(r@)[k] == compile_spec(
                    restricted_url_patterns@[k]@,
                ),
        decreases restricted_url_patterns@.len() - i,
    {
        let ghost prev = r@;
        r.push(UrlGlobMatcher::compile(restricted_url_patterns[i].as_str()));
        proof {
            assert forall|k: int| 0 <= k <= i implies matcher_views(r@)[k] == compile_spec(
                restricted_url_patterns@[k]@,
            ) by {
                assert(matcher_views(r@)[k] == r@[k]@);
                if k < i {
                    assert(r@[k] == prev[k]);
                    assert(matcher_views(prev)[k] == prev[k]@);
                }
            }
        }
        i = i + 1;
    }
    r
}

/// Whether an application's discovered profile list is real or a single
/// placeholder standing for the whole application.
#[derive(Clone, Copy, PartialEq, Eq, Structural)]
pub enum InstalledAppProfilesType {
    RealProfiles,
    PlaceholderProfiles,
}

/// A discovered profile descriptor, as the discovery collaborator
/// delivers it.
pub struct InstalledBrowserProfile {
    pub profile_cli_arg_value: String,
    pub profile_cli_container_name: Option<String>,
    pub profile_name: String,
    pub profile_icon: Option<String>,
    pub profile_restricted_url_patterns: Vec<String>,
}

/// The discovered profile list of one application.
pub struct InstalledAppProfiles {
    pub profiles_type: InstalledAppProfilesType,
    pub profiles: Vec<InstalledBrowserProfile>,
}

impl InstalledAppProfiles {
    pub fn new_real(profiles: Vec<InstalledBrowserProfile>) -> (r: InstalledAppProfiles)
        ensures
            r.profiles_type == InstalledAppProfilesType::RealProfiles,
            r.profiles == profiles,
    {
        Self { profiles_type: InstalledAppProfilesType::RealProfiles, profiles }
    }

    /// A single empty placeholder profile standing for the application.
    pub fn new_placeholder() -> (r: InstalledAppProfiles)
        ensures
            r.profiles_type == InstalledAppProfilesType::PlaceholderProfiles,
            r.profiles@.len() == 1,
            r.profiles@[0].profile_cli_arg_value@.len() == 0,
            r.profiles@[0].profile_cli_container_name is None,
            r.profiles@[0].profile_name@.len() == 0,
            r.profiles@[0].profile_icon is None,
            r.profiles@[0].profile_restricted_url_patterns@.len() == 0,
    {
        Self {
            profiles_type: InstalledAppProfilesType::PlaceholderProfiles,
            profiles: Self::find_placeholder_profiles(),
        }
    }

    fn find_placeholder_profiles() -> (r: Vec<InstalledBrowserProfile>)
        ensures
            r@.len() == 1,
            r@[0].profile_cli_arg_value@.len() == 0,
            r@[0].profile_cli_container_name is None,
            r@[0].profile_name@.len() == 0,
            r@[0].profile_icon is None,
            r@[0].profile_restricted_url_patterns@.len() == 0,
    {
        let mut browser_profiles: Vec<InstalledBrowserProfile> = Vec::new();
        browser_profiles.push(
            InstalledBrowserProfile {
                profile_cli_arg_value: String::new(),
                profile_cli_container_name: None,
                profile_name: String::new(),
                profile_icon: None,
                profile_restricted_url_patterns: Vec::new(),
            },
        );
        browser_profiles
    }
}

/// An icon reference, as persisted for a profile.
pub enum ProfileIcon {
    NoIcon,
    Remote { url: String },
    Local { path: String },
    Name { name: String },
}

/// A discovered application, as the discovery collaborator delivers it.
pub struct InstalledBrowser {
    pub command: Vec<String>,
    pub executable_path: String,
    pub display_name: String,
    pub bundle: String,
    pub user_dir: String,
    pub icon_path: String,
    pub profiles: InstalledAppProfiles,
    pub restricted_domains: Vec<String>,
}

/// The shared, read-only record of one application, referenced by all of
/// its profiles.
pub struct BrowserCommon {
    pub command: Vec<String>,
    pub executable_path: String,
    pub display_name: String,
    pub icon_path: String,
    pub supported_app: SupportedApp,
    pub profiles_type: InstalledAppProfilesType,
}

impl BrowserCommon {
    /// The id that identifies this application in the configuration.
    pub open spec fn spec_unique_app_id(&self) -> Seq<char> {
        self.executable_path@
    }

    pub fn get_unique_app_id(&self) -> (r: String)
        ensures
            r@ == self.spec_unique_app_id(),
    {
        self.executable_path.clone()
    }

    pub fn has_real_profiles(&self) -> (r: bool)
        ensures
            r == (self.profiles_type == InstalledAppProfilesType::RealProfiles),
    {
        self.profiles_type == InstalledAppProfilesType::RealProfiles
    }

    pub fn supports_incognito(&self) -> (r: bool)
        ensures
            r == self.supported_app.spec_supports_incognito(),
    {
        self.supported_app.supports_incognito()
    }

    pub fn get_browser_icon_path(&self) -> (r: &str)
        ensures
            r@ == self.icon_path@,
    {
        self.icon_path.as_str()
    }

    pub fn get_display_name(&self) -> (r: &str)
        ensures
            r@ == self.display_name@,
    {
        self.display_name.as_str()
    }
}

/// Relies on std's `Arc::clone`: the returned handle refers to the same
/// shared application record.
#[verifier::external_body]
pub(crate) fn clone_app_handle(app: &Arc<BrowserCommon>) -> (r: Arc<BrowserCommon>)
    ensures
        r == *app,
{
    Arc::clone(app)
}

/// One selectable launch context: a profile of an application, plus a
/// shared handle to its owning application record. Immutable after
/// construction; configuration changes move profiles between
/// collections, never edit them.
pub struct CommonBrowserProfile {
    pub profile_cli_arg_value: String,
    pub profile_cli_container_name: Option<String>,
    pub profile_name: String,
    pub profile_icon: Option<String>,
    pub profile_restricted_url_matchers: Vec<UrlGlobMatcher>,
    pub app: Arc<BrowserCommon>,
}

impl CommonBrowserProfile {
    pub fn new(installed_browser_profile: &InstalledBrowserProfile, app: Arc<BrowserCommon>) -> (r:
        CommonBrowserProfile)
        ensures
            r.profile_cli_arg_value@ == installed_browser_profile.profile_cli_arg_value@,
            r.profile_cli_container_name == installed_browser_profile.profile_cli_container_name,
            r.profile_name@ == installed_browser_profile.profile_name@,
            r.profile_icon == installed_browser_profile.profile_icon,
            matcher_views(r.profile_restricted_url_matchers@)
                == installed_browser_profile.profile_restricted_url_patterns@.map_values(
                |p: String| compile_spec(p@),
            ),
            r.app == app,
    {
        let profile_restricted_url_matchers = generate_restricted_hostname_matchers(
            &installed_browser_profile.profile_restricted_url_patterns,
        );
        proof {
            assert(matcher_views(profile_restricted_url_matchers@)
                =~= installed_browser_profile.profile_restricted_url_patterns@.map_values(
                |p: String| compile_spec(p@),
            ));
        }
        CommonBrowserProfile {
            profile_cli_arg_value: installed_browser_profile.profile_cli_arg_value.clone(),
            profile_cli_container_name: crate::config::clone_opt_string(
                &installed_browser_profile.profile_cli_container_name,
            ),
            profile_name: installed_browser_profile.profile_name.clone(),
            profile_icon: crate::config::clone_opt_string(
                &installed_browser_profile.profile_icon,
            ),
            profile_restricted_url_matchers,
            app,
        }
    }

    /// The id that identifies this profile in the configuration:
    /// `<executable path>#<profile argument>[#<container>]`.
    pub open spec fn spec_unique_id(&self) -> Seq<char> {
        let base = self.app.spec_unique_app_id() + seq!['#'] + self.profile_cli_arg_value@;
        match self.profile_cli_container_name {
            Some(c) => base + seq!['#'] + c@,
            None => base,
        }
    }

    pub fn get_unique_id(&self) -> (r: String)
        ensures
            r@ == self.spec_unique_id(),
    {
        proof {
            reveal_strlit("#");
            assert("#"@ =~= seq!['#']);
        }
        let mut s = self.get_unique_app_id();
        s.append("#");
        s.append(self.profile_cli_arg_value.as_str());
        match &self.profile_cli_container_name {
            Some(profile_cli_container_name) => {
                s.append("#");
                s.append(profile_cli_container_name.as_str());
            },
            None => {},
        }
        s
    }

    pub open spec fn spec_unique_app_id(&self) -> Seq<char> {
        self.app.spec_unique_app_id()
    }

    pub fn get_unique_app_id(&self) -> (r: String)
        ensures
            r@ == self.spec_unique_app_id(),
    {
        self.get_browser_common().get_unique_app_id()
    }

    pub fn get_browser_common(&self) -> (r: &BrowserCommon)
        ensures
            *r == *self.app,
    {
        &self.app
    }

    /// The matchers that decide priority: the profile's own when it has
    /// any, else the application-level fallback.
    pub open spec fn spec_restricted_matchers(&self) -> Seq<UrlGlobMatcherView> {
        if matcher_views(self.profile_restricted_url_matchers@).len() > 0 {
            matcher_views(self.profile_restricted_url_matchers@)
        } else {
            self.app.supported_app.spec_restricted_matchers()
        }
    }

    /// Priority profiles sort before all unrestricted profiles.
    pub open spec fn spec_has_priority(&self) -> bool {
        self.spec_restricted_matchers().len() > 0
    }

    pub fn has_priority_ordering(&self) -> (r: bool)
        ensures
            r == self.spec_has_priority(),
    {
        !self.get_restricted_url_matchers().is_empty()
    }

    pub fn get_restricted_url_matchers(&self) -> (r: &Vec<UrlGlobMatcher>)
        ensures
            matcher_views(r@) == self.spec_restricted_matchers(),
    {
        if !self.profile_restricted_url_matchers.is_empty() {
            &self.profile_restricted_url_matchers
        } else {
            self.get_browser_common().supported_app.get_restricted_hostname_matchers()
        }
    }

    pub fn get_browser_name(&self) -> (r: &str)
        ensures
            r@ == self.app.display_name@,
    {
        self.get_browser_common().get_display_name()
    }

    pub fn get_browser_icon_path(&self) -> (r: &str)
        ensures
            r@ == self.app.icon_path@,
    {
        self.get_browser_common().get_browser_icon_path()
    }

    pub fn get_profile_icon_path(&self) -> (r: Option<&String>)
        ensures
            match r {
                Some(p) => self.profile_icon matches Some(q) && p@ == q@,
                None => self.profile_icon is None,
            },
    {
        self.profile_icon.as_ref()
    }

    pub fn get_profile_name(&self) -> (r: &str)
        ensures
            r@ == self.profile_name@,
    {
        self.profile_name.as_str()
    }
}

/// One discovered application with its selectable profiles, assembled
/// from a discovery descriptor and the matching capability descriptor.
pub struct GenericApp {
    app: Arc<BrowserCommon>,
    profiles: Vec<CommonBrowserProfile>,
}

/// The shared application record carries exactly the discovery
/// descriptor's launch data and the capability descriptor.
pub open spec fn app_record_matches(
    app: BrowserCommon,
    installed_browser: InstalledBrowser,
    supported_app: SupportedApp,
) -> bool {
    &&& app.command@ == installed_browser.command@
    &&& app.executable_path@ == installed_browser.executable_path@
    &&& app.display_name@ == installed_browser.display_name@
    &&& app.icon_path@ == installed_browser.icon_path@
    &&& app.profiles_type == installed_browser.profiles.profiles_type
    &&& app.supported_app == supported_app
}

/// A selectable profile carries exactly its discovery descriptor's
/// fields, its patterns compiled, and a handle to the given record.
pub open spec fn profile_built_from(
    p: CommonBrowserProfile,
    d: InstalledBrowserProfile,
    app: BrowserCommon,
) -> bool {
    &&& p.profile_cli_arg_value@ == d.profile_cli_arg_value@
    &&& p.profile_cli_container_name == d.profile_cli_container_name
    &&& p.profile_name@ == d.profile_name@
    &&& p.profile_icon == d.profile_icon
    &&& matcher_views(p.profile_restricted_url_matchers@)
        == d.profile_restricted_url_patterns@.map_values(|s: String| compile_spec(s@))
    &&& *p.app == app
}

impl GenericApp {
    pub fn new(installed_browser: &InstalledBrowser, supported_app: SupportedApp) -> (r:
        GenericApp)
        ensures
            app_record_matches(r.spec_app(), *installed_browser, supported_app),
            r.spec_app().spec_unique_app_id() == installed_browser.executable_path@,
            r.spec_profiles().len() == installed_browser.profiles.profiles@.len(),
            forall|i: int|
                0 <= i < r.spec_profiles().len() ==> profile_built_from(
                    #[trigger] r.spec_profiles()[i],
                    installed_browser.profiles.profiles@[i],
                    r.spec_app(),
                ),
    {
        let ghost sa = supported_app;
        let app = BrowserCommon {
            supported_app,
            command: installed_browser.command.clone(),
            executable_path: installed_browser.executable_path.clone(),
            display_name: installed_browser.display_name.clone(),
            icon_path: installed_browser.icon_path.clone(),
            profiles_type: installed_browser.profiles.profiles_type,
        };
        let arc = Arc::new(app);
        proof {
            assert(app_record_matches(*arc, *installed_browser, sa));
        }
        let mut profiles: Vec<CommonBrowserProfile> = Vec::new();
        let mut i: usize = 0;
        while i < installed_browser.profiles.profiles.len()
            invariant
                i <= installed_browser.profiles.profiles@.len(),
                profiles@.len() == i,
                app_record_matches(*arc, *installed_browser, sa),
                forall|k: int|
                    0 <= k < i ==> profile_built_from(
                        #[trigger] profiles@[k],
                        installed_browser.profiles.profiles@[k],
                        *arc,
                    ),
            decreases installed_browser.profiles.profiles@.len() - i,
        {
            let installed_profile = &installed_browser.profiles.profiles[i];
            profiles.push(CommonBrowserProfile::new(installed_profile, clone_app_handle(&arc)));
            i = i + 1;
        }
        GenericApp { app: arc, profiles }
    }

    pub closed spec fn spec_app(&self) -> BrowserCommon {
        *self.app
    }

    pub closed spec fn spec_profiles(&self) -> Seq<CommonBrowserProfile> {
        self.profiles@
    }

    pub fn get_profiles(&self) -> (r: &Vec<CommonBrowserProfile>)
        ensures
            r@ == self.spec_profiles(),
    {
        &self.profiles
    }

    /// Hand the profiles out by value, for the caller to partition.
    pub fn into_profiles(self) -> (r: Vec<CommonBrowserProfile>)
        ensures
            r@ == self.spec_profiles(),
    {
        self.profiles
    }
}

} // verus!
