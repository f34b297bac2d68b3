//! Rule-driven dispatch: resolve an open request against the configured
//! rules and, when a rule (or the default) selects a live profile, build
//! the launch invocation for it. Spawning the invocation is the
//! caller's separate, explicit side effect.

use vstd::prelude::*;

use crate::command::{spec_invocation_args, spec_program, ProcessInvocation, TargetOs};
use crate::rules::{opt_string_view, resolve_rules, OpeningRulesAndDefaultProfile, UrlOpenContext};
use crate::url_parse::parsed_url_of;
use crate::visibility::{index_of_id, lookup_profile, profiles_launchable, VisibleAndHiddenProfiles};

verus! {

/// Resolve the request and build the invocation for the selected
/// profile. `None` when no rule and no default applies, when the URL
/// does not parse, or when the selected profile id is no longer known
/// (configuration and discovered state can legitimately drift).
pub fn open_link_if_matching_rule(
    url_open_context: &UrlOpenContext,
    opening_rules_and_default_profile: &OpeningRulesAndDefaultProfile,
    visible_and_hidden_profiles: &VisibleAndHiddenProfiles,
    os: TargetOs,
) -> (r: Option<ProcessInvocation>)
    requires
        profiles_launchable(visible_and_hidden_profiles.visible_browser_profiles@),
        profiles_launchable(visible_and_hidden_profiles.hidden_browser_profiles@),
    ensures
        ({
            let target = resolve_rules(
                opening_rules_and_default_profile.opening_rules@,
                opening_rules_and_default_profile.default_profile,
                parsed_url_of(url_open_context.cleaned_url@),
                opt_string_view(url_open_context.source_app_maybe),
            );
            match target {
                None => r is None,
                Some(t) => match lookup_profile(
                    visible_and_hidden_profiles.visible_browser_profiles@,
                    visible_and_hidden_profiles.hidden_browser_profiles@,
                    t.profile@,
                ) {
                    None => r is None,
                    Some(profile) => {
                        &&& r matches Some(cmd)
                        &&& r matches Some(cmd) ==> cmd@.program == spec_program(*profile.app, os)
                            && cmd@.arguments == spec_invocation_args(
                            *profile.app,
                            profile,
                            url_open_context.cleaned_url@,
                            t.incognito,
                            os,
                        )
                    },
                },
            }
        }),
{
    let opening_profile_id_maybe = opening_rules_and_default_profile.get_rule_for_source_app_and_url(
        url_open_context,
    );
    let profile_and_options = match opening_profile_id_maybe {
        None => {
            return None;
        },
        Some(t) => t,
    };
    let profile_maybe = visible_and_hidden_profiles.get_browser_profile_by_id(
        profile_and_options.profile.as_str(),
    );
    match profile_maybe {
        None => None,
        Some(profile) => {
            proof {
                let v = visible_and_hidden_profiles.visible_browser_profiles@;
                let h = visible_and_hidden_profiles.hidden_browser_profiles@;
                let id = profile_and_options.profile@;
                assert(profile.app.command@.len() >= 1) by {
                    crate::visibility::lemma_index_of_id_bounds(v, id);
                    crate::visibility::lemma_index_of_id_bounds(h, id);
                    if index_of_id(v, id) < v.len() {
                        assert(v[index_of_id(v, id)].app.command@.len() >= 1);
                    } else {
                        assert(h[index_of_id(h, id)].app.command@.len() >= 1);
                    }
                }
            }
            Some(
                profile.create_command(
                    url_open_context.cleaned_url.as_str(),
                    profile_and_options.incognito,
                    os,
                ),
            )
        },
    }
}

} // verus!
