//! The platform command builder: from a profile, a URL and the incognito
//! flag to the concrete process invocation for the target operating
//! system. Building never spawns anything; the caller owns the spawn.
//!
//! Per platform: macOS launches through the generic `open` utility by
//! application id; Linux substitutes the URL placeholder into the stored
//! command template, or appends the URL when the template has none;
//! Windows runs the executable with profile arguments, optional
//! incognito arguments and the URL last. Incognito arguments appear
//! exactly when the caller asks for incognito and the application
//! supports it. The URL is first put through the application's
//! URL-transform hook.

use vstd::prelude::*;

use crate::profiles::{transformed_url, BrowserCommon, CommonBrowserProfile, SupportedApp,
    UrlTransform};
use crate::text::{append_all, lower_seq, str_eq_ignore_ascii_case, string_views};

verus! {

/// The target platform, chosen by the embedder at build time.
#[derive(Clone, Copy, PartialEq, Eq, Structural)]
pub enum TargetOs {
    MacOs,
    Linux,
    Windows,
}

/// A ready-to-spawn invocation: program plus ordered arguments.
pub struct ProcessInvocation {
    pub program: String,
    pub arguments: Vec<String>,
}

#[verifier::ext_equal]
pub ghost struct InvocationView {
    pub program: Seq<char>,
    pub arguments: Seq<Seq<char>>,
}

impl View for ProcessInvocation {
    type V = InvocationView;

    open spec fn view(&self) -> InvocationView {
        InvocationView { program: self.program@, arguments: string_views(self.arguments@) }
    }
}

/// The token a command template uses where the URL belongs.
pub open spec fn url_placeholder() -> Seq<char> {
    seq!['%', 'u']
}

/// The token a profile-argument template uses where the profile's CLI
/// argument value belongs.
pub open spec fn profile_placeholder() -> Seq<char> {
    seq!['%', 'p']
}

/// Replace every argument equal (ASCII-case-insensitively) to the
/// placeholder by `value`; all other arguments are kept.
pub open spec fn subst_args(args: Seq<Seq<char>>, value: Seq<char>, placeholder: Seq<char>) -> Seq<
    Seq<char>,
> {
    args.map_values(
        |a: Seq<char>|
            if lower_seq(a) == placeholder {
                value
            } else {
                a
            },
    )
}

/// Some argument is the URL placeholder.
pub open spec fn has_url_placeholder(args: Seq<Seq<char>>) -> bool {
    exists|i: int| 0 <= i < args.len() && lower_seq(args[i]) == url_placeholder()
}

fn subst_args_exec(args: &[String], placeholder: &str, value: &str) -> (r: Vec<String>)
    ensures
        string_views(r@) == subst_args(string_views(args@), value@, lower_seq(placeholder@)),
{
    let mut r: Vec<String> = Vec::new();
    let mut i: usize = 0;
    while i < args.len()
        invariant
            i <= args@.len(),
            r@.len() == i,
            forall|k: int|
                0 <= k < i ==> r@[k]@ == (if lower_seq(args@[k]@) == lower_seq(placeholder@) {
                    value@
                } else {
                    args@[k]@
                }),
        decreases args@.len() - i,
    {
        let a = vstd::slice::slice_index_get(args, i);
        if str_eq_ignore_ascii_case(a.as_str(), placeholder) {
            r.push(String::from_str(value));
        } else {
            r.push(a.clone());
        }
        i = i + 1;
    }
    proof {
        assert(string_views(r@) =~= subst_args(
            string_views(args@),
            value@,
            lower_seq(placeholder@),
        ));
    }
    r
}

/// Substitute the URL into a command template's placeholder slots.
pub fn replace_url_placeholder(command_arguments: &[String], app_url: &str) -> (r: Vec<String>)
    ensures
        string_views(r@) == subst_args(string_views(command_arguments@), app_url@,
            url_placeholder()),
{
    proof {
        reveal_strlit("%u");
        assert(lower_seq("%u"@) =~= url_placeholder());
    }
    subst_args_exec(command_arguments, "%u", app_url)
}

fn has_url_placeholder_exec(args: &[String]) -> (b: bool)
    ensures
        b == has_url_placeholder(string_views(args@)),
{
    let mut i: usize = 0;
    while i < args.len()
        invariant
            i <= args@.len(),
            forall|k: int| 0 <= k < i ==> lower_seq(string_views(args@)[k]) != url_placeholder(),
        decreases args@.len() - i,
    {
        proof {
            reveal_strlit("%u");
            assert(lower_seq("%u"@) =~= url_placeholder());
            assert(string_views(args@)[i as int] == args@[i as int]@);
        }
        let a = vstd::slice::slice_index_get(args, i);
        if str_eq_ignore_ascii_case(a.as_str(), "%u") {
            proof {
                assert(lower_seq(string_views(args@)[i as int]) == url_placeholder());
            }
            return true;
        }
        i = i + 1;
    }
    false
}

fn clone_strings(src: &[String]) -> (r: Vec<String>)
    ensures
        string_views(r@) == string_views(src@),
{
    let mut r: Vec<String> = Vec::new();
    append_all(&mut r, src);
    proof {
        assert(string_views(r@) =~= string_views(src@));
    }
    r
}

impl SupportedApp {
    /// The profile-selecting arguments for one profile: the template with
    /// the profile placeholder replaced by the profile's CLI value.
    pub fn get_profile_args(&self, profile_cli_arg_value: &str) -> (r: Vec<String>)
        ensures
            string_views(r@) == subst_args(
                string_views(self.spec_profile_args_template()),
                profile_cli_arg_value@,
                profile_placeholder(),
            ),
    {
        proof {
            reveal_strlit("%p");
            assert(lower_seq("%p"@) =~= profile_placeholder());
        }
        subst_args_exec(
            self.get_profile_args_template().as_slice(),
            "%p",
            profile_cli_arg_value,
        )
    }

    /// The URL after this application's rewrite hook.
    pub fn get_transformed_url(&self, url: &str) -> (r: String)
        ensures
            r@ == transformed_url(self.spec_url_transform(), url@),
    {
        match self.get_url_transform() {
            UrlTransform::Keep => String::from_str(url),
            UrlTransform::Wrap { prefix, suffix } => {
                let mut s = prefix.clone();
                s.append(url);
                s.append(suffix.as_str());
                s
            },
        }
    }
}

/// The program an invocation runs: the `open` utility on macOS, the
/// template's first token elsewhere.
pub open spec fn spec_program(app: BrowserCommon, os: TargetOs) -> Seq<char> {
    match os {
        TargetOs::MacOs => seq!['o', 'p', 'e', 'n'],
        TargetOs::Linux => app.command@[0]@,
        TargetOs::Windows => app.command@[0]@,
    }
}

/// The full argument list of the invocation, per platform.
pub open spec fn spec_invocation_args(
    app: BrowserCommon,
    profile: CommonBrowserProfile,
    url: Seq<char>,
    incognito: bool,
    os: TargetOs,
) -> Seq<Seq<char>> {
    let sa = app.supported_app;
    let app_url = transformed_url(sa.spec_url_transform(), url);
    let pargs = subst_args(
        string_views(sa.spec_profile_args_template()),
        profile.profile_cli_arg_value@,
        profile_placeholder(),
    );
    let iargs = if incognito && sa.spec_supports_incognito() {
        string_views(sa.spec_incognito_args())
    } else {
        Seq::<Seq<char>>::empty()
    };
    match os {
        TargetOs::MacOs => seq![seq!['-', 'b'], sa.spec_app_id()] + (
        if !sa.spec_url_as_first_arg() {
            seq![app_url]
        } else {
            seq![seq!['-', 'n']]
        }) + seq![seq!['-', '-', 'a', 'r', 'g', 's']] + pargs + iargs + (
        if sa.spec_url_as_first_arg() {
            seq![app_url]
        } else {
            Seq::<Seq<char>>::empty()
        }),
        TargetOs::Linux => {
            let tail = string_views(app.command@).skip(1);
            let has = has_url_placeholder(tail);
            let arguments = if has {
                subst_args(tail, app_url, url_placeholder())
            } else {
                tail
            };
            iargs + arguments + pargs + (
            if has {
                Seq::<Seq<char>>::empty()
            } else {
                seq![app_url]
            })
        },
        TargetOs::Windows => pargs + iargs + seq![app_url],
    }
}

impl BrowserCommon {
    /// Build the invocation that opens `url` with the given profile.
    /// Pure construction: nothing is spawned here.
    #[verifier::rlimit(60)]
    pub fn create_command(
        &self,
        common_browser_profile: &CommonBrowserProfile,
        url: &str,
        incognito_mode: bool,
        os: TargetOs,
    ) -> (cmd: ProcessInvocation)
        requires
            self.command@.len() >= 1,
        ensures
            cmd@.program == spec_program(*self, os),
            cmd@.arguments == spec_invocation_args(
                *self,
                *common_browser_profile,
                url@,
                incognito_mode,
                os,
            ),
    {
        let profile_args = self.supported_app.get_profile_args(
            common_browser_profile.profile_cli_arg_value.as_str(),
        );
        let app_url = self.supported_app.get_transformed_url(url);
        let incognito_active = incognito_mode && self.supported_app.supports_incognito();
        match os {
            TargetOs::MacOs => {
                proof {
                    reveal_strlit("open");
                    reveal_strlit("-b");
                    reveal_strlit("-n");
                    reveal_strlit("--args");
                    assert("open"@ =~= seq!['o', 'p', 'e', 'n']);
                    assert("-b"@ =~= seq!['-', 'b']);
                    assert("-n"@ =~= seq!['-', 'n']);
                    assert("--args"@ =~= seq!['-', '-', 'a', 'r', 'g', 's']);
                }
                let mut arguments: Vec<String> = Vec::new();
                arguments.push(String::from_str("-b"));
                arguments.push(self.supported_app.get_app_id().clone());
                if !self.supported_app.is_url_as_first_arg() {
                    arguments.push(app_url.clone());
                } else {
                    arguments.push(String::from_str("-n"));
                }
                arguments.push(String::from_str("--args"));
                let ghost sa = self.supported_app;
                let ghost app_url_s = transformed_url(sa.spec_url_transform(), url@);
                let ghost pargs_s = subst_args(
                    string_views(sa.spec_profile_args_template()),
                    common_browser_profile.profile_cli_arg_value@,
                    profile_placeholder(),
                );
                let ghost iargs_s = if incognito_mode && sa.spec_supports_incognito() {
                    string_views(sa.spec_incognito_args())
                } else {
                    Seq::<Seq<char>>::empty()
                };
                let ghost prefix_s = seq![seq!['-', 'b'], sa.spec_app_id()] + (
                if !sa.spec_url_as_first_arg() {
                    seq![app_url_s]
                } else {
                    seq![seq!['-', 'n']]
                }) + seq![seq!['-', '-', 'a', 'r', 'g', 's']];
                proof {
                    assert(string_views(arguments@) =~= prefix_s);
                }
                append_all(&mut arguments, profile_args.as_slice());
                proof {
                    assert(string_views(arguments@) =~= prefix_s + pargs_s);
                }
                if incognito_active {
                    append_all(&mut arguments, self.supported_app.get_incognito_args().as_slice());
                }
                proof {
                    assert(string_views(arguments@) =~= prefix_s + pargs_s + iargs_s);
                }
                if self.supported_app.is_url_as_first_arg() {
                    arguments.push(app_url);
                }
                proof {
                    assert(string_views(arguments@) =~= prefix_s + pargs_s + iargs_s + (
                    if sa.spec_url_as_first_arg() {
                        seq![app_url_s]
                    } else {
                        Seq::<Seq<char>>::empty()
                    }));
                }
                let cmd = ProcessInvocation { program: String::from_str("open"), arguments };
                proof {
                    assert(cmd@.arguments =~= spec_invocation_args(
                        *self,
                        *common_browser_profile,
                        url@,
                        incognito_mode,
                        os,
                    ));
                }
                cmd
            },
            TargetOs::Linux => {
                let tail = vstd::slice::slice_subrange(
                    self.command.as_slice(),
                    1,
                    self.command.len(),
                );
                proof {
                    assert(string_views(tail@) =~= string_views(self.command@).skip(1));
                }
                let has_placeholder = has_url_placeholder_exec(tail);
                let arguments = if has_placeholder {
                    replace_url_placeholder(tail, app_url.as_str())
                } else {
                    clone_strings(tail)
                };
                let mut cmd_args: Vec<String> = Vec::new();
                if incognito_active {
                    append_all(&mut cmd_args, self.supported_app.get_incognito_args().as_slice());
                }
                append_all(&mut cmd_args, arguments.as_slice());
                append_all(&mut cmd_args, profile_args.as_slice());
                if !has_placeholder {
                    cmd_args.push(app_url);
                }
                let cmd = ProcessInvocation {
                    program: self.command[0].clone(),
                    arguments: cmd_args,
                };
                proof {
                    assert(cmd@.arguments =~= spec_invocation_args(
                        *self,
                        *common_browser_profile,
                        url@,
                        incognito_mode,
                        os,
                    ));
                }
                cmd
            },
            TargetOs::Windows => {
                let mut cmd_args: Vec<String> = Vec::new();
                append_all(&mut cmd_args, profile_args.as_slice());
                if incognito_active {
                    append_all(&mut cmd_args, self.supported_app.get_incognito_args().as_slice());
                }
                cmd_args.push(app_url);
                let cmd = ProcessInvocation {
                    program: self.command[0].clone(),
                    arguments: cmd_args,
                };
                proof {
                    assert(cmd@.arguments =~= spec_invocation_args(
                        *self,
                        *common_browser_profile,
                        url@,
                        incognito_mode,
                        os,
                    ));
                }
                cmd
            },
        }
    }
}

impl CommonBrowserProfile {
    /// Build the invocation that opens `url` with this profile.
    pub fn create_command(&self, url: &str, incognito_mode: bool, os: TargetOs) -> (cmd:
        ProcessInvocation)
        requires
            self.app.command@.len() >= 1,
        ensures
            cmd@.program == spec_program(*self.app, os),
            cmd@.arguments == spec_invocation_args(*self.app, *self, url@, incognito_mode, os),
    {
        self.get_browser_common().create_command(self, url, incognito_mode, os)
    }
}

/// Incognito arguments appear only when the caller requests incognito
/// and the application supports it: otherwise the invocation is
/// identical to the non-incognito one, so they are entirely absent.
pub proof fn lemma_incognito_only_when_requested_and_supported(
    app: BrowserCommon,
    profile: CommonBrowserProfile,
    url: Seq<char>,
    incognito: bool,
    os: TargetOs,
)
    requires
        !(incognito && app.supported_app.spec_supports_incognito()),
    ensures
        spec_invocation_args(app, profile, url, incognito, os) == spec_invocation_args(
            app,
            profile,
            url,
            false,
            os,
        ),
{
    assert(spec_invocation_args(app, profile, url, incognito, os) =~= spec_invocation_args(
        app,
        profile,
        url,
        false,
        os,
    ));
}

} // verus!
