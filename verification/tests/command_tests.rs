use std::sync::Arc;

use browsers::{
    BrowserCommon,
    CommonBrowserProfile,
    InstalledAppProfilesType,
    InstalledBrowserProfile,
    SupportedApp,
    TargetOs,
    UrlTransform,
};

fn strings(items: &[&str]) -> Vec<String> {
    items.iter().map(|s| s.to_string()).collect()
}

fn app(
    command: &[&str],
    url_as_first_arg: bool,
    supports_incognito: bool,
    incognito_args: &[&str],
    profile_args_template: &[&str],
    transform: UrlTransform,
) -> Arc<BrowserCommon> {
    Arc::new(BrowserCommon {
        command: strings(command),
        executable_path: "/usr/bin/app".to_string(),
        display_name: "App".to_string(),
        icon_path: "app.png".to_string(),
        supported_app: SupportedApp::new(
            "com.example.app".to_string(),
            url_as_first_arg,
            supports_incognito,
            strings(incognito_args),
            strings(profile_args_template),
            transform,
            &Vec::new(),
        ),
        profiles_type: InstalledAppProfilesType::RealProfiles,
    })
}

fn profile_of(app: Arc<BrowserCommon>, cli_arg: &str) -> CommonBrowserProfile {
    CommonBrowserProfile::new(
        &InstalledBrowserProfile {
            profile_cli_arg_value: cli_arg.to_string(),
            profile_cli_container_name: None,
            profile_name: "Default".to_string(),
            profile_icon: None,
            profile_restricted_url_patterns: Vec::new(),
        },
        app,
    )
}

#[test]
fn linux_template_placeholder_is_substituted_once() {
    let a = app(&["app", "--flag", "%u"], false, false, &[], &[], UrlTransform::Keep);
    let p = profile_of(a, "");
    let cmd = p.create_command("https://a.com", false, TargetOs::Linux);
    assert_eq!(cmd.program, "app");
    assert_eq!(cmd.arguments, strings(&["--flag", "https://a.com"]));
}

#[test]
fn linux_without_placeholder_appends_url_once() {
    let a = app(&["app", "--flag"], false, false, &[], &[], UrlTransform::Keep);
    let p = profile_of(a, "");
    let cmd = p.create_command("https://a.com", false, TargetOs::Linux);
    assert_eq!(cmd.program, "app");
    assert_eq!(cmd.arguments, strings(&["--flag", "https://a.com"]));
}

#[test]
fn linux_placeholder_comparison_ignores_ascii_case() {
    let a = app(&["env", "app", "%U"], false, false, &[], &[], UrlTransform::Keep);
    let p = profile_of(a, "");
    let cmd = p.create_command("https://a.com", false, TargetOs::Linux);
    assert_eq!(cmd.program, "env");
    assert_eq!(cmd.arguments, strings(&["app", "https://a.com"]));
}

#[test]
fn linux_incognito_args_are_prepended() {
    let a = app(&["app", "%u"], false, true, &["--private"], &[], UrlTransform::Keep);
    let p = profile_of(a, "");
    let cmd = p.create_command("https://a.com", true, TargetOs::Linux);
    assert_eq!(cmd.arguments, strings(&["--private", "https://a.com"]));
}

#[test]
fn incognito_args_absent_when_not_requested() {
    let a = app(&["app", "%u"], false, true, &["--private"], &[], UrlTransform::Keep);
    let p = profile_of(a, "");
    let cmd = p.create_command("https://a.com", false, TargetOs::Linux);
    assert_eq!(cmd.arguments, strings(&["https://a.com"]));
}

#[test]
fn incognito_args_absent_when_unsupported() {
    let a = app(&["app", "%u"], false, false, &["--private"], &[], UrlTransform::Keep);
    let p = profile_of(a, "");
    let cmd = p.create_command("https://a.com", true, TargetOs::Linux);
    assert_eq!(cmd.arguments, strings(&["https://a.com"]));
}

#[test]
fn windows_profile_args_then_url_last() {
    let a = app(
        &["C:\\app.exe"],
        false,
        true,
        &["--inprivate"],
        &["--profile-directory", "%p"],
        UrlTransform::Keep,
    );
    let p = profile_of(a, "Profile 1");
    let cmd = p.create_command("https://a.com", true, TargetOs::Windows);
    assert_eq!(cmd.program, "C:\\app.exe");
    assert_eq!(
        cmd.arguments,
        strings(&["--profile-directory", "Profile 1", "--inprivate", "https://a.com"]),
    );
}

#[test]
fn macos_uses_open_with_bundle_id() {
    let a = app(&["/Applications/App.app"], false, false, &[], &[], UrlTransform::Keep);
    let p = profile_of(a, "");
    let cmd = p.create_command("https://a.com", false, TargetOs::MacOs);
    assert_eq!(cmd.program, "open");
    assert_eq!(
        cmd.arguments,
        strings(&["-b", "com.example.app", "https://a.com", "--args"]),
    );
}

#[test]
fn macos_url_as_first_arg_puts_url_after_args() {
    let a = app(
        &["/Applications/App.app"],
        true,
        true,
        &["--incognito"],
        &["-P", "%p"],
        UrlTransform::Keep,
    );
    let p = profile_of(a, "work");
    let cmd = p.create_command("https://a.com", true, TargetOs::MacOs);
    assert_eq!(cmd.program, "open");
    assert_eq!(
        cmd.arguments,
        strings(&["-b", "com.example.app", "-n", "--args", "-P", "work", "--incognito",
            "https://a.com"]),
    );
}

#[test]
fn url_transform_wraps_url_before_placement() {
    let transform = UrlTransform::Wrap {
        prefix: "ext+container:name=Work&url=".to_string(),
        suffix: "".to_string(),
    };
    let a = app(&["firefox", "%u"], false, false, &[], &[], transform);
    let p = profile_of(a, "");
    let cmd = p.create_command("https://a.com", false, TargetOs::Linux);
    assert_eq!(cmd.arguments, strings(&["ext+container:name=Work&url=https://a.com"]));
}
