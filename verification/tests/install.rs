use slycer::install::{
    choose_first_available, declined_message, failed_message, install_commands, install_prompt,
    installer_candidates, is_affirmative, missing_binaries, no_manager_message, platform_named,
    required_binaries, setup_step, CommandSpec, InstallError, Platform, Probe, SetupStep,
};

fn probes(list: &[(&str, bool)]) -> Vec<Probe> {
    list.iter().map(|(name, found)| Probe { name: name.to_string(), found: *found }).collect()
}

fn strings(list: &[&str]) -> Vec<String> {
    list.iter().map(|s| s.to_string()).collect()
}

fn shape(command: &CommandSpec) -> (String, Vec<String>, Vec<(String, String)>) {
    (
        command.program.clone(),
        command.args.clone(),
        command.env.iter().map(|v| (v.name.clone(), v.value.clone())).collect(),
    )
}

fn plain(program: &str, args: &[&str]) -> (String, Vec<String>, Vec<(String, String)>) {
    (program.to_string(), strings(args), Vec::new())
}

fn plan(platform: Platform, installer: &str, packages: &[&str]) -> Vec<(String, Vec<String>, Vec<(String, String)>)> {
    install_commands(platform, installer, &strings(packages)).unwrap().iter().map(shape).collect()
}

#[test]
fn two_programs_are_required() {
    assert_eq!(required_binaries(), strings(&["yt-dlp", "ffmpeg"]));
}

#[test]
fn missing_are_those_not_found() {
    assert_eq!(missing_binaries(&probes(&[("yt-dlp", true), ("ffmpeg", true)])), Vec::<String>::new());
    assert_eq!(missing_binaries(&probes(&[("yt-dlp", false), ("ffmpeg", true)])), strings(&["yt-dlp"]));
    assert_eq!(
        missing_binaries(&probes(&[("a", false), ("b", true), ("c", false)])),
        strings(&["a", "c"])
    );
    assert_eq!(missing_binaries(&Vec::new()), Vec::<String>::new());
}

#[test]
fn first_available_candidate_is_chosen() {
    assert_eq!(choose_first_available(&probes(&[("apt-get", false), ("dnf", true), ("yum", true)])).as_deref(), Some("dnf"));
    assert_eq!(choose_first_available(&probes(&[("brew", true)])).as_deref(), Some("brew"));
    assert_eq!(choose_first_available(&probes(&[("winget", false), ("choco", false)])), None);
    assert_eq!(choose_first_available(&Vec::new()), None);
}

#[test]
fn yes_is_said_in_four_ways() {
    for answer in ["y", "yes", "Y", "YES", "Yes", "  y\n", "\tyes \r\n", "\u{434}", "\u{434}\u{430}", " \u{434}\u{430}\n"] {
        assert!(is_affirmative(answer), "{answer:?}");
    }
}

#[test]
fn anything_else_is_no() {
    for answer in ["", "\n", "n", "no", "yes please", "ye", "yess", "y e s", "\u{414}", "\u{414}\u{410}", "\u{434}\u{430}\u{430}"] {
        assert!(!is_affirmative(answer), "{answer:?}");
    }
}

#[test]
fn messages_list_what_is_missing() {
    let missing = strings(&["yt-dlp", "ffmpeg"]);
    assert_eq!(
        install_prompt(&missing),
        "Missing binaries: yt-dlp, ffmpeg. Install automatically? [y/N]: "
    );
    assert_eq!(
        declined_message(&missing),
        "Required: yt-dlp, ffmpeg. Install manually or run with --yes for auto-install"
    );
    assert_eq!(
        no_manager_message(&missing),
        "Cannot determine package manager. Install manually: yt-dlp, ffmpeg"
    );
    assert_eq!(
        failed_message(&strings(&["ffmpeg"])),
        "Failed to install: ffmpeg. Install manually via package manager"
    );
}

#[test]
fn setup_asks_unless_agreed() {
    assert!(matches!(setup_step(&Vec::new(), false), SetupStep::Ready));
    assert!(matches!(setup_step(&Vec::new(), true), SetupStep::Ready));
    assert!(matches!(setup_step(&strings(&["ffmpeg"]), true), SetupStep::Install));
    match setup_step(&strings(&["ffmpeg"]), false) {
        SetupStep::Ask { prompt } => {
            assert_eq!(prompt, "Missing binaries: ffmpeg. Install automatically? [y/N]: ")
        }
        other => panic!("{other:?}"),
    }
}

#[test]
fn platforms_go_by_their_names() {
    assert_eq!(platform_named("macos"), Platform::MacOs);
    assert_eq!(platform_named("linux"), Platform::Linux);
    assert_eq!(platform_named("windows"), Platform::Windows);
    assert_eq!(platform_named("freebsd"), Platform::Other);
    assert_eq!(platform_named("Linux"), Platform::Other);
    assert_eq!(platform_named(""), Platform::Other);
}

#[test]
fn candidates_of_each_platform() {
    assert_eq!(installer_candidates(Platform::MacOs), strings(&["brew"]));
    assert_eq!(
        installer_candidates(Platform::Linux),
        strings(&["apt-get", "dnf", "yum", "pacman", "zypper", "apk"])
    );
    assert_eq!(installer_candidates(Platform::Windows), strings(&["winget", "choco", "scoop"]));
    assert_eq!(installer_candidates(Platform::Other), Vec::<String>::new());
}

#[test]
fn brew_installs_formulae_quietly() {
    let commands = plan(Platform::MacOs, "brew", &["yt-dlp", "ffmpeg"]);
    assert_eq!(
        commands,
        vec![(
            "brew".to_string(),
            strings(&["install", "--formula", "yt-dlp", "ffmpeg"]),
            vec![
                ("HOMEBREW_NO_AUTO_UPDATE".to_string(), "1".to_string()),
                ("HOMEBREW_NO_INSTALL_CLEANUP".to_string(), "1".to_string()),
                ("HOMEBREW_NO_ANALYTICS".to_string(), "1".to_string()),
            ],
        )]
    );
}

#[test]
fn apt_updates_before_it_installs() {
    assert_eq!(
        plan(Platform::Linux, "apt-get", &["ffmpeg"]),
        vec![
            plain("sudo", &["-n", "apt-get", "update"]),
            plain(
                "sudo",
                &["-n", "apt-get", "install", "-y", "--no-install-recommends", "--no-upgrade", "ffmpeg"]
            ),
        ]
    );
}

#[test]
fn linux_managers_run_through_sudo() {
    assert_eq!(
        plan(Platform::Linux, "dnf", &["a", "b"]),
        vec![plain("sudo", &["-n", "dnf", "install", "-y", "--setopt=install_weak_deps=False", "a", "b"])]
    );
    assert_eq!(
        plan(Platform::Linux, "yum", &["a"]),
        vec![plain("sudo", &["-n", "yum", "install", "-y", "a"])]
    );
    assert_eq!(
        plan(Platform::Linux, "pacman", &["a"]),
        vec![plain("sudo", &["-n", "pacman", "-S", "--noconfirm", "--needed", "a"])]
    );
    assert_eq!(
        plan(Platform::Linux, "zypper", &["a"]),
        vec![plain("sudo", &["-n", "zypper", "install", "-y", "--no-recommends", "a"])]
    );
    assert_eq!(
        plan(Platform::Linux, "apk", &["a"]),
        vec![plain("sudo", &["-n", "apk", "add", "--no-cache", "a"])]
    );
}

#[test]
fn winget_knows_packages_by_other_names() {
    assert_eq!(
        plan(Platform::Windows, "winget", &["yt-dlp", "ffmpeg", "other"]),
        vec![plain(
            "winget",
            &[
                "install",
                "--silent",
                "--accept-package-agreements",
                "--accept-source-agreements",
                "--exact",
                "yt-dlp.yt-dlp",
                "Gyan.FFmpeg",
                "other",
            ]
        )]
    );
}

#[test]
fn windows_managers_install_plainly() {
    assert_eq!(
        plan(Platform::Windows, "choco", &["ffmpeg"]),
        vec![plain("choco", &["install", "-y", "--no-progress", "ffmpeg"])]
    );
    assert_eq!(
        plan(Platform::Windows, "scoop", &["ffmpeg"]),
        vec![plain("scoop", &["install", "ffmpeg"])]
    );
}

#[test]
fn unknown_ways_to_install_are_errors() {
    let packages = strings(&["ffmpeg"]);
    assert_eq!(
        install_commands(Platform::Linux, "brew", &packages).unwrap_err(),
        InstallError::UnsupportedInstaller
    );
    assert_eq!(
        install_commands(Platform::Windows, "apt-get", &packages).unwrap_err(),
        InstallError::UnsupportedInstaller
    );
    assert_eq!(
        install_commands(Platform::MacOs, "nix", &packages).unwrap_err(),
        InstallError::UnsupportedPlatform
    );
    assert_eq!(
        install_commands(Platform::Other, "apt-get", &packages).unwrap_err(),
        InstallError::UnsupportedPlatform
    );
}
