//! Finding out which programs are missing, and how to install them.
//!
//! Whether a program is on the search path is for the caller to find out;
//! it hands the answers in as [`Probe`]s.

use crate::format::{add_word, add_words, join_with, joined};
use crate::text::{ascii_lowered, chars_of, same_text, span_is_lowered, texts, trim_within, trimmed};
use vstd::prelude::*;

verus! {

/// A program, and whether it was found on the search path.
#[derive(Clone, Debug)]
pub struct Probe {
    pub name: String,
    pub found: bool,
}

/// The names of the programs of `probes` that were not found, in their
/// order.
pub open spec fn missing_of(probes: Seq<Probe>) -> Seq<Seq<char>>
    decreases probes.len(),
{
    if probes.len() == 0 {
        Seq::empty()
    } else if probes.last().found {
        missing_of(probes.drop_last())
    } else {
        missing_of(probes.drop_last()).push(probes.last().name@)
    }
}

/// The name of the first program at or after index `i` that was found.
pub open spec fn first_found_from(probes: Seq<Probe>, i: int) -> Option<Seq<char>>
    decreases probes.len() - i,
{
    if i < 0 || i >= probes.len() {
        None
    } else if probes[i].found {
        Some(probes[i].name@)
    } else {
        first_found_from(probes, i + 1)
    }
}

/// The programs that the work needs.
pub fn required_binaries() -> (names: Vec<String>)
    ensures
        texts(names@) == seq!["yt-dlp"@, "ffmpeg"@],
{
    let mut names: Vec<String> = Vec::new();
    names.push("yt-dlp".to_owned());
    names.push("ffmpeg".to_owned());
    assert(texts(names@) =~= seq!["yt-dlp"@, "ffmpeg"@]);
    names
}

/// The programs of `probes` that were not found.
pub fn missing_binaries(probes: &Vec<Probe>) -> (missing: Vec<String>)
    ensures
        texts(missing@) == missing_of(probes@),
{
    let mut missing: Vec<String> = Vec::new();
    let mut i: usize = 0;
    assert(texts(missing@) =~= missing_of(probes@.take(0)));
    while i < probes.len()
        invariant
            i <= probes.len(),
            texts(missing@) == missing_of(probes@.take(i as int)),
        decreases probes.len() - i,
    {
        proof {
            let longer = probes@.take(i + 1);
            assert(longer.drop_last() == probes@.take(i as int));
            assert(longer.last() == probes@[i as int]);
        }
        if !probes[i].found {
            let ghost before = texts(missing@);
            missing.push(probes[i].name.clone());
            assert(texts(missing@) =~= before.push(probes@[i as int].name@));
        }
        i += 1;
    }
    proof {
        assert(probes@.take(probes.len() as int) == probes@);
    }
    missing
}

/// The first of the candidates that was found.
pub fn choose_first_available(candidates: &Vec<Probe>) -> (chosen: Option<String>)
    ensures
        crate::text::text_of(chosen) == first_found_from(candidates@, 0),
{
    let mut i: usize = 0;
    while i < candidates.len()
        invariant
            i <= candidates.len(),
            first_found_from(candidates@, i as int) == first_found_from(candidates@, 0),
        decreases candidates.len() - i,
    {
        if candidates[i].found {
            return Some(candidates[i].name.clone());
        }
        i += 1;
    }
    None
}

/// Whether `answer` says yes: `y`, `yes` or one of their Russian
/// counterparts, in any case of the ASCII letters, with white space around
/// it or without.
pub open spec fn affirmative(answer: Seq<char>) -> bool {
    let said = ascii_lowered(trimmed(answer));
    said == "y"@ || said == "yes"@ || said == "\u{434}"@ || said == "\u{434}\u{430}"@
}

/// Tells whether the user's answer says yes.
pub fn is_affirmative(answer: &str) -> (yes: bool)
    ensures
        yes == affirmative(answer@),
{
    let chars = chars_of(answer);
    let span = trim_within(&chars, 0, chars.len());
    proof {
        assert(chars@.subrange(0, chars.len() as int) == chars@);
    }
    span_is_lowered(&chars, span, "y") || span_is_lowered(&chars, span, "yes") || span_is_lowered(
        &chars,
        span,
        "\u{434}",
    ) || span_is_lowered(&chars, span, "\u{434}\u{430}")
}

/// The names of `missing`, with `, ` between them.
pub open spec fn listed(missing: Seq<Seq<char>>) -> Seq<char> {
    joined(missing, ", "@)
}

/// The question whether to install what is missing.
pub open spec fn prompt_text(missing: Seq<Seq<char>>) -> Seq<char> {
    "Missing binaries: "@ + listed(missing) + ". Install automatically? [y/N]: "@
}

/// What to say where the user declines the installation.
pub open spec fn declined_text(missing: Seq<Seq<char>>) -> Seq<char> {
    "Required: "@ + listed(missing) + ". Install manually or run with --yes for auto-install"@
}

/// What to say where no package manager is known.
pub open spec fn no_manager_text(missing: Seq<Seq<char>>) -> Seq<char> {
    "Cannot determine package manager. Install manually: "@ + listed(missing)
}

/// What to say where the installation failed.
pub open spec fn failed_text(missing: Seq<Seq<char>>) -> Seq<char> {
    "Failed to install: "@ + listed(missing) + ". Install manually via package manager"@
}

/// `head`, the list of `missing`, and `tail`.
fn around_list(head: &str, missing: &Vec<String>, tail: &str) -> (s: String)
    ensures
        s@ == head@ + listed(texts(missing@)) + tail@,
{
    let mut s = head.to_owned();
    let list = join_with(missing, ", ");
    s.append(list.as_str());
    s.append(tail);
    s
}

/// The question whether to install what is missing.
pub fn install_prompt(missing: &Vec<String>) -> (s: String)
    ensures
        s@ == prompt_text(texts(missing@)),
{
    around_list("Missing binaries: ", missing, ". Install automatically? [y/N]: ")
}

/// What to say where the user declines the installation.
pub fn declined_message(missing: &Vec<String>) -> (s: String)
    ensures
        s@ == declined_text(texts(missing@)),
{
    around_list("Required: ", missing, ". Install manually or run with --yes for auto-install")
}

/// What to say where no package manager is known.
pub fn no_manager_message(missing: &Vec<String>) -> (s: String)
    ensures
        s@ == no_manager_text(texts(missing@)),
{
    proof {
        reveal_strlit("");
    }
    let s = around_list("Cannot determine package manager. Install manually: ", missing, "");
    assert(s@ =~= no_manager_text(texts(missing@)));
    s
}

/// What to say where the installation failed.
pub fn failed_message(missing: &Vec<String>) -> (s: String)
    ensures
        s@ == failed_text(texts(missing@)),
{
    around_list("Failed to install: ", missing, ". Install manually via package manager")
}

/// What comes first when the programs have been looked for.
#[derive(Debug)]
pub enum SetupStep {
    /// Nothing is missing.
    Ready,
    /// Ask the user this question, and go by the answer.
    Ask { prompt: String },
    /// Install what is missing without asking.
    Install,
}

/// What a [`SetupStep`] says.
pub enum SetupView {
    Ready,
    Ask { prompt: Seq<char> },
    Install,
}

impl View for SetupStep {
    type V = SetupView;

    open spec fn view(&self) -> SetupView {
        match self {
            SetupStep::Ready => SetupView::Ready,
            SetupStep::Ask { prompt } => SetupView::Ask { prompt: prompt@ },
            SetupStep::Install => SetupView::Install,
        }
    }
}

/// What to do about `missing`: nothing where nothing is missing, else
/// install it, after asking unless the user has agreed beforehand.
pub open spec fn first_step(missing: Seq<Seq<char>>, auto_yes: bool) -> SetupView {
    if missing.len() == 0 {
        SetupView::Ready
    } else if auto_yes {
        SetupView::Install
    } else {
        SetupView::Ask { prompt: prompt_text(missing) }
    }
}

/// Decides what to do about the programs that are missing.
pub fn setup_step(missing: &Vec<String>, auto_yes: bool) -> (step: SetupStep)
    ensures
        step@ == first_step(texts(missing@), auto_yes),
{
    if missing.len() == 0 {
        SetupStep::Ready
    } else if auto_yes {
        SetupStep::Install
    } else {
        SetupStep::Ask { prompt: install_prompt(missing) }
    }
}

/// The kind of system that the program runs on.
#[derive(Clone, Copy, Debug, PartialEq, Eq)]
pub enum Platform {
    MacOs,
    Linux,
    Windows,
    Other,
}

/// The platform that goes by the name `os`.
pub open spec fn platform_of(os: Seq<char>) -> Platform {
    if os == "macos"@ {
        Platform::MacOs
    } else if os == "linux"@ {
        Platform::Linux
    } else if os == "windows"@ {
        Platform::Windows
    } else {
        Platform::Other
    }
}

/// The platform that goes by the name `os`, as the standard library names
/// the operating system.
pub fn platform_named(os: &str) -> (platform: Platform)
    ensures
        platform == platform_of(os@),
{
    if same_text(os, "macos") {
        Platform::MacOs
    } else if same_text(os, "linux") {
        Platform::Linux
    } else if same_text(os, "windows") {
        Platform::Windows
    } else {
        Platform::Other
    }
}

/// The package managers of a platform, in the order in which they are tried.
pub open spec fn candidates_of(platform: Platform) -> Seq<Seq<char>> {
    match platform {
        Platform::MacOs => seq!["brew"@],
        Platform::Linux => seq!["apt-get"@, "dnf"@, "yum"@, "pacman"@, "zypper"@, "apk"@],
        Platform::Windows => seq!["winget"@, "choco"@, "scoop"@],
        Platform::Other => Seq::empty(),
    }
}

/// The package managers of `platform`, in the order in which they are
/// tried.
pub fn installer_candidates(platform: Platform) -> (names: Vec<String>)
    ensures
        texts(names@) == candidates_of(platform),
{
    let mut names: Vec<String> = Vec::new();
    assert(texts(names@) =~= Seq::<Seq<char>>::empty());
    match platform {
        Platform::MacOs => {
            add_word(&mut names, "brew");
        },
        Platform::Linux => {
            add_word(&mut names, "apt-get");
            add_word(&mut names, "dnf");
            add_word(&mut names, "yum");
            add_word(&mut names, "pacman");
            add_word(&mut names, "zypper");
            add_word(&mut names, "apk");
        },
        Platform::Windows => {
            add_word(&mut names, "winget");
            add_word(&mut names, "choco");
            add_word(&mut names, "scoop");
        },
        Platform::Other => {},
    }
    names
}

/// A variable of the environment, and the value that it is set to.
#[derive(Clone, Debug)]
pub struct EnvVar {
    pub name: String,
    pub value: String,
}

/// A program to run, with its arguments and what it finds in its
/// environment beyond what the caller has.
#[derive(Clone, Debug)]
pub struct CommandSpec {
    pub program: String,
    pub args: Vec<String>,
    pub env: Vec<EnvVar>,
}

/// What a [`CommandSpec`] says.
pub struct CommandView {
    pub program: Seq<char>,
    pub args: Seq<Seq<char>>,
    pub env: Seq<(Seq<char>, Seq<char>)>,
}

/// What the variables `env` say.
pub open spec fn env_view(env: Seq<EnvVar>) -> Seq<(Seq<char>, Seq<char>)> {
    Seq::new(env.len(), |i: int| (env[i].name@, env[i].value@))
}

impl View for CommandSpec {
    type V = CommandView;

    open spec fn view(&self) -> CommandView {
        CommandView { program: self.program@, args: texts(self.args@), env: env_view(self.env@) }
    }
}

/// What the commands `commands` say.
pub open spec fn command_views(commands: Seq<CommandSpec>) -> Seq<CommandView> {
    Seq::new(commands.len(), |i: int| commands[i]@)
}

/// Why no way to install is known.
#[derive(Clone, Copy, Debug, PartialEq, Eq)]
pub enum InstallError {
    /// The platform has no package manager that is known here.
    UnsupportedPlatform,
    /// The package manager is not one of the platform.
    UnsupportedInstaller,
}

/// A command without a word about the environment.
pub open spec fn plain_command(program: Seq<char>, args: Seq<Seq<char>>) -> CommandView {
    CommandView { program, args, env: Seq::empty() }
}

/// The name under which `winget` knows a package.
pub open spec fn winget_name(package: Seq<char>) -> Seq<char> {
    if package == "ffmpeg"@ {
        "Gyan.FFmpeg"@
    } else if package == "yt-dlp"@ {
        "yt-dlp.yt-dlp"@
    } else {
        package
    }
}

/// The names under which `winget` knows `packages`.
pub open spec fn winget_names(packages: Seq<Seq<char>>) -> Seq<Seq<char>> {
    Seq::new(packages.len(), |i: int| winget_name(packages[i]))
}

/// How `brew` installs `packages`: without updating itself, cleaning up or
/// sending analytics.
pub open spec fn brew_plan(packages: Seq<Seq<char>>) -> Seq<CommandView> {
    seq![
        CommandView {
            program: "brew"@,
            args: seq!["install"@, "--formula"@] + packages,
            env: seq![
                ("HOMEBREW_NO_AUTO_UPDATE"@, "1"@),
                ("HOMEBREW_NO_INSTALL_CLEANUP"@, "1"@),
                ("HOMEBREW_NO_ANALYTICS"@, "1"@),
            ],
        },
    ]
}

/// How the package managers of Linux install `packages`, each through
/// `sudo` that does not ask.
pub open spec fn linux_plan(installer: Seq<char>, packages: Seq<Seq<char>>) -> Result<
    Seq<CommandView>,
    InstallError,
> {
    if installer == "apt-get"@ {
        Ok(
            seq![
                plain_command("sudo"@, seq!["-n"@, "apt-get"@, "update"@]),
                plain_command(
                    "sudo"@,
                    seq![
                        "-n"@,
                        "apt-get"@,
                        "install"@,
                        "-y"@,
                        "--no-install-recommends"@,
                        "--no-upgrade"@,
                    ] + packages,
                ),
            ],
        )
    } else if installer == "dnf"@ {
        Ok(
            seq![
                plain_command(
                    "sudo"@,
                    seq!["-n"@, "dnf"@, "install"@, "-y"@, "--setopt=install_weak_deps=False"@]
                        + packages,
                ),
            ],
        )
    } else if installer == "yum"@ {
        Ok(seq![plain_command("sudo"@, seq!["-n"@, "yum"@, "install"@, "-y"@] + packages)])
    } else if installer == "pacman"@ {
        Ok(
            seq![
                plain_command(
                    "sudo"@,
                    seq!["-n"@, "pacman"@, "-S"@, "--noconfirm"@, "--needed"@] + packages,
                ),
            ],
        )
    } else if installer == "zypper"@ {
        Ok(
            seq![
                plain_command(
                    "sudo"@,
                    seq!["-n"@, "zypper"@, "install"@, "-y"@, "--no-recommends"@] + packages,
                ),
            ],
        )
    } else if installer == "apk"@ {
        Ok(seq![plain_command("sudo"@, seq!["-n"@, "apk"@, "add"@, "--no-cache"@] + packages)])
    } else {
        Err(InstallError::UnsupportedInstaller)
    }
}

/// How the package managers of Windows install `packages`.
pub open spec fn windows_plan(installer: Seq<char>, packages: Seq<Seq<char>>) -> Result<
    Seq<CommandView>,
    InstallError,
> {
    if installer == "winget"@ {
        Ok(
            seq![
                plain_command(
                    "winget"@,
                    seq![
                        "install"@,
                        "--silent"@,
                        "--accept-package-agreements"@,
                        "--accept-source-agreements"@,
                        "--exact"@,
                    ] + winget_names(packages),
                ),
            ],
        )
    } else if installer == "choco"@ {
        Ok(seq![plain_command("choco"@, seq!["install"@, "-y"@, "--no-progress"@] + packages)])
    } else if installer == "scoop"@ {
        Ok(seq![plain_command("scoop"@, seq!["install"@] + packages)])
    } else {
        Err(InstallError::UnsupportedInstaller)
    }
}

/// The commands that install `packages` with `installer` on `platform`, to
/// be run in their order until one fails.
pub open spec fn install_plan(
    platform: Platform,
    installer: Seq<char>,
    packages: Seq<Seq<char>>,
) -> Result<Seq<CommandView>, InstallError> {
    match platform {
        Platform::MacOs => if installer == "brew"@ {
            Ok(brew_plan(packages))
        } else {
            Err(InstallError::UnsupportedPlatform)
        },
        Platform::Linux => linux_plan(installer, packages),
        Platform::Windows => windows_plan(installer, packages),
        Platform::Other => Err(InstallError::UnsupportedPlatform),
    }
}

/// What a plan says.
pub open spec fn plan_view(plan: Result<Vec<CommandSpec>, InstallError>) -> Result<
    Seq<CommandView>,
    InstallError,
> {
    match plan {
        Ok(commands) => Ok(command_views(commands@)),
        Err(e) => Err(e),
    }
}

/// A command of `program` with the arguments `words` and then `packages`.
fn command_with(program: &str, words: Vec<String>, packages: &Vec<String>) -> (command:
    CommandSpec)
    ensures
        command@ == plain_command(program@, texts(words@) + texts(packages@)),
{
    let mut args = words;
    add_words(&mut args, packages);
    let command = CommandSpec { program: program.to_owned(), args, env: Vec::new() };
    assert(env_view(command.env@) =~= Seq::empty());
    command
}

/// The plan that holds `command` alone.
fn single(command: CommandSpec) -> (plan: Vec<CommandSpec>)
    ensures
        command_views(plan@) == seq![command@],
{
    let mut plan: Vec<CommandSpec> = Vec::new();
    plan.push(command);
    assert(command_views(plan@) =~= seq![command@]);
    plan
}

/// The plan of one command: `program` with the arguments `words` and then
/// `packages`.
fn one_command(program: &str, words: Vec<String>, packages: &Vec<String>) -> (plan: Result<
    Vec<CommandSpec>,
    InstallError,
>)
    ensures
        plan_view(plan) == Ok::<Seq<CommandView>, InstallError>(
            seq![plain_command(program@, texts(words@) + texts(packages@))],
        ),
{
    Ok(single(command_with(program, words, packages)))
}

/// A variable of the environment.
fn env_var(name: &str, value: &str) -> (var: EnvVar)
    ensures
        var.name@ == name@,
        var.value@ == value@,
{
    EnvVar { name: name.to_owned(), value: value.to_owned() }
}

/// The plan of `brew`.
fn brew_commands(packages: &Vec<String>) -> (plan: Vec<CommandSpec>)
    ensures
        command_views(plan@) == brew_plan(texts(packages@)),
{
    let mut args: Vec<String> = Vec::new();
    assert(texts(args@) =~= Seq::<Seq<char>>::empty());
    add_word(&mut args, "install");
    add_word(&mut args, "--formula");
    add_words(&mut args, packages);
    let mut env: Vec<EnvVar> = Vec::new();
    env.push(env_var("HOMEBREW_NO_AUTO_UPDATE", "1"));
    env.push(env_var("HOMEBREW_NO_INSTALL_CLEANUP", "1"));
    env.push(env_var("HOMEBREW_NO_ANALYTICS", "1"));
    let command = CommandSpec { program: "brew".to_owned(), args, env };
    assert(env_view(command.env@) =~= seq![
        ("HOMEBREW_NO_AUTO_UPDATE"@, "1"@),
        ("HOMEBREW_NO_INSTALL_CLEANUP"@, "1"@),
        ("HOMEBREW_NO_ANALYTICS"@, "1"@),
    ]);
    assert(command@.args == seq!["install"@, "--formula"@] + texts(packages@));
    assert(command@.program == "brew"@);
    assert(command@ == brew_plan(texts(packages@))[0]);
    let plan = single(command);
    assert(command_views(plan@) =~= brew_plan(texts(packages@)));
    plan
}

/// The plan of a package manager of Linux.
fn linux_commands(installer: &str, packages: &Vec<String>) -> (plan: Result<
    Vec<CommandSpec>,
    InstallError,
>)
    ensures
        plan_view(plan) == linux_plan(installer@, texts(packages@)),
{
    let mut words: Vec<String> = Vec::new();
    assert(texts(words@) =~= Seq::<Seq<char>>::empty());
    add_word(&mut words, "-n");
    if same_text(installer, "apt-get") {
        add_word(&mut words, "apt-get");
        let mut update: Vec<String> = Vec::new();
        assert(texts(update@) =~= Seq::<Seq<char>>::empty());
        add_word(&mut update, "-n");
        add_word(&mut update, "apt-get");
        add_word(&mut update, "update");
        add_word(&mut words, "install");
        add_word(&mut words, "-y");
        add_word(&mut words, "--no-install-recommends");
        add_word(&mut words, "--no-upgrade");
        let none: Vec<String> = Vec::new();
        let first = command_with("sudo", update, &none);
        assert(first@.args =~= seq!["-n"@, "apt-get"@, "update"@]);
        assert(texts(words@) =~= seq![
            "-n"@,
            "apt-get"@,
            "install"@,
            "-y"@,
            "--no-install-recommends"@,
            "--no-upgrade"@,
        ]);
        let second = command_with("sudo", words, packages);
        let ghost expected = linux_plan(installer@, texts(packages@))->Ok_0;
        assert(first@ == expected[0]);
        assert(second@ == expected[1]);
        let mut plan: Vec<CommandSpec> = Vec::new();
        plan.push(first);
        plan.push(second);
        assert(command_views(plan@) =~= expected);
        Ok(plan)
    } else if same_text(installer, "dnf") {
        add_word(&mut words, "dnf");
        add_word(&mut words, "install");
        add_word(&mut words, "-y");
        add_word(&mut words, "--setopt=install_weak_deps=False");
        assert(texts(words@) =~= seq!["-n"@, "dnf"@, "install"@, "-y"@, "--setopt=install_weak_deps=False"@]);
        one_command("sudo", words, packages)
    } else if same_text(installer, "yum") {
        add_word(&mut words, "yum");
        add_word(&mut words, "install");
        add_word(&mut words, "-y");
        assert(texts(words@) =~= seq!["-n"@, "yum"@, "install"@, "-y"@]);
        one_command("sudo", words, packages)
    } else if same_text(installer, "pacman") {
        add_word(&mut words, "pacman");
        add_word(&mut words, "-S");
        add_word(&mut words, "--noconfirm");
        add_word(&mut words, "--needed");
        assert(texts(words@) =~= seq!["-n"@, "pacman"@, "-S"@, "--noconfirm"@, "--needed"@]);
        one_command("sudo", words, packages)
    } else if same_text(installer, "zypper") {
        add_word(&mut words, "zypper");
        add_word(&mut words, "install");
        add_word(&mut words, "-y");
        add_word(&mut words, "--no-recommends");
        assert(texts(words@) =~= seq!["-n"@, "zypper"@, "install"@, "-y"@, "--no-recommends"@]);
        one_command("sudo", words, packages)
    } else if same_text(installer, "apk") {
        add_word(&mut words, "apk");
        add_word(&mut words, "add");
        add_word(&mut words, "--no-cache");
        assert(texts(words@) =~= seq!["-n"@, "apk"@, "add"@, "--no-cache"@]);
        one_command("sudo", words, packages)
    } else {
        Err(InstallError::UnsupportedInstaller)
    }
}

/// The name under which `winget` knows `package`.
fn winget_package(package: &str) -> (name: String)
    ensures
        name@ == winget_name(package@),
{
    if same_text(package, "ffmpeg") {
        "Gyan.FFmpeg".to_owned()
    } else if same_text(package, "yt-dlp") {
        "yt-dlp.yt-dlp".to_owned()
    } else {
        package.to_owned()
    }
}

/// The plan of a package manager of Windows.
fn windows_commands(installer: &str, packages: &Vec<String>) -> (plan: Result<
    Vec<CommandSpec>,
    InstallError,
>)
    ensures
        plan_view(plan) == windows_plan(installer@, texts(packages@)),
{
    let mut words: Vec<String> = Vec::new();
    assert(texts(words@) =~= Seq::<Seq<char>>::empty());
    if same_text(installer, "winget") {
        let mut mapped: Vec<String> = Vec::new();
        let mut i: usize = 0;
        while i < packages.len()
            invariant
                i <= packages.len(),
                mapped@.len() == i,
                forall|k: int|
                    0 <= k < i ==> (#[trigger] mapped@[k])@ == winget_name(packages@[k]@),
            decreases packages.len() - i,
        {
            mapped.push(winget_package(packages[i].as_str()));
            i += 1;
        }
        assert(texts(mapped@) =~= winget_names(texts(packages@)));
        add_word(&mut words, "install");
        add_word(&mut words, "--silent");
        add_word(&mut words, "--accept-package-agreements");
        add_word(&mut words, "--accept-source-agreements");
        add_word(&mut words, "--exact");
        assert(texts(words@) =~= seq![
            "install"@,
            "--silent"@,
            "--accept-package-agreements"@,
            "--accept-source-agreements"@,
            "--exact"@,
        ]);
        one_command("winget", words, &mapped)
    } else if same_text(installer, "choco") {
        add_word(&mut words, "install");
        add_word(&mut words, "-y");
        add_word(&mut words, "--no-progress");
        assert(texts(words@) =~= seq!["install"@, "-y"@, "--no-progress"@]);
        one_command("choco", words, packages)
    } else if same_text(installer, "scoop") {
        add_word(&mut words, "install");
        assert(texts(words@) =~= seq!["install"@]);
        one_command("scoop", words, packages)
    } else {
        Err(InstallError::UnsupportedInstaller)
    }
}

/// The commands that install `packages` with `installer` on `platform`.
/// They are to be run in their order, and no further once one has failed.
pub fn install_commands(platform: Platform, installer: &str, packages: &Vec<String>) -> (plan:
    Result<Vec<CommandSpec>, InstallError>)
    ensures
        plan_view(plan) == install_plan(platform, installer@, texts(packages@)),
{
    match platform {
        Platform::MacOs => {
            if same_text(installer, "brew") {
                Ok(brew_commands(packages))
            } else {
                Err(InstallError::UnsupportedPlatform)
            }
        },
        Platform::Linux => linux_commands(installer, packages),
        Platform::Windows => windows_commands(installer, packages),
        Platform::Other => Err(InstallError::UnsupportedPlatform),
    }
}

} // verus!
