//! "Start with system": run `ra-desk --headless` at login so this machine
//! is reachable without anyone opening the window. launchd on macOS,
//! systemd --user on Linux, the HKCU Run key on Windows.

use vstd::prelude::*;
use vstd::string::StringExecFns;
use crate::client_config::{join_path, joined_path};
use crate::moonlight::Platform;
use crate::text::{cat2, cat3, str_view, text_view, texts};

verus! {

pub const LABEL: &'static str = "dev.remote-access.host";

pub const RUN_KEY: &'static str = "HKCU\\Software\\Microsoft\\Windows\\CurrentVersion\\Run";

/// A command to run.
#[derive(Debug)]
pub struct SystemCommand {
    pub program: String,
    pub args: Vec<String>,
    /// What to say, before the command's own words, if it fails; a command without
    /// such words may fail.
    pub failure: Option<String>,
}

/// What a [`SystemCommand`] holds.
#[verifier::ext_equal]
pub struct CommandView {
    pub program: Seq<char>,
    pub args: Seq<Seq<char>>,
    pub failure: Option<Seq<char>>,
}

impl View for SystemCommand {
    type V = CommandView;

    open spec fn view(&self) -> CommandView {
        CommandView {
            program: self.program@,
            args: texts(self.args@),
            failure: text_view(self.failure),
        }
    }
}

/// What a list of commands holds.
pub open spec fn command_views(v: Seq<SystemCommand>) -> Seq<CommandView> {
    Seq::new(v.len(), |i: int| v[i]@)
}

/// What to do to start the agent with the system: write a file, if any, then run
/// commands.
#[derive(Debug)]
pub struct InstallPlan {
    /// Path and contents.
    pub file: Option<(String, String)>,
    pub commands: Vec<SystemCommand>,
}

/// What to do to undo that: run commands, then remove the file, if any.
#[derive(Debug)]
pub struct UninstallPlan {
    pub file: Option<String>,
    /// Whether the commands are run only if the file is there.
    pub only_with_file: bool,
    pub commands: Vec<SystemCommand>,
}

/// Where the service is described, in a user's home and configuration directory;
/// `None` on systems that keep no such file.
pub open spec fn service_file_of(
    platform: Platform,
    home: Option<Seq<char>>,
    xdg_config_home: Option<Seq<char>>,
) -> Result<Option<Seq<char>>, Seq<char>> {
    match platform {
        Platform::Macos => match home {
            Some(h) => Ok(
                Some(
                    joined_path(
                        joined_path(h, '/', "Library/LaunchAgents"@),
                        '/',
                        LABEL@ + ".plist"@,
                    ),
                ),
            ),
            None => Err("HOME not set"@),
        },
        Platform::Linux => match (xdg_config_home, home) {
            (Some(x), _) => Ok(Some(unit_in(x))),
            (None, Some(h)) => Ok(Some(unit_in(joined_path(h, '/', ".config"@)))),
            (None, None) => Err("no config dir"@),
        },
        _ => Ok(None),
    }
}

/// The unit in a configuration directory.
pub open spec fn unit_in(base: Seq<char>) -> Seq<char> {
    joined_path(joined_path(base, '/', "systemd/user"@), '/', LABEL@ + ".service"@)
}

/// The unit in a configuration directory.
fn unit_path(base: &str) -> (r: String)
    ensures
        r@ == unit_in(base@),
{
    let dir = join_path(base, '/', "systemd/user");
    let file = cat2(LABEL, ".service");
    join_path(dir.as_str(), '/', file.as_str())
}

/// Where the service is described.
pub fn service_file(platform: Platform, home: Option<&str>, xdg_config_home: Option<&str>) -> (r:
    Result<Option<String>, String>)
    ensures
        match r {
            Ok(Some(p)) => service_file_of(platform, str_view(home), str_view(xdg_config_home))
                == Ok::<Option<Seq<char>>, Seq<char>>(Some(p@)),
            Ok(None) => service_file_of(platform, str_view(home), str_view(xdg_config_home)) == Ok::<
                Option<Seq<char>>,
                Seq<char>,
            >(None),
            Err(e) => service_file_of(platform, str_view(home), str_view(xdg_config_home)) == Err::<
                Option<Seq<char>>,
                Seq<char>,
            >(e@),
        },
{
    match platform {
        Platform::Macos => match home {
            Some(h) => {
                let dir = join_path(h, '/', "Library/LaunchAgents");
                let file = cat2(LABEL, ".plist");
                Ok(Some(join_path(dir.as_str(), '/', file.as_str())))
            },
            None => Err("HOME not set".to_owned()),
        },
        Platform::Linux => match xdg_config_home {
            Some(x) => Ok(Some(unit_path(x))),
            None => match home {
                Some(h) => {
                    let base = join_path(h, '/', ".config");
                    Ok(Some(unit_path(base.as_str())))
                },
                None => Err("no config dir".to_owned()),
            },
        },
        _ => Ok(None),
    }
}

/// The launchd description of the service.
pub open spec fn plist_words(exe: Seq<char>, log: Seq<char>) -> Seq<char> {
    "<?xml version=\"1.0\" encoding=\"UTF-8\"?>\n<!DOCTYPE plist PUBLIC \"-//Apple//DTD PLIST 1.0//EN\" \"http://www.apple.com/DTDs/PropertyList-1.0.dtd\">\n<plist version=\"1.0\"><dict>\n  <key>Label</key><string>"@
        + LABEL@
        + "</string>\n  <key>ProgramArguments</key><array><string>"@ + exe
        + "</string><string>--headless</string></array>\n  <key>RunAtLoad</key><true/>\n  <key>KeepAlive</key><true/>\n  <key>StandardOutPath</key><string>"@
        + log + "</string>\n  <key>StandardErrorPath</key><string>"@ + log
        + "</string>\n</dict></plist>\n"@
}

/// The launchd description of the service.
fn plist_text(exe: &str, log: &str) -> (r: String)
    ensures
        r@ == plist_words(exe@, log@),
{
    let mut s = cat3(
        "<?xml version=\"1.0\" encoding=\"UTF-8\"?>\n<!DOCTYPE plist PUBLIC \"-//Apple//DTD PLIST 1.0//EN\" \"http://www.apple.com/DTDs/PropertyList-1.0.dtd\">\n<plist version=\"1.0\"><dict>\n  <key>Label</key><string>",
        LABEL,
        "</string>\n  <key>ProgramArguments</key><array><string>",
    );
    s.append(exe);
    s.append(
        "</string><string>--headless</string></array>\n  <key>RunAtLoad</key><true/>\n  <key>KeepAlive</key><true/>\n  <key>StandardOutPath</key><string>",
    );
    s.append(log);
    s.append("</string>\n  <key>StandardErrorPath</key><string>");
    s.append(log);
    s.append("</string>\n</dict></plist>\n");
    s
}

/// The systemd description of the service.
pub open spec fn unit_words(exe: Seq<char>) -> Seq<char> {
    "[Unit]\nDescription=remote-access host agent\nAfter=network-online.target\n\n[Service]\nExecStart="@
        + exe
        + " --headless\nRestart=always\nRestartSec=5\n\n[Install]\nWantedBy=default.target\n"@
}

/// The systemd description of the service.
fn unit_text(exe: &str) -> (r: String)
    ensures
        r@ == unit_words(exe@),
{
    cat3(
        "[Unit]\nDescription=remote-access host agent\nAfter=network-online.target\n\n[Service]\nExecStart=",
        exe,
        " --headless\nRestart=always\nRestartSec=5\n\n[Install]\nWantedBy=default.target\n",
    )
}

/// A command that may fail.
pub open spec fn lenient(program: Seq<char>, args: Seq<Seq<char>>) -> CommandView {
    CommandView { program, args, failure: None }
}

/// A command that must succeed.
pub open spec fn strict(program: Seq<char>, args: Seq<Seq<char>>, failure: Seq<char>) -> CommandView {
    CommandView { program, args, failure: Some(failure) }
}

/// The commands that install the service described in `file`.
pub open spec fn install_commands(platform: Platform, file: Seq<char>, exe: Seq<char>) -> Seq<
    CommandView,
> {
    match platform {
        Platform::Macos => seq![
            lenient("launchctl"@, seq!["unload"@, file]),
            strict("launchctl"@, seq!["load"@, "-w"@, file], "launchctl load failed: "@),
        ],
        Platform::Linux => seq![
            lenient("systemctl"@, seq!["--user"@, "daemon-reload"@]),
            strict(
                "systemctl"@,
                seq!["--user"@, "enable"@, "--now"@, LABEL@ + ".service"@],
                "systemctl enable failed: "@,
            ),
        ],
        Platform::Windows => seq![
            strict(
                "reg"@,
                seq![
                    "add"@,
                    RUN_KEY@,
                    "/v"@,
                    LABEL@,
                    "/t"@,
                    "REG_SZ"@,
                    "/d"@,
                    "\""@ + exe + "\" --headless"@,
                    "/f"@,
                ],
                "reg add failed: "@,
            ),
        ],
        Platform::Other => Seq::empty(),
    }
}

/// The commands that remove the service described in `file`.
pub open spec fn uninstall_commands(platform: Platform, file: Seq<char>) -> Seq<CommandView> {
    match platform {
        Platform::Macos => seq![lenient("launchctl"@, seq!["unload"@, "-w"@, file])],
        Platform::Linux => seq![
            lenient(
                "systemctl"@,
                seq!["--user"@, "disable"@, "--now"@, LABEL@ + ".service"@],
            ),
        ],
        Platform::Windows => seq![
            lenient("reg"@, seq!["delete"@, RUN_KEY@, "/v"@, LABEL@, "/f"@]),
        ],
        Platform::Other => Seq::empty(),
    }
}

/// Appends a command.
fn push_command(v: &mut Vec<SystemCommand>, program: &str, args: Vec<String>, failure: Option<String>)
    ensures
        command_views(final(v)@) == command_views(old(v)@).push(
            CommandView {
                program: program@,
                args: texts(args@),
                failure: text_view(failure),
            },
        ),
{
    let ghost before = command_views(v@);
    let c = SystemCommand { program: program.to_owned(), args, failure };
    let ghost added = c@;
    v.push(c);
    assert(command_views(v@) =~= before.push(added));
}

/// A list of texts.
fn text_list(parts: &[&str]) -> (r: Vec<String>)
    ensures
        texts(r@) == Seq::new(parts@.len(), |i: int| parts@[i]@),
{
    let mut v: Vec<String> = Vec::new();
    let mut i: usize = 0;
    while i < parts.len()
        invariant
            i <= parts@.len(),
            v@.len() == i,
            forall|j: int| 0 <= j < i ==> (#[trigger] v@[j])@ == parts@[j]@,
        decreases parts.len() - i,
    {
        v.push(parts[i].to_owned());
        i += 1;
    }
    assert(texts(v@) =~= Seq::new(parts@.len(), |i: int| parts@[i]@));
    v
}

/// Whether the service is installed: the system's answer (is the file there, or
/// the key), where the system can have the service at all.
pub fn is_installed(platform: Platform, found: bool) -> (r: bool)
    ensures
        r == (found && platform != Platform::Other),
{
    match platform {
        Platform::Other => false,
        _ => found,
    }
}

/// What the installation writes: path and contents.
pub open spec fn install_file(
    platform: Platform,
    file: Seq<char>,
    exe: Seq<char>,
    log: Seq<char>,
) -> Option<(Seq<char>, Seq<char>)> {
    match platform {
        Platform::Macos => Some((file, plist_words(exe, log))),
        Platform::Linux => Some((file, unit_words(exe))),
        _ => None,
    }
}

/// What to do to start `exe` with the system.
pub fn install(
    platform: Platform,
    exe: &str,
    log: &str,
    home: Option<&str>,
    xdg_config_home: Option<&str>,
) -> (r: Result<InstallPlan, String>)
    ensures
        match service_file_of(platform, str_view(home), str_view(xdg_config_home)) {
            Err(w) => r matches Err(e) && e@ == w,
            Ok(file) => if platform == Platform::Other {
                r matches Err(e) && e@ == "autostart is not supported on this platform"@
            } else {
                let path = match file {
                    Some(p) => p,
                    None => Seq::empty(),
                };
                &&& r matches Ok(plan)
                &&& command_views(plan.commands@) == install_commands(platform, path, exe@)
                &&& match plan.file {
                    Some(f) => install_file(platform, path, exe@, log@) == Some((f.0@, f.1@)),
                    None => install_file(platform, path, exe@, log@) is None,
                }
            },
        },
{
    let file = match service_file(platform, home, xdg_config_home) {
        Ok(f) => f,
        Err(e) => return Err(e),
    };
    let path = match file {
        Some(p) => p,
        None => {
            let s = String::new();
            proof {
                reveal_strlit("");
                assert(s@ =~= Seq::empty());
            }
            s
        },
    };
    let mut commands: Vec<SystemCommand> = Vec::new();
    assert(command_views(commands@) =~= Seq::empty());
    match platform {
        Platform::Macos => {
            let a = text_list(&["unload", path.as_str()]);
            assert(texts(a@) =~= seq!["unload"@, path@]);
            push_command(&mut commands, "launchctl", a, None);
            let b = text_list(&["load", "-w", path.as_str()]);
            assert(texts(b@) =~= seq!["load"@, "-w"@, path@]);
            push_command(
                &mut commands,
                "launchctl",
                b,
                Some("launchctl load failed: ".to_owned()),
            );
            assert(command_views(commands@) =~= install_commands(platform, path@, exe@));
            let text = plist_text(exe, log);
            Ok(InstallPlan { file: Some((path, text)), commands })
        },
        Platform::Linux => {
            let a = text_list(&["--user", "daemon-reload"]);
            assert(texts(a@) =~= seq!["--user"@, "daemon-reload"@]);
            push_command(&mut commands, "systemctl", a, None);
            let unit = cat2(LABEL, ".service");
            let b = text_list(&["--user", "enable", "--now", unit.as_str()]);
            assert(texts(b@) =~= seq!["--user"@, "enable"@, "--now"@, LABEL@ + ".service"@]);
            push_command(
                &mut commands,
                "systemctl",
                b,
                Some("systemctl enable failed: ".to_owned()),
            );
            assert(command_views(commands@) =~= install_commands(platform, path@, exe@));
            let text = unit_text(exe);
            Ok(InstallPlan { file: Some((path, text)), commands })
        },
        Platform::Windows => {
            let line = cat3("\"", exe, "\" --headless");
            let a = text_list(
                &["add", RUN_KEY, "/v", LABEL, "/t", "REG_SZ", "/d", line.as_str(), "/f"],
            );
            assert(texts(a@) =~= seq![
                "add"@,
                RUN_KEY@,
                "/v"@,
                LABEL@,
                "/t"@,
                "REG_SZ"@,
                "/d"@,
                "\""@ + exe@ + "\" --headless"@,
                "/f"@,
            ]);
            push_command(&mut commands, "reg", a, Some("reg add failed: ".to_owned()));
            assert(command_views(commands@) =~= install_commands(platform, path@, exe@));
            Ok(InstallPlan { file: None, commands })
        },
        Platform::Other => Err("autostart is not supported on this platform".to_owned()),
    }
}

/// What to do to start nothing with the system any more.
pub fn uninstall(platform: Platform, home: Option<&str>, xdg_config_home: Option<&str>) -> (r: Result<
    UninstallPlan,
    String,
>)
    ensures
        match service_file_of(platform, str_view(home), str_view(xdg_config_home)) {
            Err(w) => r matches Err(e) && e@ == w,
            Ok(file) => {
                let path = match file {
                    Some(p) => p,
                    None => Seq::empty(),
                };
                &&& r matches Ok(plan)
                &&& command_views(plan.commands@) == uninstall_commands(platform, path)
                &&& text_view(plan.file) == file
                &&& plan.only_with_file == (platform == Platform::Macos)
            },
        },
{
    let file = match service_file(platform, home, xdg_config_home) {
        Ok(f) => f,
        Err(e) => return Err(e),
    };
    let path = match &file {
        Some(p) => p.clone(),
        None => {
            let s = String::new();
            proof {
                reveal_strlit("");
                assert(s@ =~= Seq::empty());
            }
            s
        },
    };
    let mut commands: Vec<SystemCommand> = Vec::new();
    assert(command_views(commands@) =~= Seq::empty());
    match platform {
        Platform::Macos => {
            let a = text_list(&["unload", "-w", path.as_str()]);
            assert(texts(a@) =~= seq!["unload"@, "-w"@, path@]);
            push_command(&mut commands, "launchctl", a, None);
        },
        Platform::Linux => {
            let unit = cat2(LABEL, ".service");
            let a = text_list(&["--user", "disable", "--now", unit.as_str()]);
            assert(texts(a@) =~= seq!["--user"@, "disable"@, "--now"@, LABEL@ + ".service"@]);
            push_command(&mut commands, "systemctl", a, None);
        },
        Platform::Windows => {
            let a = text_list(&["delete", RUN_KEY, "/v", LABEL, "/f"]);
            assert(texts(a@) =~= seq!["delete"@, RUN_KEY@, "/v"@, LABEL@, "/f"@]);
            push_command(&mut commands, "reg", a, None);
        },
        Platform::Other => {},
    }
    assert(command_views(commands@) =~= uninstall_commands(platform, path@));
    let only_with_file = match platform {
        Platform::Macos => true,
        _ => false,
    };
    Ok(UninstallPlan { file, only_with_file, commands })
}

} // verus!
