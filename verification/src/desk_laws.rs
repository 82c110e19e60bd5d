//! What the desktop window does with what it is told, and how the machine becomes and
//! stays a host.

use vstd::prelude::*;
use crate::agent::pretty;
use crate::autostart::{
    install_commands, install_file, plist_words, service_file_of, uninstall_commands, unit_words,
};
use crate::client_config::{joined_path, ClientConfigView};
use crate::desk::{
    card_of, logged, probe_words, status_of, ConnectJobView, DeskActionView, DeskView, MsgView,
    PreparedView, RecentHost, StatusColour, STREAM_LOOK_MILLIS,
};
use crate::moonlight::Platform;
use crate::proto::valid_id;
use crate::session::EventView;
use crate::session_laws::shown_ids_can_be_typed;
use crate::setup::{
    fresh_wizard, probe_of, without_local, AgentStateView, ApolloProbeView, WebUiAnswer, WizardView,
    LOCK_PORT, RESTART_SECS,
};
use crate::text::{has_part, has_suffix, text_view, trimmed, utf8};
use crate::text_laws::parts_are_found;

verus! {

// ---------------------------------------------------------------------------
// The log
// ---------------------------------------------------------------------------

/// A line is added at the end of the log. A log of 200 lines first loses its 100
/// oldest, and nothing else is ever lost.
pub proof fn only_old_lines_are_lost(log: Seq<Seq<char>>, line: Seq<char>)
    ensures
        log.len() < 200 ==> logged(log, line) == log.push(line),
        log.len() == 200 ==> logged(log, line) == log.skip(100).push(line),
{
    if log.len() == 200 {
        assert(log.push(line).skip(100) =~= log.skip(100).push(line));
    }
}

/// Logging changes nothing but the log.
pub proof fn logging_changes_the_log_alone(d: DeskView, line: Seq<char>)
    ensures
        d.with_log(line) == (DeskView { log: d.with_log(line).log, ..d }),
        d.log.len() < 200 ==> d.with_log(line).log == d.log.push(line),
{
}

// ---------------------------------------------------------------------------
// Connections
// ---------------------------------------------------------------------------

/// A connection that was prepared is streamed. The password that was typed is
/// forgotten, and the app that was chosen is shown.
pub proof fn prepared_connections_are_streamed(d: DeskView, p: PreparedView)
    ensures
        d.on_msg(MsgView::Prepared(p)).1 == DeskActionView::Stream(p),
        d.on_msg(MsgView::Prepared(p)).0.remote_password.len() == 0,
        d.on_msg(MsgView::Prepared(p)).0.remote_app == p.app,
        d.on_msg(MsgView::Prepared(p)).0 == (DeskView {
            remote_password: d.on_msg(MsgView::Prepared(p)).0.remote_password,
            remote_app: p.app,
            ..d
        }),
{
}

/// The end of a stream leaves the window free for another, and is told.
pub proof fn ended_streams_free_the_window(d: DeskView, s: Seq<char>)
    ensures
        ({
            let (after, action) = d.on_msg(MsgView::StreamEnded(s));
            &&& action == DeskActionView::Nothing
            &&& !after.streaming && !after.busy && after.current is None
            &&& d.log.len() < 200 ==> after.log == d.log.push(s)
            &&& after == (DeskView {
                streaming: false,
                busy: false,
                current: None,
                log: after.log,
                ..d
            })
        }),
{
}

/// An error asks for a password exactly if its words say that one is required or that
/// it was wrong, or if one was asked for before; it frees the window for another try
/// and leaves what was typed.
pub proof fn errors_ask_for_a_password_where_it_helps(d: DeskView, e: Seq<char>)
    ensures
        ({
            let (after, action) = d.on_msg(MsgView::Error(e));
            &&& action == DeskActionView::Nothing
            &&& !after.busy
            &&& after.need_password <==> d.need_password || has_part(e, "password required"@)
                || has_part(e, "wrong password"@)
            &&& after == (DeskView {
                busy: false,
                need_password: after.need_password,
                log: after.log,
                ..d
            })
            &&& d.log.len() < 200 ==> after.log == d.log.push(
                if has_part(e, "password required"@) {
                    "this host needs a password — enter it and press Connect again"@
                } else if has_part(e, "wrong password"@) {
                    "✗ wrong password"@
                } else {
                    "✗ "@ + e
                },
            )
        }),
{
}

/// What the host's agent and the connection say is logged or kept, and nothing else is
/// done about it.
pub proof fn news_are_kept(d: DeskView, e: EventView, s: Seq<char>, online: Option<bool>)
    requires
        d.log.len() < 200,
    ensures
        d.on_msg(MsgView::Event(e)) == (
            DeskView { log: d.log.push(e.desk_words()), ..d },
            DeskActionView::Nothing,
        ),
        d.on_msg(MsgView::Log(s)) == (
            DeskView { log: d.log.push(s), ..d },
            DeskActionView::Nothing,
        ),
        d.on_msg(MsgView::HostOnline(online)) == (
            DeskView { host_online: online, ..d },
            DeskActionView::Nothing,
        ),
        d.on_msg(MsgView::PasswordChanged(Ok(()))) == (d, DeskActionView::Nothing),
        d.on_msg(MsgView::PasswordChanged(Err(s))) == (
            DeskView {
                log: d.log.push(
                    "✗ saved locally, but the rendezvous server could not be updated: "@ + s,
                ),
                ..d
            },
            DeskActionView::Nothing,
        ),
{
}

/// An ID may be typed with blanks. A connection starts with the digits of it, with a
/// password and an app only where they were given, and with an empty log.
pub proof fn connections_start_with_what_was_typed(d: DeskView, id: Seq<char>)
    requires
        valid_id(id),
        d.remote_id == pretty(id),
    ensures
        d.start_connect().1 is Some,
        ({
            let (after, job) = d.start_connect();
            let j = job->0;
            &&& j.id == id
            &&& j.password is None <==> d.remote_password.len() == 0
            &&& j.password is Some ==> j.password->0 == d.remote_password
            &&& j.app is None <==> trimmed(d.remote_app).len() == 0
            &&& j.app is Some ==> j.app->0 == trimmed(d.remote_app)
            &&& j.remember == d.remember
            &&& after == (DeskView { busy: true, need_password: false, log: after.log, ..d })
            &&& after.log.len() == 0
        }),
{
    shown_ids_can_be_typed(id);
}

/// What has not the digits of an ID is refused, and only a line is added to the log.
pub proof fn other_ids_are_refused(d: DeskView)
    requires
        !valid_id(crate::session::digits_of(d.remote_id)),
        d.log.len() < 200,
    ensures
        d.start_connect() == (
            DeskView {
                log: d.log.push("✗ '"@ + d.remote_id + "' is not a valid 9-digit ID"@),
                ..d
            },
            None::<ConnectJobView>,
        ),
{
    reveal_strlit("✗ ");
    reveal_strlit("'");
    reveal_strlit("✗ '");
    assert("✗ "@ + ("'"@ + d.remote_id + "' is not a valid 9-digit ID"@) =~= "✗ '"@ + d.remote_id
        + "' is not a valid 9-digit ID"@);
}

// ---------------------------------------------------------------------------
// Setting up a host
// ---------------------------------------------------------------------------

/// Once the machine is set up the wizard is gone and the host is started, and its state
/// is looked up afresh. A setup that failed leaves the wizard open, with the error.
pub proof fn finished_setups_start_the_host(d: DeskView, id: Seq<char>, e: Seq<char>)
    ensures
        ({
            let (after, action) = d.on_msg(MsgView::SetupDone(Ok(id)));
            &&& action == DeskActionView::StartHost
            &&& after.wizard is None && after.last_host_poll is None
            &&& d.log.len() < 200 ==> after.log == d.log.push(
                "✓ this PC is now reachable as "@ + pretty(id),
            )
            &&& after == (DeskView { wizard: None, last_host_poll: None, log: after.log, ..d })
        }),
        ({
            let (after, action) = d.on_msg(MsgView::SetupDone(Err(e)));
            &&& action == DeskActionView::Nothing
            &&& after == (DeskView { wizard: after.wizard, ..d })
            &&& after.wizard is Some <==> d.wizard is Some
            &&& d.wizard is Some ==> after.wizard == Some(
                WizardView { busy: false, error: Some(e), ..d.wizard->0 },
            )
        }),
{
}

/// What is found out for the wizard is shown in it, and is lost where there is none.
/// The name of the host is filled in only where none was typed.
pub proof fn findings_go_to_the_wizard(
    d: DeskView,
    w: WizardView,
    p: ApolloProbeView,
    r: Result<Seq<char>, Seq<char>>,
)
    requires
        d.wizard == Some(w),
    ensures
        d.on_msg(MsgView::Probe(p)) == (
            DeskView { wizard: Some(WizardView { probe: p, ..w }), ..d },
            DeskActionView::Nothing,
        ),
        ({
            let (after, action) = d.on_msg(MsgView::Creds(r));
            let name = after.wizard->0.host_name;
            &&& action == DeskActionView::Nothing
            &&& after == (DeskView {
                wizard: Some(WizardView { busy: false, creds_ok: Some(r), host_name: name, ..w }),
                ..d
            })
            &&& w.host_name.len() > 0 || r is Err || r->Ok_0.len() == 0 ==> name == w.host_name
            &&& w.host_name.len() == 0 && r is Ok && r->Ok_0.len() > 0 ==> name == r->Ok_0
        }),
        (DeskView { wizard: None, ..d }).on_msg(MsgView::Probe(p)) == (
            DeskView { wizard: None, ..d },
            DeskActionView::Nothing,
        ),
        (DeskView { wizard: None, ..d }).on_msg(MsgView::Creds(r)) == (
            DeskView { wizard: None, ..d },
            DeskActionView::Nothing,
        ),
{
    let empty = WizardView {
        busy: false,
        creds_ok: Some(r),
        host_name: d.on_msg(MsgView::Creds(r)).0.wizard->0.host_name,
        ..w
    };
    assert(d.on_msg(MsgView::Creds(r)).0.wizard == Some(empty));
}

/// A wizard begins with Apollo on this machine, a password to show, and the machine's
/// name without its `.local`; nothing else is known yet.
pub proof fn wizards_begin_with_what_is_known(
    url: Seq<char>,
    name: Seq<char>,
    password: Seq<char>,
)
    ensures
        ({
            let w = fresh_wizard(url, Some(name), password);
            &&& w.rendezvous_url == url && w.access_password == password && w.show_access_password
            &&& w.apollo_url == "https://127.0.0.1:47990"@
            &&& w.apollo_username.len() == 0 && w.apollo_password.len() == 0
            &&& w.probe is Unknown && w.creds_ok is None && w.error is None && !w.busy
            &&& w.host_name == without_local(name)
            &&& fresh_wizard(url, None, password) == (WizardView { host_name: "My PC"@, ..w })
        }),
        without_local(name + ".local"@) == without_local(name),
        !has_suffix(name, ".local"@) ==> without_local(name) == name,
{
    reveal_strlit(".local");
    let long = name + ".local"@;
    assert(long.skip(long.len() - 6) =~= ".local"@);
    assert(long.take(long.len() - 6) =~= name);
}

/// A host can be set up once nothing is at work, the password has six bytes, and the
/// Apollo user and the rendezvous server are named.
pub proof fn setups_need_a_password_a_user_and_a_server(w: WizardView)
    ensures
        w.ready() <==> !w.busy && utf8(w.access_password).len() > 5 && w.apollo_username.len() != 0
            && w.rendezvous_url.len() != 0,
{
}

/// A host is called what was typed, without the blanks around it and up to 64
/// characters; where nothing was typed it gets the name that is proposed.
pub proof fn hosts_are_called_what_was_typed(w: WizardView, default: Seq<char>)
    ensures
        ({
            let typed = trimmed(w.host_name);
            &&& typed.len() == 0 ==> w.chosen_name(default) == default
            &&& 0 < typed.len() <= 64 ==> w.chosen_name(default) == typed
            &&& typed.len() > 64 ==> w.chosen_name(default) == typed.take(64)
        }),
{
}

/// Apollo is there if its web interface answers, and runs for the first time if it
/// starts with its welcome.
pub proof fn apollo_is_there_if_it_answers(path: String, rest: Seq<char>, words: String)
    ensures
        probe_of(WebUiAnswer::Answered { start_path: None }) == (ApolloProbeView::Found {
            first_run: false,
        }),
        path@ == "/welcome"@ + rest ==> probe_of(
            WebUiAnswer::Answered { start_path: Some(path) },
        ) == (ApolloProbeView::Found { first_run: true }),
        (forall|r: Seq<char>| path@ != #[trigger] ("/welcome"@ + r)) ==> probe_of(
            WebUiAnswer::Answered { start_path: Some(path) },
        ) == (ApolloProbeView::Found { first_run: false }),
        probe_of(WebUiAnswer::Status(words)) == ApolloProbeView::NotFound(
            "web UI answered "@ + words@,
        ),
        probe_of(WebUiAnswer::NoConnection) == ApolloProbeView::NotFound(
            "nothing is listening; is Apollo installed and running?"@,
        ),
        probe_of(WebUiAnswer::Failed(words)) == ApolloProbeView::NotFound(words@),
{
    let n = "/welcome"@.len() as int;
    assert(("/welcome"@ + rest).take(n) =~= "/welcome"@);
    if crate::text::has_prefix(path@, "/welcome"@) {
        assert(path@ =~= "/welcome"@ + path@.skip(n));
    }
}

// ---------------------------------------------------------------------------
// What is shown
// ---------------------------------------------------------------------------

/// A host is shown as online exactly if the rendezvous server says so and it is set up
/// and without an error; an error, and a host that is stopped, are shown in red.
pub proof fn online_hosts_are_shown_in_green(state: AgentStateView, online: Option<bool>)
    ensures
        status_of(state, online).0 == StatusColour::Green <==> online == Some(true) && !(
        state is NotConfigured) && !(state is Failed),
        status_of(state, online).0 == StatusColour::Gray <==> state is NotConfigured,
        status_of(state, online).0 == StatusColour::Red <==> state is Failed || (state is Stopped
            && online != Some(true)),
        state is Failed ==> status_of(state, online).1 == "agent error: "@ + state->Failed_0,
        state is NotConfigured ==> status_of(state, online).1 == "not configured"@,
        state is Stopped && online != Some(true) ==> status_of(state, online).1 == "Stopped"@,
        state is Running && online == Some(true) ==> status_of(state, online).1 == "Online"@,
        state is Running && online == Some(false) ==> status_of(state, online).1 == "registering…"@,
        state is Running && online is None ==> status_of(state, online).1
            == "connecting to rendezvous…"@,
        state is RunningElsewhere && online != Some(true) ==> status_of(state, online).1
            == "background service running, waiting for rendezvous…"@,
        (state is Stopped || state is RunningElsewhere) && online == Some(true) ==> status_of(
            state,
            online,
        ).1 == "Online (background service)"@,
{
}

/// What is known of Apollo is shown: nothing before it was looked for, green once it is
/// ready, gold where it waits to be set up, and red with the reason where it was not
/// found.
pub proof fn apollo_is_shown_by_its_state(e: Seq<char>)
    ensures
        probe_words(ApolloProbeView::Unknown) is None,
        probe_words(ApolloProbeView::Checking) == Some(
            (StatusColour::Gray, "looking for Apollo…"@),
        ),
        probe_words(ApolloProbeView::Found { first_run: false }) == Some(
            (StatusColour::Green, "✓ Apollo is running"@),
        ),
        probe_words(ApolloProbeView::Found { first_run: true }) == Some(
            (
                StatusColour::Gold,
                "Apollo is running but has no web credentials yet — open its web UI once to create them, then continue."@,
            ),
        ),
        probe_words(ApolloProbeView::NotFound(e)) == Some((StatusColour::Red, "✗ "@ + e)),
{
}

/// A host that is remembered is shown by its name and its ID, with the app that was
/// streamed last, and with a note exactly if its password is kept.
pub proof fn remembered_hosts_are_shown(cfg: ClientConfigView, id: Seq<char>, c: RecentHost)
    requires
        card_of(cfg, id, c),
    ensures
        c.id@ == id,
        c.shown_id@ == pretty(id),
        cfg.host(id).name.len() > 0 ==> c.title@ == cfg.host(id).name,
        cfg.host(id).name.len() == 0 ==> c.title@ == "unnamed host"@,
        text_view(c.app) == cfg.host(id).last_app,
        ({
            let app = match cfg.host(id).last_app {
                Some(a) => a,
                None => "Desktop"@,
            };
            &&& cfg.host(id).password_h1 is None ==> c.label@ == app
            &&& cfg.host(id).password_h1 is Some ==> c.label@ == app + " · password saved"@
        }),
{
    reveal_strlit("");
    let app = match cfg.host(id).last_app {
        Some(a) => a,
        None => "Desktop"@,
    };
    assert(app + ""@ =~= app);
}

// ---------------------------------------------------------------------------
// Starting with the system
// ---------------------------------------------------------------------------

/// Where the file of the service lies: below the user's home on macOS, in their
/// configuration on Linux, nowhere on other systems.
pub proof fn services_have_their_file(home: Seq<char>, config: Seq<char>, any: Option<Seq<char>>)
    ensures
        service_file_of(Platform::Macos, Some(home), any) == Ok::<Option<Seq<char>>, Seq<char>>(
            Some(
                joined_path(
                    joined_path(home, '/', "Library/LaunchAgents"@),
                    '/',
                    "dev.remote-access.host.plist"@,
                ),
            ),
        ),
        service_file_of(Platform::Macos, None, any) is Err,
        service_file_of(Platform::Linux, any, Some(config)) == Ok::<Option<Seq<char>>, Seq<char>>(
            Some(
                joined_path(
                    joined_path(config, '/', "systemd/user"@),
                    '/',
                    "dev.remote-access.host.service"@,
                ),
            ),
        ),
        service_file_of(Platform::Linux, Some(home), None) == service_file_of(
            Platform::Linux,
            any,
            Some(joined_path(home, '/', ".config"@)),
        ),
        service_file_of(Platform::Linux, None, None) is Err,
        service_file_of(Platform::Windows, any, any) == Ok::<Option<Seq<char>>, Seq<char>>(None),
        service_file_of(Platform::Other, any, any) == Ok::<Option<Seq<char>>, Seq<char>>(None),
{
    reveal_strlit("dev.remote-access.host");
    reveal_strlit(".plist");
    reveal_strlit(".service");
    reveal_strlit("dev.remote-access.host.plist");
    reveal_strlit("dev.remote-access.host.service");
    assert("dev.remote-access.host"@ + ".plist"@ =~= "dev.remote-access.host.plist"@);
    assert("dev.remote-access.host"@ + ".service"@ =~= "dev.remote-access.host.service"@);
}

/// The service runs the program without its window: its file names the program with
/// that option, and the log where there is one.
pub proof fn services_run_without_a_window(
    file: Seq<char>,
    exe: Seq<char>,
    log: Seq<char>,
)
    ensures
        install_file(Platform::Linux, file, exe, log) is Some,
        (install_file(Platform::Linux, file, exe, log)->0).0 == file,
        has_part(
            (install_file(Platform::Linux, file, exe, log)->0).1,
            "ExecStart="@ + exe + " --headless\n"@,
        ),
        install_file(Platform::Macos, file, exe, log) is Some,
        (install_file(Platform::Macos, file, exe, log)->0).0 == file,
        has_part(
            (install_file(Platform::Macos, file, exe, log)->0).1,
            "<array><string>"@ + exe + "</string><string>--headless</string></array>"@,
        ),
        has_part(
            (install_file(Platform::Macos, file, exe, log)->0).1,
            "<key>StandardOutPath</key><string>"@ + log + "</string>"@,
        ),
        has_part(
            (install_file(Platform::Macos, file, exe, log)->0).1,
            "<key>StandardErrorPath</key><string>"@ + log + "</string>"@,
        ),
        install_file(Platform::Windows, file, exe, log) is None,
        install_file(Platform::Other, file, exe, log) is None,
{
    lemma_unit(exe);
    lemma_plist_program(exe, log);
    lemma_plist_logs(exe, log);
}

proof fn lemma_unit(exe: Seq<char>)
    ensures
        has_part(unit_words(exe), "ExecStart="@ + exe + " --headless\n"@),
{
    let head = "[Unit]\nDescription=remote-access host agent\nAfter=network-online.target\n\n[Service]\nExecStart="@;
    let tail = " --headless\nRestart=always\nRestartSec=5\n\n[Install]\nWantedBy=default.target\n"@;
    reveal_strlit(
        "[Unit]\nDescription=remote-access host agent\nAfter=network-online.target\n\n[Service]\nExecStart=",
    );
    reveal_strlit(
        " --headless\nRestart=always\nRestartSec=5\n\n[Install]\nWantedBy=default.target\n",
    );
    reveal_strlit("ExecStart=");
    reveal_strlit(" --headless\n");
    let a = head.take(head.len() - 10);
    let b = tail.skip(12);
    assert(head =~= a + "ExecStart="@);
    assert(tail =~= " --headless\n"@ + b);
    let line = "ExecStart="@ + exe + " --headless\n"@;
    parts_are_found(a, line, b, line);
    assert(unit_words(exe) =~= a + ("ExecStart="@ + exe + " --headless\n"@) + b);
}

proof fn lemma_plist_program(exe: Seq<char>, log: Seq<char>)
    ensures
        has_part(plist_words(exe, log), "<array><string>"@ + exe + "</string><string>--headless</string></array>"@),
{
    reveal_strlit("</string>\n  <key>ProgramArguments</key><array><string>");
    reveal_strlit("</string><string>--headless</string></array>\n  <key>RunAtLoad</key><true/>\n  <key>KeepAlive</key><true/>\n  <key>StandardOutPath</key><string>");
    reveal_strlit("<array><string>");
    reveal_strlit("</string><string>--headless</string></array>");
    let head = "<?xml version=\"1.0\" encoding=\"UTF-8\"?>\n<!DOCTYPE plist PUBLIC \"-//Apple//DTD PLIST 1.0//EN\" \"http://www.apple.com/DTDs/PropertyList-1.0.dtd\">\n<plist version=\"1.0\"><dict>\n  <key>Label</key><string>"@;
    let m1 = "</string>\n  <key>ProgramArguments</key><array><string>"@;
    let m2 = "</string><string>--headless</string></array>\n  <key>RunAtLoad</key><true/>\n  <key>KeepAlive</key><true/>\n  <key>StandardOutPath</key><string>"@;
    let m3 = "</string>\n  <key>StandardErrorPath</key><string>"@;
    let m4 = "</string>\n</dict></plist>\n"@;
    let label = "dev.remote-access.host"@;
    let line = "<array><string>"@ + exe + "</string><string>--headless</string></array>"@;
    let before = m1.take(m1.len() - 15);
    let behind = m2.skip(44);
    assert(m1 =~= before + "<array><string>"@);
    assert(m2 =~= "</string><string>--headless</string></array>"@ + behind);
    let a = head + label + before;
    let b = behind + log + m3 + log + m4;
    parts_are_found(a, line, b, line);
    assert(plist_words(exe, log) =~= a + line + b);
}

proof fn lemma_plist_logs(exe: Seq<char>, log: Seq<char>)
    ensures
        has_part(plist_words(exe, log), "<key>StandardOutPath</key><string>"@ + log + "</string>"@),
        has_part(plist_words(exe, log), "<key>StandardErrorPath</key><string>"@ + log + "</string>"@),
{
    reveal_strlit("</string><string>--headless</string></array>\n  <key>RunAtLoad</key><true/>\n  <key>KeepAlive</key><true/>\n  <key>StandardOutPath</key><string>");
    reveal_strlit("</string>\n  <key>StandardErrorPath</key><string>");
    reveal_strlit("</string>\n</dict></plist>\n");
    reveal_strlit("<key>StandardOutPath</key><string>");
    reveal_strlit("<key>StandardErrorPath</key><string>");
    reveal_strlit("</string>");
    let head = "<?xml version=\"1.0\" encoding=\"UTF-8\"?>\n<!DOCTYPE plist PUBLIC \"-//Apple//DTD PLIST 1.0//EN\" \"http://www.apple.com/DTDs/PropertyList-1.0.dtd\">\n<plist version=\"1.0\"><dict>\n  <key>Label</key><string>"@;
    let m1 = "</string>\n  <key>ProgramArguments</key><array><string>"@;
    let m2 = "</string><string>--headless</string></array>\n  <key>RunAtLoad</key><true/>\n  <key>KeepAlive</key><true/>\n  <key>StandardOutPath</key><string>"@;
    let m3 = "</string>\n  <key>StandardErrorPath</key><string>"@;
    let m4 = "</string>\n</dict></plist>\n"@;
    let label = "dev.remote-access.host"@;
    let start = head + label + m1 + exe;
    let out = "<key>StandardOutPath</key><string>"@ + log + "</string>"@;
    let a2 = m2.take(m2.len() - 34);
    let b3 = m3.skip(9);
    assert(m2 =~= a2 + "<key>StandardOutPath</key><string>"@);
    assert(m3 =~= "</string>"@ + b3);
    parts_are_found(start + a2, out, b3 + log + m4, out);
    assert(plist_words(exe, log) =~= (start + a2) + out + (b3 + log + m4));
    let err = "<key>StandardErrorPath</key><string>"@ + log + "</string>"@;
    let a3 = m3.take(m3.len() - 36);
    let b4 = m4.skip(9);
    assert(m3 =~= a3 + "<key>StandardErrorPath</key><string>"@);
    assert(m4 =~= "</string>"@ + b4);
    parts_are_found(start + m2 + log + a3, err, b4, err);
    assert(plist_words(exe, log) =~= (start + m2 + log + a3) + err + b4);
}

/// What is installed is what is removed again: the same file, unit or registry value.
/// Only the command that turns the service on must succeed.
pub proof fn what_is_installed_is_removed(file: Seq<char>, exe: Seq<char>)
    ensures
        ({
            let on = install_commands(Platform::Macos, file, exe);
            let off = uninstall_commands(Platform::Macos, file);
            &&& on.len() == 2 && off.len() == 1
            &&& on[0].program == "launchctl"@ && on[0].args == seq!["unload"@, file]
            &&& on[0].failure is None
            &&& on[1].program == "launchctl"@ && on[1].args == seq!["load"@, "-w"@, file]
            &&& on[1].failure == Some("launchctl load failed: "@)
            &&& off[0].program == "launchctl"@ && off[0].failure is None
            &&& off[0].args == on[1].args.update(0, "unload"@)
        }),
        ({
            let on = install_commands(Platform::Linux, file, exe);
            let off = uninstall_commands(Platform::Linux, file);
            &&& on.len() == 2 && off.len() == 1
            &&& on[0].program == "systemctl"@ && on[0].args == seq!["--user"@, "daemon-reload"@]
            &&& on[0].failure is None
            &&& on[1].program == "systemctl"@ && on[1].args == seq![
                "--user"@,
                "enable"@,
                "--now"@,
                "dev.remote-access.host.service"@,
            ]
            &&& on[1].failure == Some("systemctl enable failed: "@)
            &&& off[0].program == "systemctl"@ && off[0].failure is None
            &&& off[0].args == on[1].args.update(1, "disable"@)
        }),
        ({
            let on = install_commands(Platform::Windows, file, exe);
            let off = uninstall_commands(Platform::Windows, file);
            let key = "HKCU\\Software\\Microsoft\\Windows\\CurrentVersion\\Run"@;
            let value = "dev.remote-access.host"@;
            &&& on.len() == 1 && off.len() == 1
            &&& on[0].program == "reg"@ && off[0].program == "reg"@
            &&& on[0].args == seq!["add"@, key, "/v"@, value, "/t"@, "REG_SZ"@, "/d"@] + seq![
                "\""@ + exe + "\" --headless"@,
                "/f"@,
            ]
            &&& on[0].failure == Some("reg add failed: "@)
            &&& off[0].args == seq!["delete"@, key, "/v"@, value, "/f"@]
            &&& off[0].failure is None
        }),
        install_commands(Platform::Other, file, exe).len() == 0,
        uninstall_commands(Platform::Other, file).len() == 0,
{
    reveal_strlit("dev.remote-access.host");
    reveal_strlit(".service");
    reveal_strlit("dev.remote-access.host.service");
    assert("dev.remote-access.host"@ + ".service"@ =~= "dev.remote-access.host.service"@);
    let key = "HKCU\\Software\\Microsoft\\Windows\\CurrentVersion\\Run"@;
    let value = "dev.remote-access.host"@;
    assert(install_commands(Platform::Windows, file, exe)[0].args =~= seq![
        "add"@,
        key,
        "/v"@,
        value,
        "/t"@,
        "REG_SZ"@,
        "/d"@,
    ] + seq!["\""@ + exe + "\" --headless"@, "/f"@]);
    assert(uninstall_commands(Platform::Macos, file)[0].args =~= install_commands(
        Platform::Macos,
        file,
        exe,
    )[1].args.update(0, "unload"@));
    assert(uninstall_commands(Platform::Linux, file)[0].args =~= install_commands(
        Platform::Linux,
        file,
        exe,
    )[1].args.update(1, "disable"@));
}

/// A stream is looked at twice a second, and an agent that failed is started again
/// after ten seconds; one agent at a time holds the port that stands for the lock.
pub proof fn streams_and_agents_are_looked_after()
    ensures
        2 * STREAM_LOOK_MILLIS == 1000,
        RESTART_SECS == 10,
        LOCK_PORT == 21116,
{
}

} // verus!
