use remote_access::autostart::{install, is_installed, service_file, uninstall, LABEL};
use remote_access::client_config::{ClientConfig, RememberedHost};
use remote_access::desk::{
    probe_line, recent_hosts, restarts_on_change, share_button, status_line, watch_stream, Desk,
    DeskAction, HostProfile, Msg, Prepared, ShareButton, StatusColour, StreamLook, StreamWatch,
};
use remote_access::fakehost::{authed, login_ok, random_uuid, serverinfo, xml_err};
use remote_access::host_config::Config;
use remote_access::moonlight::Platform;
use remote_access::proto::password_h1;
use remote_access::session::Event;
use remote_access::setup::{
    probe_result, probe_url, start_url, AgentRunner, AgentState, ApolloProbe, EndAction,
    StartAction, WebUiAnswer, Wizard,
};

fn desk() -> Desk {
    Desk::new(&ClientConfig::with_defaults(None, None), None, false)
}

fn prepared() -> Prepared {
    Prepared {
        id: "123456789".into(),
        name: "PC".into(),
        host: "h:1".into(),
        app: "Steam".into(),
        apps: vec!["Desktop".into(), "Steam".into()],
    }
}

#[test]
fn the_window_opens_with_the_last_host() {
    let mut cfg = ClientConfig::with_defaults(Some("rv".into()), None);
    assert_eq!(desk().remote_app, "Desktop");
    for id in ["200000000", "300000000", "100000000"] {
        let mut h = RememberedHost::default();
        h.last_app = Some(format!("app {id}"));
        cfg.set_host(id, h);
    }
    let d = Desk::new(&cfg, None, true);
    assert_eq!(d.remote_id, "300000000");
    assert_eq!(d.remote_app, "app 300000000");
    assert_eq!(d.settings_rendezvous, "rv");
    assert!(d.autostart && d.remember && !d.busy);
    let cards = recent_hosts(&cfg);
    assert_eq!(cards.len(), 3);
    assert_eq!(cards[0].title, "unnamed host");
    assert_eq!(cards[0].shown_id, "100 000 000");
    assert_eq!(cards[0].label, "app 100000000");
    cfg.set_host("1", RememberedHost { password_h1: Some("h".into()), ..RememberedHost::default() });
    assert_eq!(recent_hosts(&cfg)[0].label, "Desktop · password saved");
}

#[test]
fn the_log_is_cut() {
    let mut d = desk();
    for i in 0..200 {
        d.push_log(format!("{i}"));
    }
    assert_eq!(d.log.len(), 200);
    d.push_log("last".into());
    assert_eq!(d.log.len(), 101);
    assert_eq!(d.log[0], "100");
    assert_eq!(d.log[100], "last");
}

#[test]
fn connecting_and_streaming() {
    let mut d = desk();
    d.remote_id = "12".into();
    assert!(d.start_connect().is_none());
    assert_eq!(d.log, ["✗ '12' is not a valid 9-digit ID"]);
    d.remote_id = "123 456 789".into();
    d.remote_password = "pw".into();
    d.remote_app = "  ".into();
    let job = d.start_connect().unwrap();
    assert_eq!(job.id, "123456789");
    assert_eq!(job.password.as_deref(), Some("pw"));
    assert_eq!(job.app, None);
    assert!(d.busy && d.log.is_empty());
    assert!(!d.can_connect(true));
    assert!(matches!(d.on_msg(Msg::Prepared(prepared())), DeskAction::Stream(p) if p.host == "h:1"));
    assert_eq!(d.remote_password, "");
    assert_eq!(d.remote_app, "Steam");
    d.on_stream_started(prepared());
    assert_eq!(d.log, ["▶ streaming \"Steam\" from h:1"]);
    assert!(d.streaming && d.current.is_some());
    let job = d.switch_app("123456789", "Desktop").unwrap();
    assert_eq!(job.app.as_deref(), Some("Desktop"));
    assert_eq!(job.password, None);
    d.on_stream_failed("no");
    assert_eq!(d.log, ["✗ no"]);
    assert!(!d.busy);
    d.on_msg(Msg::StreamEnded("over".into()));
    d.disconnect();
    assert_eq!(d.log, ["✗ no", "over", "■ disconnected"]);
    d.pick_recent("1", None);
    assert_eq!(d.remote_id, "1");
    assert_eq!(d.remote_app, "Desktop");
}

#[test]
fn errors_ask_for_a_password() {
    let mut d = desk();
    d.busy = true;
    assert_eq!(d.password_hint(), "only needed the first time");
    d.on_msg(Msg::Error("pair: wrong password".into()));
    assert!(d.need_password && !d.busy);
    assert_eq!(d.password_hint(), "required");
    d.on_msg(Msg::Error("password required".into()));
    d.on_msg(Msg::Error("boom".into()));
    d.on_msg(Msg::Log("x".into()));
    d.on_msg(Msg::Event(Event::Paired));
    d.on_msg(Msg::PasswordChanged(Err("e".into())));
    d.on_msg(Msg::PasswordChanged(Ok(())));
    assert_eq!(
        d.log,
        [
            "✗ wrong password",
            "this host needs a password — enter it and press Connect again",
            "✗ boom",
            "x",
            "✓ paired",
            "✗ saved locally, but the rendezvous server could not be updated: e"
        ]
    );
    d.on_msg(Msg::HostOnline(Some(true)));
    assert_eq!(d.host_online, Some(true));
}

#[test]
fn the_wizard_is_filled_in() {
    let mut w = Wizard::new("rv".into(), Some("mac.local.local".into()), "secret".into());
    assert_eq!(w.host_name, "mac");
    assert!(!w.ready() && !w.can_test_login());
    w.apollo_username = "u".into();
    assert!(w.ready() && w.can_test_login());
    w.access_password = "12345".into();
    assert!(!w.ready());
    w.access_password = "123456".into();
    w.host_name = format!("  {}  ", "x".repeat(70));
    let c = w.host_config(None);
    assert_eq!(c.name, "x".repeat(64));
    assert_eq!(c.password_h1.unwrap(), password_h1("123456", &c.password_salt));
    w.host_name = " ".into();
    assert_eq!(w.host_config(Some("pc".into())).name, "pc");
    assert_eq!(Wizard::new("rv".into(), None, "p".into()).host_name, "My PC");
    assert!(w.login_line().is_none());

    let mut d = desk();
    d.wizard = Some(w);
    d.on_msg(Msg::Probe(ApolloProbe::Found { first_run: true }));
    assert_eq!(d.wizard.as_ref().unwrap().probe, ApolloProbe::Found { first_run: true });
    d.wizard.as_mut().unwrap().host_name = "".into();
    d.on_msg(Msg::Creds(Ok("apollo".into())));
    let w = d.wizard.as_ref().unwrap();
    assert_eq!(w.host_name, "apollo");
    assert_eq!(w.login_line().unwrap().1, "✓ logged in to apollo");
    d.on_msg(Msg::Creds(Err("bad".into())));
    assert_eq!(d.wizard.as_ref().unwrap().login_line().unwrap(), (false, "✗ bad".to_string()));
    d.on_msg(Msg::SetupDone(Err("no server".into())));
    assert_eq!(d.wizard.as_ref().unwrap().error.as_deref(), Some("no server"));
    assert!(matches!(d.on_msg(Msg::SetupDone(Ok("123456789".into()))), DeskAction::StartHost));
    assert!(d.wizard.is_none());
    assert_eq!(d.log, ["✓ this PC is now reachable as 123 456 789"]);
    assert!(d.wizard_probe().is_none());
    assert!(d.wizard_test_creds().is_none());
    assert!(d.wizard_finish().is_none());
    let mut w = Wizard::new("rv".into(), None, "pw".into());
    w.apollo_username = "u".into();
    w.error = Some("e".into());
    d.wizard = Some(w);
    assert_eq!(d.wizard_probe().as_deref(), Some("https://127.0.0.1:47990"));
    assert_eq!(d.wizard.as_ref().unwrap().probe, ApolloProbe::Checking);
    assert_eq!(d.wizard_test_creds().unwrap().1, "u");
    assert!(d.wizard.as_ref().unwrap().busy);
    assert_eq!(d.wizard_finish().unwrap().error, None);
    d.settings_rendezvous = " http://x ".into();
    assert_eq!(d.save_settings(), "http://x");
    assert_eq!(d.log.last().unwrap(), "✓ settings saved");
    let again = Wizard::for_config(&c_with_name("n"), "pw".into());
    assert_eq!(again.host_name, "n");
}

fn c_with_name(name: &str) -> Config {
    Config::new_default("rv".into(), "u".into(), "p".into(), Some(name.into()))
}

#[test]
fn apollo_is_probed() {
    assert_eq!(probe_url("https://h//"), "https://h/api/configLocale");
    assert_eq!(start_url("https://h"), "https://h/");
    let found = |p: Option<&str>| {
        probe_result(WebUiAnswer::Answered { start_path: p.map(|s| s.to_string()) })
    };
    assert_eq!(found(Some("/welcome")), ApolloProbe::Found { first_run: true });
    assert_eq!(found(Some("/")), ApolloProbe::Found { first_run: false });
    assert_eq!(found(None), ApolloProbe::Found { first_run: false });
    let line = |a| probe_line(&probe_result(a)).unwrap();
    assert_eq!(
        line(WebUiAnswer::Status("500".into())),
        (StatusColour::Red, "✗ web UI answered 500".to_string())
    );
    assert_eq!(
        line(WebUiAnswer::NoConnection).1,
        "✗ nothing is listening; is Apollo installed and running?"
    );
    assert_eq!(line(WebUiAnswer::Failed("e".into())).1, "✗ e");
    assert!(probe_line(&ApolloProbe::Unknown).is_none());
}

#[test]
fn the_agent_is_run() {
    let mut r = AgentRunner::new();
    assert_eq!(r.state(), AgentState::Stopped);
    assert_eq!(r.start(None), StartAction::Nothing);
    assert_eq!(r.state(), AgentState::NotConfigured);
    let mut c = c_with_name("n");
    assert_eq!(r.start(Some(&c)), StartAction::Nothing);
    assert_eq!(r.state(), AgentState::Failed("no access password set".into()));
    c.set_password("123456");
    assert_eq!(r.start(Some(&c)), StartAction::TakeLock);
    assert_eq!(r.on_lock(false), StartAction::Nothing);
    assert_eq!(r.state(), AgentState::RunningElsewhere);
    assert_eq!(r.start(Some(&c)), StartAction::TakeLock);
    assert_eq!(r.on_lock(true), StartAction::Spawn);
    assert_eq!(r.start(Some(&c)), StartAction::Nothing);
    assert_eq!(r.on_end(Err("e".into())), EndAction::RestartAfter(10));
    assert_eq!(r.state(), AgentState::Failed("e".into()));
    r.on_restart();
    assert_eq!(r.state(), AgentState::Running);
    assert_eq!(r.on_end(Ok(())), EndAction::Leave);
    assert_eq!(r.restart(Some(&c)), StartAction::TakeLock);
    assert_eq!(r.state(), AgentState::Stopped);
}

#[test]
fn states_have_lines_and_buttons() {
    let line = |s: AgentState, o| status_line(&s, o);
    assert_eq!(line(AgentState::Running, Some(true)), (StatusColour::Green, "Online".to_string()));
    assert_eq!(line(AgentState::Running, Some(false)).1, "registering…");
    assert_eq!(line(AgentState::Running, None).0, StatusColour::Gold);
    assert_eq!(line(AgentState::Stopped, Some(true)).1, "Online (background service)");
    assert_eq!(line(AgentState::Stopped, None).1, "Stopped");
    assert_eq!(line(AgentState::Failed("e".into()), None).1, "agent error: e");
    assert_eq!(line(AgentState::NotConfigured, None).0, StatusColour::Gray);
    assert_eq!(share_button(&AgentState::Running), ShareButton::Stop);
    assert_eq!(share_button(&AgentState::Failed("".into())), ShareButton::Start);
    assert_eq!(share_button(&AgentState::RunningElsewhere), ShareButton::Absent);
    assert!(restarts_on_change(&AgentState::Running));
    assert!(!restarts_on_change(&AgentState::Stopped));
}

#[test]
fn the_host_is_watched_and_changed() {
    let mut c = c_with_name("n");
    c.rendezvous_url = "http://rv/".into();
    c.id = Some("123456789".into());
    let p = HostProfile { config: c, password_display: None, autostart_agent: true };
    let mut d = Desk::new(&ClientConfig::with_defaults(None, None), Some(p), false);
    assert_eq!(d.poll_host_online(5).as_deref(), Some("http://rv/v1/hosts/123456789"));
    assert_eq!(d.poll_host_online(10_004), None);
    assert!(d.poll_host_online(10_005).is_some());
    assert_eq!(d.host_password_line().as_deref(), Some("custom (hidden)"));
    let n = d.with_password("abcdef", true).unwrap();
    assert_eq!(n.config.password_h1.clone().unwrap(), password_h1("abcdef", &n.config.password_salt));
    d.on_profile_saved(n, Ok(()), "✓ access password changed".into());
    assert_eq!(d.host_password_line().as_deref(), Some("abcdef"));
    d.show_host_password = false;
    assert_eq!(d.host_password_line().as_deref(), Some("••••••••"));
    let n = d.with_password("ghijkl", false).unwrap();
    d.on_profile_saved(n, Err("disk".into()), "".into());
    assert_eq!(d.log, ["✓ access password changed", "✗ disk"]);
    assert_eq!(d.on_autostart(true, Ok(())), Some(false));
    assert_eq!(d.on_autostart(false, Ok(())), Some(true));
    assert_eq!(d.on_autostart(true, Err("e".into())), None);
    assert!(!d.autostart);
    assert!(desk().with_password("abcdef", true).is_none());
    assert!(desk().poll_host_online(0).is_none());
}

#[test]
fn the_service_is_described() {
    assert_eq!(
        service_file(Platform::Linux, Some("/h"), None).unwrap().unwrap(),
        format!("/h/.config/systemd/user/{LABEL}.service")
    );
    assert_eq!(
        service_file(Platform::Linux, Some("/h"), Some("/x")).unwrap().unwrap(),
        format!("/x/systemd/user/{LABEL}.service")
    );
    assert_eq!(
        service_file(Platform::Macos, Some("/h"), None).unwrap().unwrap(),
        format!("/h/Library/LaunchAgents/{LABEL}.plist")
    );
    assert_eq!(service_file(Platform::Macos, None, None).unwrap_err(), "HOME not set");
    assert_eq!(service_file(Platform::Linux, None, None).unwrap_err(), "no config dir");
    let plan = install(Platform::Linux, "/bin/ra", "/log", Some("/h"), None).unwrap();
    assert_eq!(plan.file.unwrap().1, "[Unit]\nDescription=remote-access host agent\nAfter=network-online.target\n\n[Service]\nExecStart=/bin/ra --headless\nRestart=always\nRestartSec=5\n\n[Install]\nWantedBy=default.target\n");
    assert_eq!(plan.commands.len(), 2);
    assert!(plan.commands[0].failure.is_none());
    assert_eq!(plan.commands[1].args[1], "enable");
    let plan = install(Platform::Macos, "/bin/ra", "/log", Some("/h"), None).unwrap();
    assert!(plan.file.unwrap().1.contains("<string>/bin/ra</string><string>--headless</string>"));
    let plan = install(Platform::Windows, "C:\\ra", "", None, None).unwrap();
    assert!(plan.file.is_none());
    assert_eq!(plan.commands[0].args[7], "\"C:\\ra\" --headless");
    assert!(install(Platform::Other, "", "", None, None).is_err());
    assert!(is_installed(Platform::Linux, true));
    assert!(!is_installed(Platform::Linux, false));
    assert!(!is_installed(Platform::Other, true));
    let plan = uninstall(Platform::Macos, Some("/h"), None).unwrap();
    assert!(plan.only_with_file);
    assert!(uninstall(Platform::Other, None, None).unwrap().commands.is_empty());
}

#[test]
fn the_stand_in_answers() {
    assert_eq!(xml_err(503, "x"), "<root status_code=\"503\" status_message=\"x\"/>");
    let info = |https, q| serverinfo("n", "u", 47989, https, q);
    assert!(info(true, Some("uniqueid=1")).contains("<PairStatus>1<"));
    assert!(info(true, Some("x=1")).contains("<PairStatus>0<"));
    assert!(info(false, Some("uniqueid=1")).contains("<PairStatus>0<"));
    assert!(info(false, None).contains("<HttpsPort>47984</HttpsPort>"));
    assert!(authed(Some("a; auth=fake-session")));
    assert!(!authed(None));
    assert!(login_ok(Some("a"), Some("b"), "a", "b"));
    assert!(!login_ok(Some("a"), None, "a", "b"));
    let uuid = random_uuid();
    assert_eq!(uuid.len(), 36);
    for (i, c) in uuid.chars().enumerate() {
        match i {
            8 | 13 | 18 | 23 => assert_eq!(c, '-'),
            14 => assert_eq!(c, '4'),
            19 => assert!("89ab".contains(c)),
            _ => assert!("0123456789abcdef".contains(c)),
        }
    }
    assert_ne!(random_uuid(), random_uuid());
}

#[test]
fn streams_are_watched() {
    assert!(matches!(watch_stream(StreamLook::Gone), StreamWatch::Stop));
    assert!(matches!(watch_stream(StreamLook::Running), StreamWatch::LookAgain));
    let line = |look| match watch_stream(look) {
        StreamWatch::Report(s) => s,
        other => panic!("{other:?}"),
    };
    assert_eq!(line(StreamLook::Exited("exit status: 1".into())), "stream ended (exit status: 1)");
    assert_eq!(line(StreamLook::Failed("no child".into())), "wait failed: no child");
}
