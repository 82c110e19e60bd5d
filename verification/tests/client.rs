use remote_access::agent::pretty_id;
use remote_access::client_config::{ClientConfig, RememberedHost};
use remote_access::connect::{ConnectAction, ConnectEvent, ConnectRun};
use remote_access::http::HostAddr;
use remote_access::moonlight::{
    find_moonlight, moonlight_candidates, Moonlight, Platform,
};
use remote_access::proto::{
    challenge_response, password_h1, ChallengeResponse, Endpoint, HostInfo, PairResult, PairSecret,
    PairStatus,
};
use remote_access::serverinfo::ServerInfo;
use remote_access::session::{
    eq_ignore_ascii_case, pick_app, rank, AppChoice, Event, H1Source, PairWatch, Probe, Resolved,
    Session, WatchAction,
};

const SEC: u64 = 1_000_000_000;

fn session() -> Session {
    Session::new(ClientConfig::with_defaults(Some("http://rv".into()), Some("laptop".into())))
}

fn endpoint(host: &str, kind: &str) -> Endpoint {
    Endpoint { host: host.into(), port: 47989, kind: kind.into() }
}

fn info(endpoints: Vec<Endpoint>) -> HostInfo {
    HostInfo {
        id: "123456789".into(),
        name: "PC".into(),
        platform: "windows".into(),
        online: true,
        endpoints,
        password_salt: "s".into(),
        last_seen_secs: 1,
    }
}

#[test]
fn ids_are_normalized() {
    assert_eq!(Session::normalize_id("123 456-789").unwrap(), "123456789");
    assert_eq!(Session::normalize_id(&pretty_id("987654321")).unwrap(), "987654321");
    assert_eq!(
        Session::normalize_id("12").unwrap_err(),
        "'12' is not a valid 9-digit ID"
    );
    assert!(Session::normalize_id("012345678").is_err());
    assert_eq!(Session::not_registered("1"), "ID 1 is not registered");
}

#[test]
fn the_best_endpoint_is_taken() {
    assert_eq!(["lan", "vpn", "manual", "public", "x"].map(rank), [0, 1, 2, 3, 4]);
    let eps = vec![
        endpoint("a", "public"),
        endpoint("b", "lan"),
        endpoint("c", "vpn"),
        endpoint("d", "lan"),
        endpoint("e", "?"),
    ];
    let order = Session::probe_order(&info(eps), "1").unwrap();
    assert_eq!(order.iter().map(|e| e.host.as_str()).collect::<Vec<_>>(), ["b", "d", "c", "a", "e"]);
    assert_eq!(
        Session::probe_order(&info(vec![]), "1").unwrap_err(),
        "host 1 advertises no endpoints"
    );
    let probe = |e: &Endpoint, up: bool| Probe {
        endpoint: e.clone(),
        server_info: if up { Some(ServerInfo::default()) } else { None },
    };
    let probes = vec![probe(&order[3], true), probe(&order[0], false), probe(&order[1], true)];
    let r = Session::resolved(info(vec![]), "1", probes).unwrap();
    assert_eq!(r.endpoint.host, "d");
    assert_eq!(r.addr.http_port, 47989);
    assert_eq!(r.addr.https_port, 47984);
    assert_eq!(r.moonlight_host(), "d:47989");
    let e = Session::resolved(info(order), "1", vec![]).unwrap_err();
    assert_eq!(e, "host PC (1) is online but none of its 5 endpoint(s) answered on the GameStream port. Over the internet this needs a VPN (Tailscale, WireGuard) or port forwarding of TCP/UDP 47984-48010.");
    let v6 = Resolved {
        info: info(vec![]),
        addr: HostAddr::new("::1", 5),
        endpoint: endpoint("::1", "lan"),
        server_info: ServerInfo::default(),
    };
    assert_eq!(v6.moonlight_host(), "[::1]:5");
}

#[test]
fn pair_requests_prove_the_password() {
    let s = session();
    let ch = ChallengeResponse { request_id: "r".into(), challenge: "c".into(), ttl_secs: 120 };
    let h1 = password_h1("pw", "salt");
    let (req, pin) = s.pair_request(&h1, &ch, "uid", true).unwrap();
    assert_eq!(req.request_id, "r");
    assert_eq!(req.device_name, "laptop");
    assert_eq!(req.client_uid.as_deref(), Some("uid"));
    assert_eq!(req.response, challenge_response(&h1, "c"));
    assert_eq!(PairSecret::derive(&h1, "c").open_pin(&req.sealed_pin).unwrap(), pin);
    assert!(s.pair_request_with(&h1, &ch, "uid", true, "12").is_err());
    assert!(Session::submitted(202, None).is_ok());
    assert_eq!(Session::submitted(500, None).unwrap_err(), "pair request refused: unknown");
    assert_eq!(Session::submitted(404, Some("no")).unwrap_err(), "pair request refused: no");
}

#[test]
fn the_watch_ends() {
    let result = |status, message: Option<&str>| PairResult {
        request_id: "r".into(),
        status,
        message: message.map(|m| m.to_string()),
    };
    let mut w = PairWatch::new("0042".into(), 0);
    assert!(w.presenting());
    assert!(matches!(w.on_polled(Ok(None), 150 * SEC), WatchAction::PollAgain));
    let end = |a: WatchAction| match a {
        WatchAction::Finish(e) => e,
        other => panic!("{other:?}"),
    };
    assert_eq!(
        end(w.on_polled(Ok(None), 150 * SEC + 1)).result.unwrap_err(),
        "timed out waiting for the host to answer"
    );
    w.on_presented(Err("local".into()));
    assert!(!w.presenting());
    let e = end(w.on_polled(Ok(Some(result(PairStatus::Paired, None))), 0));
    assert!(e.paired);
    assert_eq!(e.result.as_deref(), Ok("0042"));
    assert_eq!(e.warning.as_deref(), Some("local"));
    let e = end(w.on_polled(Ok(Some(result(PairStatus::Rejected, Some("x")))), 0));
    assert_eq!(e.result.unwrap_err(), "wrong password");
    let e = end(w.on_polled(Ok(Some(result(PairStatus::Accepted, None))), 0));
    assert!(!e.paired);
    assert_eq!(e.result.as_deref(), Ok("0042"));
    let e = end(w.on_polled(Ok(Some(result(PairStatus::Failed, Some("x")))), 0));
    assert_eq!(e.result.unwrap_err(), "host failed to pair: x");
    let e = end(w.on_polled(Ok(Some(result(PairStatus::Failed, None))), 0));
    assert_eq!(e.result.unwrap_err(), "host failed to pair: ");
    assert_eq!(end(w.on_polled(Err("down".into()), 0)).result.unwrap_err(), "down");
}

#[test]
fn passwords_are_remembered() {
    let mut s = session();
    assert!(matches!(s.h1_for("1", "salt", None), H1Source::Ask));
    assert!(matches!(s.h1_for("1", "salt", Some("pw")), H1Source::Known(h) if h == password_h1("pw", "salt")));
    s.remember_password("1", "hash", "salt");
    assert!(matches!(s.h1_for("1", "salt", None), H1Source::Known(h) if h == "hash"));
    assert!(matches!(s.h1_for("1", "other", None), H1Source::Ask));
    assert!(matches!(s.choose_app("1", None), AppChoice::FromList));
    s.note_session("1", "PC", "h:1", "Steam");
    assert!(matches!(s.choose_app("1", None), AppChoice::App(a) if a == "Steam"));
    assert!(matches!(s.choose_app("1", Some("X".into())), AppChoice::App(a) if a == "X"));
    let h = s.cfg.host("1");
    assert_eq!(h.name, "PC");
    assert_eq!(h.last_endpoint.as_deref(), Some("h:1"));
    assert_eq!(h.password_h1.as_deref(), Some("hash"));
    assert_eq!(
        s.native_cert("1").unwrap_err(),
        "not natively paired with 1; run `ra pair 1 --native`"
    );
    s.note_native_pairing("1", "PC2", "pem", "h2", "s2");
    assert_eq!(s.native_cert("1").unwrap(), "pem");
    assert_eq!(s.cfg.host("1").last_app.as_deref(), Some("Steam"));
    s.cfg.stream_args = vec!["--a".into()];
    assert_eq!(s.stream_args(&vec!["--b".into()]), ["--a", "--b"]);
    assert_eq!(s.rv("/hosts/1"), "http://rv/v1/hosts/1");
}

#[test]
fn apps_are_picked() {
    let apps = |v: &[&str]| v.iter().map(|s| s.to_string()).collect::<Vec<String>>();
    assert_eq!(pick_app(&apps(&["Steam", "DESKTOP", "desktop"])), "DESKTOP");
    assert_eq!(pick_app(&apps(&["Steam", "X"])), "Steam");
    assert_eq!(pick_app(&apps(&[])), "Desktop");
    assert!(eq_ignore_ascii_case("aZ", "Az"));
    assert!(!eq_ignore_ascii_case("é", "É"));
    assert!(!eq_ignore_ascii_case("[", "{"));
}

#[test]
fn settings_and_their_hosts() {
    let mut c = ClientConfig::with_defaults(None, None);
    assert_eq!(c.rendezvous_url, "http://127.0.0.1:21114");
    assert_eq!(c.device_name, "remote-access client");
    assert_eq!(ClientConfig::default_path("/d", '/'), "/d/client.toml");
    assert_eq!(ClientConfig::default_path("/d/", '/'), "/d/client.toml");
    let on_windows = |d| ClientConfig::default_path(d, '\\');
    assert_eq!(on_windows("C:\\d"), "C:\\d\\client.toml");
    assert_eq!(on_windows("C:\\d\\"), "C:\\d\\client.toml");
    assert_eq!(on_windows("C:/d/"), "C:/d/client.toml");
    assert_eq!(on_windows("C:"), "C:client.toml");
    assert_eq!(on_windows(""), "client.toml");
    assert_eq!(ClientConfig::default_path("C:", '/'), "C:/client.toml");
    for id in ["300", "100", "200", "1000"] {
        c.set_host(id, RememberedHost::default());
    }
    assert_eq!(c.host_ids(), ["100", "1000", "200", "300"]);
    c.forget("200");
    assert_eq!(c.host_ids(), ["100", "1000", "300"]);
}

#[test]
fn events_have_lines() {
    assert_eq!(Event::Resolving("123456789".into()).cli_line(), "→ looking up 123456789");
    assert_eq!(Event::Resolving("123456789".into()).desk_line(), "→ looking up 123 456 789");
    assert_eq!(Event::Probing(endpoint("h", "lan")).cli_line(), "  probing h:47989 (lan)");
    assert_eq!(Event::Reachable(endpoint("h", "lan")).desk_line(), "✓ reachable at h:47989 (lan)");
    assert_eq!(Event::Streaming("A".into()).cli_line(), "→ streaming \"A\"");
    assert_eq!(Event::Streaming("A".into()).desk_line(), "→ streaming A");
    assert_eq!(Event::Paired.cli_line(), "✓ paired");
    assert_eq!(Event::PairAccepted.cli_line(), "✓ host accepted password");
}

#[test]
fn moonlight_is_found_and_driven() {
    let dirs = vec!["/x".to_string(), "/y/".to_string()];
    let c = moonlight_candidates(Platform::Linux, Some("/cfg"), Some("/env"), &dirs, '/');
    assert_eq!(c.len(), 2 + 4 + 6);
    assert_eq!(c[0].path, "/cfg");
    assert_eq!(c[1].path, "/env");
    assert_eq!(c[2].path, "/usr/bin/moonlight-qt");
    assert_eq!(c[6].path, "/x/moonlight");
    assert!(c[6].plain_file && !c[5].plain_file);
    assert_eq!(c[11].path, "/y/Moonlight.exe");
    let mut present = vec![false; c.len()];
    assert_eq!(find_moonlight(&c, &present), None);
    present[7] = true;
    present[9] = true;
    assert_eq!(find_moonlight(&c, &present).as_deref(), Some("/x/moonlight-qt"));
    assert_eq!(moonlight_candidates(Platform::Macos, None, None, &vec![], '/').len(), 3);
    assert_eq!(moonlight_candidates(Platform::Windows, None, None, &vec![], '\\').len(), 2);
    let m = Moonlight::new("/bin/m".into());
    assert_eq!(m.path(), "/bin/m");
    assert_eq!(Moonlight::list_args("h"), ["list", "h"]);
    assert_eq!(Moonlight::pair_args("h", "1"), ["pair", "h", "--pin", "1"]);
    assert_eq!(Moonlight::stream_args("h", "a", &vec!["-x".into()]), ["stream", "h", "a", "-x"]);
    assert_eq!(Moonlight::quit_args("h"), ["quit", "h"]);
    assert_eq!(
        Moonlight::list_result(true, " a\r\n\n\tb\nc", "").unwrap(),
        ["a", "b", "c"]
    );
    assert_eq!(
        Moonlight::list_result(false, "a", " bad\n").unwrap_err(),
        "moonlight list failed: bad"
    );
}

fn connect(app: Option<&str>, password: Option<&str>, remember: bool) -> ConnectRun {
    let (run, first) = ConnectRun::new(
        "123456789".into(),
        password.map(String::from),
        app.map(String::from),
        remember,
        vec!["--x".into()],
        true,
    )
    .unwrap();
    assert!(matches!(first, ConnectAction::Resolve));
    run
}

fn resolved() -> ConnectEvent {
    ConnectEvent::Resolved(Ok(Resolved {
        info: info(vec![]),
        addr: HostAddr::new("h", 47989),
        endpoint: endpoint("h", "lan"),
        server_info: ServerInfo::default(),
    }))
}

#[test]
fn connections_to_paired_hosts() {
    let mut s = session();
    let mut run = connect(None, None, false);
    let (a, _) = run.step(&mut s, resolved());
    assert!(matches!(a, ConnectAction::ListApps(h) if h == "h:47989"));
    let apps = vec!["Steam".to_string(), "desktop".to_string()];
    let (a, e) = run.step(&mut s, ConnectEvent::Listed(Ok(apps)));
    match a {
        ConnectAction::Stream { host, app, args } => {
            assert_eq!((host.as_str(), app.as_str()), ("h:47989", "desktop"));
            assert_eq!(args, ["--x"]);
        }
        other => panic!("{other:?}"),
    }
    assert!(matches!(e, Some(Event::AlreadyPaired)));
    let h = s.cfg.host("123456789");
    assert_eq!(h.name, "PC");
    assert_eq!(h.last_app.as_deref(), Some("desktop"));
    assert!(h.password_h1.is_none());
}

#[test]
fn connections_that_pair_first() {
    let mut s = session();
    let mut run = connect(None, None, true);
    run.step(&mut s, resolved());
    let (a, _) = run.step(&mut s, ConnectEvent::Listed(Err("not paired".into())));
    assert!(matches!(a, ConnectAction::AskPassword(p) if p == "Password for 123456789: "));
    let (a, _) = run.step(&mut s, ConnectEvent::Typed(Ok("pw".into())));
    assert!(matches!(a, ConnectAction::Pair(h1) if h1 == password_h1("pw", "s")));
    let (a, _) = run.step(&mut s, ConnectEvent::PairEnded(Ok(())));
    assert!(matches!(a, ConnectAction::ListApps(_)));
    let (a, e) = run.step(&mut s, ConnectEvent::Listed(Err("down".into())));
    assert!(matches!(a, ConnectAction::Stream { app, .. } if app == "Desktop"));
    assert!(e.is_none());
    assert_eq!(s.cfg.host("123456789").password_h1, Some(password_h1("pw", "s")));
    // the next time the password is known
    let mut run = connect(Some("Steam"), None, false);
    run.step(&mut s, resolved());
    let (a, _) = run.step(&mut s, ConnectEvent::Listed(Err("".into())));
    assert!(matches!(a, ConnectAction::Pair(h1) if h1 == password_h1("pw", "s")));
    let (a, _) = run.step(&mut s, ConnectEvent::PairEnded(Ok(())));
    assert!(matches!(a, ConnectAction::Stream { app, .. } if app == "Steam"));
}

#[test]
fn connections_that_fail() {
    let fail = |a: ConnectAction| match a {
        ConnectAction::Fail(e) => e,
        other => panic!("{other:?}"),
    };
    let mut s = session();
    let mut run = connect(None, Some("pw"), true);
    assert_eq!(fail(run.step(&mut s, ConnectEvent::Resolved(Err("no".into()))).0), "no");
    let mut run = connect(None, Some("pw"), true);
    run.step(&mut s, resolved());
    run.step(&mut s, ConnectEvent::Listed(Err("".into())));
    let a = run.step(&mut s, ConnectEvent::PairEnded(Err("wrong password".into()))).0;
    assert_eq!(fail(a), "wrong password");
    assert!(s.cfg.host_ids().is_empty());
    let e = ConnectRun::new("1".into(), None, None, false, vec![], false).map(|_| ()).unwrap_err();
    assert_eq!(e, "Moonlight not found; install it or set moonlight_path / MOONLIGHT_BIN");
}
