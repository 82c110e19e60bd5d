use remote_access::agent::{
    pretty_id, ra_proto_heartbeat_secs, sanitize_name, Agent, Interface,
};
use remote_access::agent_loop::{
    backoff_secs, AgentRun, JobAction, JobEvent, PairJob, PollAnswer, RequestCheck, RunAction,
    RunEvent,
};
use remote_access::apollo::{
    auth_cookie, check_otp, check_update, login_result, Apollo, ApolloClient, CallAction,
    LoginError, OtpResponse,
};
use remote_access::host_config::{mask_text, parse_mask, password_long_enough, Config};
use remote_access::perm;
use remote_access::proto::{
    challenge_response, password_h1, Endpoint, PairRequest, PairSecret, PairStatus,
    RegisterResponse,
};

const SEC: u64 = 1_000_000_000;

fn config() -> Config {
    let mut c = Config::new_default("https://rv/".into(), "u".into(), "p".into(), None);
    c.set_password("hunter2");
    c
}

fn interface(name: &str, ip: &str) -> Interface {
    Interface { name: name.into(), loopback: false, ip: ip.into(), v6_head: None }
}

fn client(name: &str, uuid: &str) -> ApolloClient {
    ApolloClient {
        name: name.into(),
        uuid: uuid.into(),
        perm: 1,
        connected: false,
        display_mode: "".into(),
        enable_legacy_ordering: true,
        allow_client_commands: true,
        always_use_virtual_display: false,
        do_cmds: vec![],
        undo: vec![],
    }
}

fn pair_request(h1: &str, pin: &str) -> PairRequest {
    PairRequest {
        request_id: "r".into(),
        challenge: "c".into(),
        response: challenge_response(h1, "c"),
        device_name: "My (Laptop)".into(),
        client_uid: None,
        sealed_pin: PairSecret::derive(h1, "c").seal_pin(pin).unwrap(),
        remember: true,
    }
}

#[test]
fn names_and_ids_are_shown() {
    assert_eq!(pretty_id("123456789"), "123 456 789");
    assert_eq!(pretty_id("1234"), "123 4");
    assert_eq!(pretty_id(""), "");
    assert_eq!(pretty_id("aé1"), " 1".replacen(' ', "aé ", 1));
    assert_eq!(pretty_id("ééé"), " ");
    assert_eq!(sanitize_name("My (Laptop)"), "My Laptop");
    assert_eq!(sanitize_name("ü-_.[]!"), "ü-_.[]");
    assert_eq!(sanitize_name("( )"), "Remote client");
    assert_eq!(sanitize_name(&"x".repeat(60)).len(), 48);
    assert_eq!(sanitize_name(&sanitize_name("( )")), "Remote client");
}

#[test]
fn defaults_and_passwords() {
    let c = Config::new_default("r".into(), "u".into(), "p".into(), Some("pc".into()));
    assert_eq!(c.name, "pc");
    assert_eq!(c.token.len(), 64);
    assert_eq!(c.apollo_url, "https://127.0.0.1:47990");
    assert_eq!(c.client_permissions, perm::CONTROL);
    assert!(c.password_h1.is_none() && c.id.is_none());
    let mut c = config();
    assert_eq!(c.name, "Apollo Host");
    let first = c.password_salt.clone();
    assert_eq!(c.password_h1.as_deref(), Some(password_h1("hunter2", &first).as_str()));
    c.set_password("hunter2");
    assert_ne!(c.password_salt, first);
    c.set_password_with("x", "s".into());
    assert_eq!(c.password_h1.unwrap(), password_h1("x", "s"));
    assert!(!password_long_enough("12345"));
    assert!(password_long_enough("ééé"));
}

#[test]
fn masks_are_read_and_written() {
    assert_eq!(perm::CONTROL, 0x0703_1F00);
    assert_eq!(parse_mask("control"), Some(perm::CONTROL));
    assert_eq!(parse_mask("view"), Some(0x0300_0000));
    assert_eq!(parse_mask("all"), Some(0x071F_1F00));
    assert_eq!(parse_mask("0xfF"), Some(255));
    assert_eq!(parse_mask("0x0x1"), Some(1));
    assert_eq!(parse_mask("+10"), Some(16));
    assert_eq!(parse_mask("ffffffff"), Some(u32::MAX));
    assert_eq!(parse_mask("100000000"), None);
    assert_eq!(parse_mask(""), None);
    assert_eq!(parse_mask("+"), None);
    assert_eq!(parse_mask("-1"), None);
    assert_eq!(parse_mask("xyz"), None);
    assert_eq!(mask_text(perm::CONTROL), "0x07031f00");
    assert_eq!(parse_mask(&mask_text(0x1234)), Some(0x1234));
}

#[test]
fn endpoints_are_advertised_once() {
    let mut c = config();
    c.extra_endpoints = vec![
        Endpoint { host: "10.0.0.2".into(), port: 9, kind: "manual".into() },
        Endpoint { host: "dns".into(), port: 9, kind: "manual".into() },
    ];
    let agent = Agent::new(c);
    let mut lo = interface("lo", "127.0.0.1");
    lo.loopback = true;
    let mut v6 = interface("eth0", "fe80::1");
    v6.v6_head = Some(0xfe91);
    let mut global = interface("wg0", "2001::1");
    global.v6_head = Some(0x2001);
    let faces = vec![lo, v6, interface("eth0", "10.0.0.2"), interface("tailscale0", "100.1.1.1"), global];
    let eps = agent.endpoints(&faces, Some("9.9.9.9"));
    let shown: Vec<String> = eps.iter().map(|e| format!("{}:{}:{}", e.host, e.port, e.kind)).collect();
    assert_eq!(
        shown,
        [
            "10.0.0.2:47989:lan",
            "100.1.1.1:47989:vpn",
            "2001::1:47989:vpn",
            "dns:9:manual",
            "9.9.9.9:47989:public"
        ]
    );
    let many: Vec<Interface> = (0..20).map(|i| interface("e", &format!("{i}"))).collect();
    assert_eq!(agent.endpoints(&many, None).len(), 16);
    let mut quiet = config();
    quiet.advertise_lan_ips = false;
    quiet.advertise_public_ip = false;
    assert!(Agent::new(quiet).endpoints(&many, Some("9")).is_empty());
    let req = agent.register_request(&faces, "linux", "1");
    assert_eq!(req.endpoints.len(), 4);
    assert_eq!(req.platform, "linux");
    assert_eq!(agent.rv("/x"), "https://rv/v1/x");
}

#[test]
fn ids_are_adopted() {
    let mut a = Agent::new(config());
    assert!(a.adopt_id("123456789"));
    assert!(!a.adopt_id("123456789"));
    assert_eq!(a.cfg.id.as_deref(), Some("123456789"));
}

#[test]
fn agents_need_a_password() {
    let mut a = Agent::new(config());
    assert_eq!(a.ready(), Ok(()));
    a.cfg.password_h1 = None;
    assert_eq!(a.ready().unwrap_err(), "no password set; run `ra-host set-password` first");
}

#[test]
fn the_second_pass_advertises_the_observed_address() {
    let a = Agent::new(config());
    let mut resp = RegisterResponse {
        id: "123456789".into(),
        observed_addr: None,
        heartbeat_secs: 30,
    };
    assert!(a.second_pass(&vec![], &resp).is_none());
    resp.observed_addr = Some("203.0.113.9".into());
    let eps = a.second_pass(&vec![], &resp).unwrap();
    assert_eq!(eps, a.endpoints(&vec![], Some("203.0.113.9")));
    assert!(eps.iter().any(|e| e.host == "203.0.113.9"));
}

#[test]
fn requests_are_checked_against_the_password() {
    let mut a = Agent::new(config());
    let h1 = a.cfg.password_h1.clone().unwrap();
    a.failures = 3;
    assert!(matches!(a.check_request(&pair_request("wrong", "1234")), RequestCheck::WrongPassword));
    assert_eq!(a.failures, 3);
    match a.check_request(&pair_request(&h1, "1234")) {
        RequestCheck::Accepted { pin, name } => {
            assert_eq!(pin, "1234");
            assert_eq!(name, "My Laptop");
        }
        other => panic!("{other:?}"),
    }
    assert_eq!(a.failures, 0);
    let mut broken = pair_request(&h1, "1234");
    broken.sealed_pin = "00".into();
    assert!(matches!(a.check_request(&broken), RequestCheck::BadSeal));
}

#[test]
fn a_pairing_goes_its_way() {
    let (mut job, first) = PairJob::new("1234".into(), "Laptop".into(), 77);
    assert!(matches!(first, JobAction::ListClients));
    let a = job.step(JobEvent::Clients(Ok(vec![client("old", "u1")])), 0);
    assert!(matches!(&a, JobAction::SubmitPin { pin, name } if pin == "1234" && name == "Laptop"));
    assert!(matches!(job.step(JobEvent::PinTaken(Ok(false)), 90 * SEC), JobAction::SleepMillis(500)));
    assert!(matches!(job.step(JobEvent::Slept, 0), JobAction::SubmitPin { .. }));
    assert!(matches!(job.step(JobEvent::PinTaken(Ok(true)), 95 * SEC), JobAction::ListClients));
    let a = job.step(JobEvent::Clients(Ok(vec![client("old", "u1")])), 96 * SEC);
    assert!(matches!(a, JobAction::SleepMillis(500)));
    assert!(matches!(job.step(JobEvent::Slept, 97 * SEC), JobAction::ListClients));
    let a = job.step(JobEvent::Clients(Ok(vec![client("old", "u1"), client("", "u2")])), 98 * SEC);
    match a {
        JobAction::UpdateClient(c) => {
            assert_eq!((c.uuid.as_str(), c.name.as_str(), c.perm), ("u2", "Laptop", 77));
        }
        other => panic!("{other:?}"),
    }
    assert!(matches!(job.step(JobEvent::Updated(Ok(())), 0), JobAction::Finish(Ok(()))));
}

#[test]
fn a_pairing_can_time_out() {
    let words = |a: JobAction| match a {
        JobAction::Finish(Err(e)) => e,
        other => panic!("{other:?}"),
    };
    let (mut job, _) = PairJob::new("1".into(), "n".into(), 0);
    job.step(JobEvent::Clients(Ok(vec![])), 0);
    assert_eq!(
        words(job.step(JobEvent::PinTaken(Ok(false)), 90 * SEC + 1)),
        "timed out waiting for the client's pairing request to reach Apollo"
    );
    let (mut job, _) = PairJob::new("1".into(), "n".into(), 0);
    job.step(JobEvent::Clients(Ok(vec![])), 0);
    job.step(JobEvent::PinTaken(Ok(true)), 0);
    assert_eq!(
        words(job.step(JobEvent::Clients(Ok(vec![])), 60 * SEC + 1)),
        "client never completed pairing with Apollo (wrong PIN or aborted)"
    );
    let (mut job, _) = PairJob::new("1".into(), "n".into(), 0);
    assert_eq!(words(job.step(JobEvent::Clients(Err("down".into())), 0)), "down");
}

#[test]
fn the_loop_goes_its_way() {
    let reg = RegisterResponse { id: "1".into(), observed_addr: Some("a".into()), heartbeat_secs: 5 };
    assert_eq!(ra_proto_heartbeat_secs(&reg), 10);
    let (mut run, first) = AgentRun::new(Agent::new(config()), &reg, 0);
    assert!(matches!(first, RunAction::Poll));
    assert_eq!(run.id(), "1");
    let polled = |v| RunEvent::Polled(PollAnswer::Requests(v));
    assert!(matches!(run.step(polled(vec![]), 9 * SEC), RunAction::Poll));
    assert!(matches!(run.step(polled(vec![]), 10 * SEC), RunAction::Heartbeat));
    assert!(matches!(run.step(RunEvent::Beaten(None), 10 * SEC), RunAction::Poll));
    assert_eq!(run.observed(), Some("a"));
    // trouble with the server
    let a = run.step(RunEvent::Polled(PollAnswer::Status(404)), 11 * SEC);
    assert!(matches!(a, RunAction::Register));
    let again = RegisterResponse { id: "1".into(), observed_addr: None, heartbeat_secs: 5 };
    assert!(matches!(run.step(RunEvent::Registered(Some(again)), 11 * SEC), RunAction::SleepSecs(5)));
    assert_eq!(run.observed(), None);
    assert!(matches!(run.step(RunEvent::Slept, 12 * SEC), RunAction::Poll));
    let a = run.step(RunEvent::Polled(PollAnswer::Status(500)), 12 * SEC);
    assert!(matches!(a, RunAction::SleepSecs(5)));
    run.step(RunEvent::Slept, 12 * SEC);
    let a = run.step(RunEvent::Polled(PollAnswer::Unreachable), 12 * SEC);
    assert!(matches!(a, RunAction::SleepSecs(10)));
    run.step(RunEvent::Slept, 12 * SEC);
    // three requests: paired, wrong password, failed
    let mut reqs = vec![];
    for id in ["a", "b", "c"] {
        let mut p = pair_request("x", "1234");
        p.request_id = id.into();
        reqs.push(p);
    }
    let post = |a: RunAction| match a {
        RunAction::Post(r) => (r.request_id, r.status, r.message),
        other => panic!("{other:?}"),
    };
    assert!(matches!(run.step(polled(reqs), 13 * SEC), RunAction::Handle(p) if p.request_id == "a"));
    let a = run.step(RunEvent::Handled(Ok(())), 13 * SEC);
    assert_eq!(post(a), ("a".into(), PairStatus::Paired, None));
    assert!(matches!(run.step(RunEvent::Posted, 13 * SEC), RunAction::Handle(p) if p.request_id == "b"));
    let a = run.step(RunEvent::Handled(Err("wrong password".into())), 13 * SEC);
    assert!(matches!(a, RunAction::SleepSecs(2)));
    assert_eq!(run.agent().failures, 1);
    let a = run.step(RunEvent::Slept, 15 * SEC);
    assert_eq!(post(a), ("b".into(), PairStatus::Rejected, Some("wrong password".into())));
    run.step(RunEvent::Posted, 15 * SEC);
    let a = run.step(RunEvent::Handled(Err("boom".into())), 15 * SEC);
    assert_eq!(post(a), ("c".into(), PairStatus::Failed, Some("boom".into())));
    assert!(matches!(run.step(RunEvent::Posted, 15 * SEC), RunAction::Poll));
    assert_eq!((1..9).map(backoff_secs).collect::<Vec<_>>(), [2, 4, 8, 16, 32, 60, 60, 60]);
    // the run checks requests like the agent
    let h1 = run.agent().cfg.password_h1.clone().unwrap();
    assert!(matches!(run.check_request(&pair_request(&h1, "0042")), RequestCheck::Accepted { .. }));
    assert_eq!(run.agent().failures, 0);
    let (mut job, first) = run.begin_pair(&pair_request(&h1, "0042")).map_err(|_| ()).unwrap();
    assert!(matches!(first, JobAction::ListClients));
    let a = job.step(JobEvent::Clients(Ok(vec![])), 0);
    assert!(matches!(a, JobAction::SubmitPin { pin, .. } if pin == "0042"));
    let refused = run.begin_pair(&pair_request("x", "0042")).map(|_| ()).unwrap_err();
    assert_eq!(refused, "wrong password");
}

#[test]
fn apollo_sessions() {
    let cookies = |v: &[&str]| v.iter().map(|s| s.to_string()).collect::<Vec<String>>();
    assert_eq!(auth_cookie(&cookies(&["x=1; a", "auth=abc; Path=/"])).as_deref(), Some("auth=abc"));
    assert_eq!(login_result(401, &vec![]), Err(LoginError::Rejected));
    assert_eq!(login_result(500, &cookies(&["auth=a"])), Err(LoginError::Status(500)));
    assert_eq!(login_result(200, &cookies(&["x"])), Err(LoginError::NoCookie));
    assert_eq!(login_result(200, &cookies(&["auth="])), Ok("auth=".to_string()));
    let mut a = Apollo::new("https://h:1//", "u", "p");
    assert_eq!(a.url("/api/pin"), "https://h:1/api/pin");
    assert!(matches!(a.begin(), CallAction::Login));
    assert!(matches!(a.on_login("auth=1".into()), CallAction::Send(c) if c == "auth=1"));
    assert!(matches!(a.begin(), CallAction::Send(_)));
    assert!(matches!(a.on_answer(200, 0), CallAction::Return));
    assert!(matches!(a.on_answer(401, 0), CallAction::Login));
    assert!(a.cookie.is_none());
    a.on_login("auth=2".into());
    assert!(matches!(a.on_answer(401, 1), CallAction::Return));
    assert_eq!(check_update(Some(false), "{}").unwrap_err(), "Apollo refused client update: {}");
    assert!(check_update(Some(true), "").is_ok());
    let otp = |s: &str, status| OtpResponse {
        otp: s.into(),
        name: "".into(),
        status,
        message: "no".into(),
    };
    assert_eq!(check_otp(otp("", true)).unwrap_err(), "Apollo refused OTP: no");
    assert_eq!(check_otp(otp("1", false)).unwrap_err(), "Apollo refused OTP: no");
    assert_eq!(check_otp(otp("1", true)).unwrap().otp, "1");
}
