use remote_access::proto::{
    challenge_response, ct_eq, is_valid_id, password_h1, random_hex, random_salt, Endpoint,
    PairRequest, PairResult, PairSecret, PairStatus, RegisterRequest, SubmitPairRequest,
};
use remote_access::rendezvous::{
    bearer, observed_ip, poll_deadline, seconds_since, ApiError, HeartbeatBody, Poll, Store,
    WaitQuery, CHALLENGES_PER_MINUTE,
};

const SEC: u64 = 1_000_000_000;

fn request(id: Option<String>, token: &str, name: &str) -> RegisterRequest {
    RegisterRequest {
        id,
        token: token.into(),
        name: name.into(),
        platform: "p".into(),
        endpoints: vec![],
        password_salt: "s".into(),
        agent_version: "t".into(),
    }
}

fn submit(request_id: &str) -> SubmitPairRequest {
    SubmitPairRequest {
        request_id: request_id.into(),
        response: "0".repeat(64),
        device_name: "L".into(),
        client_uid: None,
        sealed_pin: "00".into(),
        remember: false,
    }
}

fn code<T>(r: Result<T, ApiError>) -> u16 {
    match r {
        Ok(_) => 200,
        Err(e) => e.code,
    }
}

fn auth(token: &str) -> String {
    format!("Bearer {token}")
}

fn ready(p: Poll<Vec<PairRequest>>) -> Vec<PairRequest> {
    match p {
        Poll::Ready(v) => v,
        Poll::Wait(_) => panic!("nothing to poll"),
    }
}

#[test]
fn register_lookup_pair_flow() {
    let mut store = Store::new();
    let token = random_hex(32);
    let salt = random_salt(16);
    let mut now = SEC;

    // host registers and gets an id
    let mut req = request(None, &token, "Gaming PC");
    req.platform = "windows".into();
    req.endpoints =
        vec![Endpoint { host: "192.168.1.50".into(), port: 47989, kind: "lan".into() }];
    req.password_salt = salt.clone();
    let reg = store.register(req, now, 5, observed_ip(None, Some("127.0.0.1".into()))).unwrap();
    assert!(is_valid_id(&reg.id));
    assert_eq!(reg.observed_addr.as_deref(), Some("127.0.0.1"));
    assert_eq!(reg.heartbeat_secs, 30);

    // re-register with same id but wrong token is refused
    let r = store.register(request(Some(reg.id.clone()), &random_hex(32), "x"), now, 5, None);
    assert_eq!(code(r), 403);

    // client looks the host up
    let info = store.host_info(&reg.id, now).unwrap();
    assert!(info.online);
    assert_eq!(info.password_salt, salt);
    assert_eq!(info.endpoints[0].host, "192.168.1.50");

    // client gets a challenge and submits a pair request
    let h1 = password_h1("hunter2", &salt);
    let ch = store.challenge(&reg.id, now).unwrap();
    let secret = PairSecret::derive(&h1, &ch.challenge);
    let r = store.submit_pair(
        &reg.id,
        SubmitPairRequest {
            request_id: ch.request_id.clone(),
            response: challenge_response(&h1, &ch.challenge),
            device_name: "Laptop".into(),
            client_uid: None,
            sealed_pin: secret.seal_pin("1234").unwrap(),
            remember: true,
        },
        now,
    );
    assert_eq!(r.unwrap(), 202);

    // host long-polls and receives it
    let deadline = poll_deadline(&WaitQuery { wait: Some(5) }, now);
    let reqs = ready(
        store.poll_pair_requests(&reg.id, Some(&auth(&token)), deadline, now, 5).unwrap(),
    );
    assert_eq!(reqs.len(), 1);
    let pr = &reqs[0];
    assert!(ct_eq(&pr.response, &challenge_response(&h1, &pr.challenge)));
    assert_eq!(PairSecret::derive(&h1, &pr.challenge).open_pin(&pr.sealed_pin).unwrap(), "1234");

    // unauthenticated poll is refused
    assert_eq!(code(store.poll_pair_requests(&reg.id, None, deadline, now, 5)), 401);

    // client waits for a result while host posts one
    assert!(matches!(
        store.poll_pair_result(&pr.request_id, deadline, now).unwrap(),
        Poll::Wait(n) if n == 5 * SEC
    ));
    now += SEC / 5;
    let res =
        PairResult { request_id: pr.request_id.clone(), status: PairStatus::Paired, message: None };
    assert_eq!(store.post_pair_result(&reg.id, Some(&auth(&token)), res).unwrap(), 204);
    match store.poll_pair_result(&pr.request_id, deadline, now).unwrap() {
        Poll::Ready(Some(r)) => assert_eq!(r.status, PairStatus::Paired),
        _ => panic!("no result"),
    }

    // challenge cannot be reused
    assert_eq!(code(store.submit_pair(&reg.id, submit(&ch.request_id), now)), 404);
}

#[test]
fn challenge_rate_limit() {
    let mut store = Store::new();
    let reg = store.register(request(None, &random_hex(32), "h"), 0, 0, None).unwrap();
    let mut last = 0;
    for _ in 0..=CHALLENGES_PER_MINUTE {
        last = code(store.challenge(&reg.id, 0));
    }
    assert_eq!(last, 429);
    // a minute later, to the nanosecond, the limit still holds; then it wears off
    assert_eq!(code(store.challenge(&reg.id, 60 * SEC)), 429);
    assert_eq!(code(store.challenge(&reg.id, 60 * SEC + 1)), 200);
}

#[test]
fn registrations_are_checked() {
    let mut s = Store::new();
    let t = "t".repeat(32);
    assert_eq!(code(s.register(request(None, &"t".repeat(31), "n"), 0, 0, None)), 400);
    assert_eq!(code(s.register(request(None, &t, ""), 0, 0, None)), 400);
    assert_eq!(code(s.register(request(None, &t, &"é".repeat(33)), 0, 0, None)), 400);
    assert_eq!(code(s.register(request(None, &t, &"é".repeat(32)), 0, 0, None)), 200);
    let mut many = request(None, &t, "n");
    for i in 0..17 {
        many.endpoints.push(Endpoint { host: format!("{i}"), port: 1, kind: "lan".into() });
    }
    assert_eq!(s.register(many, 0, 0, None).unwrap_err().message, "too many endpoints");
    let e = s.register(request(Some("012345678".into()), &t, "n"), 0, 0, None).unwrap_err();
    assert_eq!((e.code, e.message.as_str()), (400, "malformed id"));
    // an id that nobody has is taken over as it is, and may be registered again
    for _ in 0..2 {
        let r = s.register(request(Some("123456789".into()), &t, "n"), 0, 0, None).unwrap();
        assert_eq!(r.id, "123456789");
    }
    assert!(is_valid_id(&s.fresh_id().unwrap()));
    let r = s.register_with(request(None, &t, "n"), None, 0, 0, None);
    assert_eq!(code(r), 503);
}

#[test]
fn free_ids_are_found() {
    let mut s = Store::new();
    assert_eq!(s.lowest_free_id().unwrap(), "100000000");
    let t = "t".repeat(32);
    for id in ["100000000", "100000001", "100000003"] {
        s.register(request(Some(id.into()), &t, "n"), 0, 0, None).unwrap();
    }
    assert_eq!(s.lowest_free_id().unwrap(), "100000002");
    for _ in 0..20 {
        let id = s.fresh_id().unwrap();
        assert!(is_valid_id(&id));
        assert!(s.host_info(&id, 0).is_err());
        s.register(request(Some(id), &t, "n"), 0, 0, None).unwrap();
    }
}

#[test]
fn used_challenges_stay_used() {
    let mut s = Store::new();
    let t = "t".repeat(32);
    let id = s.register(request(None, &t, "n"), 0, 0, None).unwrap().id;
    let ch = s.challenge(&id, 0).unwrap();
    assert_eq!(s.submit_pair(&id, submit(&ch.request_id), 0).unwrap(), 202);
    s.register(request(Some(id.clone()), &t, "n"), 1, 1, None).unwrap();
    s.challenge(&id, 2).unwrap();
    s.gc(3);
    let poll = |s: &mut Store| {
        ready(s.poll_pair_requests(&id, Some(&auth(&t)), 0, 4, 4).unwrap())
    };
    assert_eq!(poll(&mut s).len(), 1);
    assert_eq!(code(s.submit_pair(&id, submit(&ch.request_id), 5)), 404);
    assert!(poll(&mut s).is_empty());
}

#[test]
fn heartbeats_update_hosts() {
    let mut s = Store::new();
    let t = "t".repeat(32);
    let id = s.register(request(None, &t, "n"), 0, 0, None).unwrap().id;
    let eps = || vec![Endpoint { host: "h".into(), port: 1, kind: "lan".into() }];
    let body = || Some(HeartbeatBody { endpoints: Some(eps()) });
    let a = auth(&t);
    let (r, changed) = s.heartbeat(&id, Some(&a), body(), SEC, 9, Some("1.2.3.4".into())).unwrap();
    assert!(changed);
    assert_eq!(r.observed_addr.as_deref(), Some("1.2.3.4"));
    assert!(!s.heartbeat(&id, Some(&a), body(), SEC, 9, None).unwrap().1);
    assert!(!s.heartbeat(&id, Some(&a), None, SEC, 9, None).unwrap().1);
    assert_eq!(s.host_info(&id, SEC).unwrap().endpoints, eps());
    assert_eq!(code(s.heartbeat(&id, Some("Bearer x"), None, SEC, 9, None)), 403);
    assert_eq!(code(s.heartbeat("999999999", Some(&a), None, SEC, 9, None)), 404);
    // a host that is silent for ninety seconds is offline
    assert!(s.host_info(&id, 91 * SEC - 1).unwrap().online);
    assert!(!s.host_info(&id, 91 * SEC).unwrap().online);
    assert_eq!(s.host_info(&id, 91 * SEC).unwrap().last_seen_secs, 90);
    assert_eq!(code(s.host_info("1", 0)), 404);
}

#[test]
fn pair_requests_are_checked() {
    let mut s = Store::new();
    let t = "t".repeat(32);
    let id = s.register(request(None, &t, "n"), 0, 0, None).unwrap().id;
    let other = s.register(request(None, &t, "n"), 0, 0, None).unwrap().id;
    let ch = |s: &mut Store, now| s.challenge_with(&id, now, "r".into(), "c".into()).unwrap();
    assert_eq!(ch(&mut s, 0).ttl_secs, 120);
    let mut bad = submit("r");
    bad.device_name = "".into();
    assert_eq!(code(s.submit_pair(&id, bad, 0)), 400);
    let mut bad = submit("r");
    bad.response = "0".into();
    assert_eq!(code(s.submit_pair(&id, bad, 0)), 400);
    let mut bad = submit("r");
    bad.sealed_pin = "0".repeat(257);
    assert_eq!(code(s.submit_pair(&id, bad, 0)), 400);
    // a challenge of another host is used up nonetheless
    let e = s.submit_pair(&other, submit("r"), 0).unwrap_err();
    assert_eq!(e.message, "challenge belongs to a different host");
    assert_eq!(code(s.submit_pair(&id, submit("r"), 0)), 404);
    ch(&mut s, 0);
    assert_eq!(code(s.submit_pair(&id, submit("r"), 120 * SEC)), 410);
    ch(&mut s, 0);
    assert_eq!(code(s.submit_pair(&id, submit("r"), 100 * SEC)), 503);
    assert_eq!(code(s.challenge("1", 0)), 404);
    // requests come in order
    for r in ["a", "b"] {
        s.challenge_with(&id, 0, r.into(), "c".into()).unwrap();
        assert_eq!(s.submit_pair(&id, submit(r), 0).unwrap(), 202);
    }
    let got = ready(s.poll_pair_requests(&id, Some(&auth(&t)), 0, 0, 0).unwrap());
    assert_eq!(got.iter().map(|p| p.request_id.as_str()).collect::<Vec<_>>(), ["a", "b"]);
    assert!(ready(s.poll_pair_requests(&id, Some(&auth(&t)), 0, 0, 0).unwrap()).is_empty());
    assert!(matches!(
        s.poll_pair_requests(&id, Some(&auth(&t)), 7, 0, 0).unwrap(),
        Poll::Wait(7)
    ));
    let res = PairResult { request_id: "zz".into(), status: PairStatus::Failed, message: None };
    assert_eq!(code(s.post_pair_result(&id, Some(&auth(&t)), res)), 404);
    assert_eq!(code(s.poll_pair_result("zz", 0, 0)), 404);
    assert!(matches!(s.poll_pair_result("a", 0, 0).unwrap(), Poll::Ready(None)));
    // results are kept for five minutes
    s.gc(300 * SEC - 1);
    assert_eq!(code(s.poll_pair_result("a", 0, 0)), 200);
    s.gc(300 * SEC);
    assert_eq!(code(s.poll_pair_result("a", 0, 0)), 404);
}

#[test]
fn records_survive_a_restart() {
    let mut s = Store::new();
    let t = "t".repeat(32);
    let a = s.register(request(None, &t, "first"), 0, 7, None).unwrap().id;
    let b = s.register(request(None, &t, "second"), 0, 7, None).unwrap().id;
    let mut records = s.records();
    assert_eq!(records.len(), 2);
    for r in &mut records {
        r.last_seen = None;
    }
    let s = Store::from_hosts(records);
    let info = s.host_info(&a, 0).unwrap();
    assert_eq!(info.name, "first");
    assert!(!info.online);
    assert_eq!(info.last_seen_secs, u64::MAX);
    assert_eq!(s.host_info(&b, 0).unwrap().name, "second");
}

#[test]
fn headers_and_times() {
    assert_eq!(bearer(None), None);
    assert_eq!(bearer(Some("Basic x")), None);
    assert_eq!(bearer(Some("bearer x")), None);
    assert_eq!(bearer(Some("Bearer  x ")).as_deref(), Some("x"));
    assert_eq!(
        observed_ip(Some(" 1.1.1.1 , 2.2.2.2"), Some("3".into())).as_deref(),
        Some("1.1.1.1")
    );
    assert_eq!(observed_ip(None, None), None);
    assert_eq!(seconds_since(5, 9), 0);
    assert_eq!(seconds_since(3 * SEC - 1, SEC), 1);
    assert_eq!(poll_deadline(&WaitQuery { wait: None }, 9), 9);
    assert_eq!(poll_deadline(&WaitQuery { wait: Some(99) }, 0), 30 * SEC);
    assert_eq!(poll_deadline(&WaitQuery { wait: Some(1) }, u64::MAX), u64::MAX);
}
