use remote_access::crypto::{
    cert_public_key, cert_signature, generate_key, pem_to_der, sign_sha256, try_sign_sha256,
    verify_sha256,
};
use remote_access::error::{Error, PairError};
use remote_access::fakehost::{ClientUpdate, FakeApollo, FakePair, JsonValue};
use remote_access::foreign::{RsaPrivateKey, RsaPublicKey};
use remote_access::handshake::run as run_handshake;
use remote_access::http::GsHttp;
use remote_access::identity::{self_signed_cert, self_signed_cert_at, Identity};
use remote_access::pairing::{OtpAuth, PairDriver, PairTurn, Pairing};
use remote_access::testing::FakeHost;
use rsa::pkcs1::EncodeRsaPrivateKey;
use rsa::pkcs8::DecodePrivateKey;

/// Fixed 2048-bit test keys as hexadecimal numbers (n, d, p, q); e is 65537.
const CLIENT_KEY: [&str; 4] = [
    "b6d5b30f87024138c44e76afd919354ddb639b1b2b5641527178bbd470fd91ff3aad4b3d635e8926\
     2f1a9fc567dae218015070afda96e77efac4ce9e5aeae311bae352512f25a2a37d48fe354dabf167\
     734b147ecec608320fb3501f2039e94bc2792c38eb32a3c5dc29e2429f54c53787c064c095594f92\
     cd038aea160a47a9c07a1a40d5617032b61e3db415d32be10baa58b75ef145cfddab350f2311c5f8\
     9c7205772d1751cd8a4db6244cbac397b5d343ffc72c397ce3e8049b63eef55a84ae8dc858f9d63d\
     2e48abb316d2062b3f688e2efed2b329fbbe3eb4c32d774d1c35c886886e693ad0e62aa20a1b45ce\
     4a0b281764db64948dea2361e0767951",
    "952199fc80530680171f29102634b995d7ed5706c24288e58648c46c73fd60a89e63db8b2712652c\
     101fd7525d73dc17587b146f5c0cdaa668453f834b056c5179ef11a5c69f1c19de873b529f1830c0\
     00faacad025be533703b028f60e9dbb13fdf3682f6d547608c445d9999fcbb20a049fde457ed914a\
     5c8f172ff8ea49a879ee66ed51d61e4c5826b02976cc3fd63d3917fcc259a37431b539cdba07c30a\
     e628619a162f1d61d095a66bf6d108d550dba9dce3490030cecddbfdfeaba5f8fcaef0cc9d1d6c86\
     7019b7e6a7d64f772971e6a6044ecea3774f9ccc4fc67eb765c029bc9b06d1947eb9a359f5bf6899\
     819a7a7b6611ea319aa4aeef36418141",
    "ef3b187cd493b11fb997d479669f955cbadb2637ff3fa77683fc797f4636566d7e88f36dbe8cd5a7\
     c17a50ebb044b98085ffdab013eb60a5147c344670d6a34d53059cfdf2c316a41122aa89b486bde3\
     2a0761cd07078984c2bc563d34cd12b604607d94d1ee7b96d5ebcf6921425301de4035a5405071ae\
     3255fa232a0913c7",
    "c3a6991e3955e7fabe0fe930b0a1480acdf06d510b25acfe9a626fd7f283f2055d43382f044bddc3\
     06b3b75aa535e83144e48614b6ac5562e31eadb7be414ac00568f8c7e17413f13f526872de0e54dc\
     27929862600e31c1b2bf74a1a3967f1cb41c04d952df5753c0fb928705b0935bf7136010fb2dc5e7\
     a31d806c95dbda27",
];
const HOST_KEY: [&str; 4] = [
    "cc264bb342dee0bcf9bb75ab298cf6a6c1e01477737a3b82e68a572e361a5272fafb83e6a3b34f97\
     a2feb090b0d2bf925f7aa3f2cc990337f8d38656d3056e174fe09c2d47f9b4b25afb1c3f7680983a\
     b0e37176237e57f58acb8fe6ab3cc985c878abc7a34ab753b171b0a855ab684eb50b3240944ce481\
     c3f99f847992df239d49ef44b10e59f2a2b3aa7a394686fb320a9302cd52afedf60caa8176670019\
     0ef69b0cd07e60566c20d38b7e4952295fde3bb916955d0d21b5599cf6d30632fc4729510d082556\
     95c2e07869b3b4421215e3295bcb02b61d79138497bf6377d72c20c935c99cd1b36c92e16c377520\
     27c33af8f16109856214592ee50e3e89",
    "6095a5aef3ee3a696dc570d03fe23f3779f627f8b39b9ad83d7629f4e507e3061f142bbd4ca9a2f8\
     5cd71e75f6125f2c431be4c11467380c9d1e862a41c009ebe190a4930fc065eb13fc45cb08a7a25d\
     f21e4929d97506ec5674246abf8d0cd2cc9bbab9c2d9b08e5a1f2db31684f7de74ed0d235c865c7d\
     c058334e1bae8efe930342e2071063567997f8b873c6590da5342a4ea0d89efaf592e5731f5dea9a\
     61471fd250e3509de1c1a2cc145393a29b7741e25d25f487362d95f81f85190b4faa821d7cb3b8bc\
     35f840180c3c44a91dc697bdd3a71f8e0b07550542004677954c1d38f88fb4373837bc7071ab2a6f\
     dcabc6e270870b6a9a4035deb8ed5c79",
    "fdea5f0e76e363db1a59b4aa58378616c0261cf34e371c64e3771bb7930fb37b9fb9304524ef390a\
     334975c8b2df105bd6eef7aba4b918f53cf94a795200e54e9abdf6e16f40cf0285bb5b52429747d8\
     294ea9899439cde841e59c80297cd946c715f003de63cbb9e128c9b6c4831e217c05a5c22a85c355\
     17089077bd457d33",
    "cdd3561bd2cf581f40c39fb5c8dc4d4c39ff6a10caa0a7ccdec05596718ab44c17c22c091270148b\
     b1d5e45c34fc2ea13cf5b1d9a29a9cfd44d1186c01fa091c30586b6c13682512231d5110958c02af\
     bd2748e961f8c82c2449a29b48cffc58c30a32a4f61913231cd44d33da16b0a291afa64d9603faa0\
     dd53cffd6d88bd53",
];
const OTHER_KEY: [&str; 4] = [
    "aa3055e5d198eadeba9afb4b40e130e9eb012edd039b890b63588c796a4f76193eed2f481e3c5554\
     59296a23c3c4f97abd0907f2a9fd9ed8ddcf4213205eae4ba6dab09502f3489d72f628b98f354cdc\
     2bb9dc6e4d3c8343248c5c0ba219f0cf0cb528557b97caa9081eb80d1b806f2f7b1e6881af3a5aff\
     e6297e6bc51c64ed19f42acb11d5c350cc17ee2facaf174b1b648333511e6951a103f8c83fef282e\
     902233a838f0875868b5e09213a9c857c8cf573aaae6e2fdb4c6671265206ec492d4c1acf8add5b6\
     d59c47fd2ba1c272feeac86aa2074c892361e6750b90a3dd174da52a50a8507385ed05fa774e9d4a\
     46bc20a0569dde36ba0c214ee1c571d7",
    "295ac774a9e2c3a7cda65d4be2ff1578b1df3eb8fbe86e7bb2ef506b2c7714967be0fcad44939a94\
     7d79ffcda303992fc7018bc9de9ebf5ba94274a6db25c6aaa167e0a2c4edc306676a03695bb032f6\
     093607a751e3536e1c5273076ca36b0d94e3ec62213f3842acb3723bd523f7608d454d55bdf3ab2b\
     258d8da7b864f6ecf4bbe8ceb473fdb49b8c89747d7cb56773e975128e7780d1fa5a46e51f8f0172\
     7de357d36bbbc366822904be144c1fdde7609f52ec07462f016fee084270506692f7590040acc4a7\
     09df66a272d9c8d376d81c81fe8bc5dbca4aa8a45b5106f13bd6ac4515824f348e7c4394dae04ff5\
     d506c5e018249f993e785c6665b79101",
    "e096b788e4d30862a955a438e2af4355f21e2647817ff53b8ba4159dbb07604ecdf224e37fd669c3\
     3d22668b2b8c5010c8225e50e2345e8963fa1b88fb39e86346b0ab5d7cdc45b7b3b9b97b7e6569c3\
     49bb7ec68c3821ce5b8afda80198fc31b55896258247372ecff31506420e5bed51ce264ac5c8980c\
     a2e78c68f8456157",
    "c1fddb836be6ff66cf326a19249ce6e86caa07c92d10641563b4a612c4c12f09a54136f5ebb44ac8\
     3fa96bcc78ded250a0bac0f237c65df728b506c7898f495c1d81f3a054f2b460d47582677b6e37a5\
     c32d563e09b96d3130735f3216da89d036fd457c690ccddc6f5c3572f88c3ae603f348c8bab2a6e4\
     569d5fb986b3a381",
];

fn key(k: &[&str; 4]) -> RsaPrivateKey {
    let b = |i: usize| hex::decode(k[i]).unwrap();
    RsaPrivateKey { n: b(0), e: vec![1, 0, 1], d: b(1), p: b(2), q: b(3) }
}

const NOW: i64 = 1_700_000_000;

fn identity() -> Identity {
    Identity::from_key(key(&CLIENT_KEY), "0123456789abcdef".into(), NOW).unwrap()
}

fn fake_host(pin: &str) -> FakeHost {
    let as_identity = Identity::from_key(key(&HOST_KEY), "h".into(), NOW).unwrap();
    let cert = self_signed_cert(&as_identity.key_pem, "Sunshine Gamestream Host").unwrap();
    FakeHost::with_key(key(&HOST_KEY), cert, pin)
}

fn run(host: &mut FakeHost, mut p: Pairing) -> Result<(), Error> {
    let mut step = p.start();
    loop {
        let body = host.handle(&step);
        match p.next(&body)? {
            Some(s) => step = s,
            None => break,
        }
    }
    assert!(p.is_complete());
    assert_eq!(p.server_cert_pem().unwrap(), host.cert_pem);
    Ok(())
}

#[test]
fn full_handshake_with_correct_pin() {
    let id = identity();
    let mut host = fake_host("1234");
    run(&mut host, Pairing::new(id, "1234", None)).unwrap();
}

#[test]
fn wrong_pin_is_detected_client_side() {
    let id = identity();
    let mut host = fake_host("1234");
    let err = run(&mut host, Pairing::new(id, "4321", None)).unwrap_err();
    assert!(matches!(err, Error::Pair(PairError::WrongPin)), "{err:?}");
}

#[test]
fn otp_auth_pairs_without_pin_entry() {
    let id = identity();
    let mut host = fake_host("0000");
    host.otp = Some(("5678".into(), "secretphrase".into()));
    let otp = OtpAuth { pin: "5678".into(), passphrase: "secretphrase".into() };
    run(&mut host, Pairing::new(id.clone(), "5678", Some(otp))).unwrap();
    // wrong passphrase -> host silently uses a garbage pin -> WrongPin
    let otp = OtpAuth { pin: "5678".into(), passphrase: "nope".into() };
    let err = run(&mut host, Pairing::new(id, "5678", Some(otp))).unwrap_err();
    assert!(matches!(err, Error::Pair(PairError::WrongPin)), "{err:?}");
}

#[test]
fn tampered_server_signature_is_rejected() {
    let id = identity();
    let mut host = fake_host("1234");
    let mut p = Pairing::new(id, "1234", None);
    let s1 = p.start();
    let s2 = p.next(&host.handle(&s1)).unwrap().unwrap();
    let s3 = p.next(&host.handle(&s2)).unwrap().unwrap();
    // forge pairingsecret with a different key
    let other = key(&OTHER_KEY);
    let mut out = host.server_secret.to_vec();
    out.extend_from_slice(&sign_sha256(&other, &host.server_secret));
    let _ = s3;
    let body = format!(
        "<root status_code=\"200\"><paired>1</paired><pairingsecret>{}</pairingsecret></root>",
        hex::encode(out)
    );
    let err = p.next(&body).unwrap_err();
    assert!(matches!(err, Error::Pair(PairError::BadServerSignature)), "{err:?}");
}

#[test]
fn both_sides_meet() {
    let id = identity();
    let mut host = fake_host("1234");
    let mut p = Pairing::new(id.clone(), "1234", None);
    assert_eq!(p.pin(), "1234");
    assert!(matches!(run_handshake(&mut host, &mut p), Some(Ok(()))));
    assert!(p.is_complete());
    assert_eq!(p.server_cert_pem().unwrap(), host.cert_pem);
    let mut p = Pairing::new(id, "9999", None);
    assert!(matches!(
        run_handshake(&mut host, &mut p),
        Some(Err(Error::Pair(PairError::WrongPin)))
    ));
    assert!(!p.is_complete());
}

#[test]
fn steps_have_their_form() {
    let id = identity();
    let cert = hex::encode(&id.cert_pem);
    let p = Pairing::with_random(id.clone(), "1234", None, [1; 16], [2; 16], [3; 16]);
    let s = p.start();
    assert!(!s.https);
    assert_eq!(
        s.args,
        format!(
            "devicename=roth&updateState=1&phrase=getservercert&salt={}&clientcert={cert}",
            "01".repeat(16)
        )
    );
    let otp = OtpAuth { pin: "1".into(), passphrase: "p".into() };
    let p = Pairing::with_random(id, "1", Some(otp), [1; 16], [2; 16], [3; 16]);
    let auth = p.otpauth().unwrap();
    assert_eq!(auth.len(), 64);
    assert_eq!(auth, auth.to_uppercase());
    assert!(p.start().args.ends_with(&format!("&otpauth={auth}")));
}

#[test]
fn each_refusal_of_the_first_answer() {
    let id = identity();
    let mut p = Pairing::new(id, "1234", None);
    let body = |s: &str| format!("<root status_code=\"200\">{s}</root>");
    let words = |p: &mut Pairing, s: &str| p.next(&body(s)).unwrap_err().message();
    assert_eq!(words(&mut p, ""), "pairing: host did not return paired=1");
    assert_eq!(words(&mut p, "<paired>0</paired>"), "pairing: host did not return paired=1");
    assert_eq!(
        words(&mut p, "<paired> 1 </paired>"),
        "pairing: another pairing is already in progress on the host"
    );
    assert_eq!(
        words(&mut p, "<paired>1</paired><plaincert>0</plaincert>"),
        "hex: Odd number of digits"
    );
    assert!(words(&mut p, "<paired>1</paired><plaincert>ff</plaincert>")
        .starts_with("pairing: malformed response: plaincert utf8: invalid utf-8"));
    let s = p.next(&body("<paired>1</paired><plaincert>41</plaincert>")).unwrap().unwrap();
    assert!(s.args.starts_with("devicename=roth&updateState=1&clientchallenge="));
    assert_eq!(p.server_cert_pem(), Some("A"));
    assert_eq!(words(&mut p, "<paired>1</paired>"), "missing field challengeresponse in response");
    assert_eq!(
        words(
            &mut p,
            &format!("<paired>1</paired><challengeresponse>{}</challengeresponse>", "00".repeat(16))
        ),
        "pairing: malformed response: challengeresponse is 16 bytes, expected >= 48"
    );
    assert_eq!(
        words(&mut p, "<paired>1</paired><challengeresponse>00</challengeresponse>"),
        "crypto: AES-ECB input length 1 is not a multiple of 16"
    );
}

#[test]
fn short_secrets_and_bad_certificates() {
    let id = identity();
    let mut p = Pairing::new(id, "1234", None);
    let body = |s: &str| format!("<root status_code=\"200\"><paired>1</paired>{s}</root>");
    p.next(&body("<plaincert>41</plaincert>")).unwrap();
    p.next(&body(&format!("<challengeresponse>{}</challengeresponse>", "00".repeat(48)))).unwrap();
    assert_eq!(
        p.next(&body("<pairingsecret>00</pairingsecret>")).unwrap_err().message(),
        "pairing: malformed response: pairingsecret too short"
    );
    assert_eq!(
        p.next(&body(&format!("<pairingsecret>{}</pairingsecret>", "00".repeat(17))))
            .unwrap_err()
            .message(),
        "crypto: no certificate found in PEM"
    );
}

#[test]
fn the_driver_goes_through_the_steps() {
    let id = identity();
    let mut host = fake_host("1234");
    match PairDriver::begin(id.clone(), 6, "1234", None, None) {
        Err(e) => assert_eq!(
            e.message(),
            "pairing: host reports server version 6 < 7; only SHA-256 pairing is supported"
        ),
        Ok(_) => panic!("too old"),
    }
    let mut d = PairDriver::begin(id, 7, "1234", None, Some(120)).unwrap();
    let mut calls = 0;
    let cert = loop {
        let c = d.call();
        assert_eq!(c.timeout_secs, Some(if calls == 0 { 120 } else { 5 }));
        assert_eq!(c.pinned.is_some(), calls == 4);
        calls += 1;
        let body = host.try_handle_query(&c.args, c.pinned.is_some()).unwrap();
        match d.on_answer(Ok(body)) {
            PairTurn::Continue => {}
            PairTurn::Done(o) => break o.server_cert_pem,
            other => panic!("{other:?}"),
        }
    };
    assert_eq!(calls, 5);
    assert_eq!(cert, host.cert_pem);
    assert!(matches!(d.on_answer(Err(Error::Http("down".into()))), PairTurn::Abort(Error::Http(_))));
}

#[test]
fn the_host_refuses_what_it_does_not_know() {
    let mut host = fake_host("1234");
    assert_eq!(FakeHost::param("a=1&b=2&b=3", "b"), Some("2"));
    assert_eq!(FakeHost::param("xb=1", "b"), None);
    assert_eq!(FakeHost::param("b=", "b"), Some(""));
    assert_eq!(FakeHost::param("", "b"), None);
    assert!(host.try_handle_query("x=1", false).is_none());
    assert!(host.try_handle_query("clientchallenge=00", false).is_none());
    assert!(host.try_handle_query("phrase=getservercert&salt=00&clientcert=00", false).is_none());
    assert_eq!(
        host.try_handle_query("x=1", true).unwrap(),
        "<root status_code=\"200\"><paired>1</paired></root>"
    );
}

#[test]
fn generate_save_load_roundtrip() {
    let a = first_of(|| Identity::generate().unwrap());
    let files = a.files();
    assert_eq!(files.len(), 3);
    assert_eq!(files[0].name, "client.crt");
    assert_eq!(files[1].name, "client.key");
    assert!(files[1].private && !files[0].private && !files[2].private);
    assert_eq!(files[2].name, "uniqueid");
    let b = Identity::from_files(
        &format!("{}\n", files[2].contents),
        files[0].contents.clone(),
        files[1].contents.clone(),
    )
    .unwrap();
    assert_eq!(a.unique_id, b.unique_id);
    assert_eq!(a.cert_pem, b.cert_pem);
    assert!(a.cert_pem.contains("BEGIN CERTIFICATE"));
    // signature from cert must verify with the cert's own key
    let sig = cert_signature(&a.cert_pem).unwrap();
    assert_eq!(sig.len(), 256);
    let pk = cert_public_key(&a.cert_pem).unwrap();
    let s = sign_sha256(a.private_key(), b"hello");
    assert!(verify_sha256(&pk, b"hello", &s));
    assert!(!verify_sha256(&pk, b"hellp", &s));
    assert_eq!(s, sign_sha256(b.private_key(), b"hello"));
    assert_eq!(s.len(), 256);
    assert_eq!(pk.n, a.private_key().n);
    assert_eq!(pk.e, a.private_key().e);
    // the same instant gives the same certificate, another one another
    let at = |t| self_signed_cert_at(&a.key_pem, "x", t).unwrap();
    assert_eq!(at(1_700_000_000), at(1_700_000_000));
    assert_ne!(at(1_700_000_000), at(1_700_000_001));
    assert_eq!(pem_to_der(&at(0)).unwrap()[0], 0x30);
}

#[test]
fn requests_carry_the_identity() {
    let id = identity();
    let uid = id.unique_id.clone();
    let pem = id.cert_pem.clone();
    let http = GsHttp::new(id);
    assert_eq!(
        http.url_with("http://h:1", "serverinfo", "", &[0xab, 1]),
        format!("http://h:1/serverinfo?uniqueid={uid}&uuid=ab01")
    );
    assert_eq!(
        http.url_with("http://h:1", "pair", "a=b", &[]),
        format!("http://h:1/pair?uniqueid={uid}&uuid=&a=b")
    );
    assert_ne!(http.url("b", "c", ""), http.url("b", "c", ""));
    let tls = http.tls_material(&pem).unwrap();
    assert!(tls.server.accepts(&pem_to_der(&pem).unwrap()));
    assert!(!tls.server.accepts(b"other"));
    assert_eq!(tls.client_certs.len(), 1);
    assert!(!tls.client_key.is_empty());
    assert!(http.tls_material("none").is_err());
}

#[test]
fn the_stand_in_pairs() {
    let id = identity();
    let mut a = FakeApollo::new(fake_host("0000"));
    let mut p = Pairing::new(id, "4711", None);
    let q = |args: &str| format!("uniqueid=x&{args}");
    let first = q(&p.start().args);
    assert!(a.take_parked("4711").is_none());
    assert!(matches!(a.pair(&first, false), FakePair::Park));
    assert!(a.take_parked("47").is_none());
    let parked = a.take_parked("4711").unwrap();
    assert_eq!(parked, first);
    assert!(a.take_parked("4711").is_none());
    let answer = |f: FakePair| match f {
        FakePair::Answer(b) => b,
        other => panic!("{other:?}"),
    };
    let mut body = answer(a.resume(&parked, "4711".into(), "Laptop".into()));
    while let Some(s) = p.next(&body).unwrap() {
        body = answer(a.pair_as(&q(&s.args), s.https, "uuid-1"));
    }
    assert!(p.is_complete());
    assert_eq!(a.clients().len(), 1);
    assert_eq!(a.clients()[0].name, JsonValue::Text("Laptop".into()));
    assert_eq!(a.clients()[0].perm, JsonValue::Number(0x0300_0000));
    assert!(a.applist().contains("Paired clients: 1<"));
    let change = |perm| ClientUpdate {
        name: None,
        perm: Some(perm),
        display_mode: None,
        enable_legacy_ordering: Some(JsonValue::Flag(false)),
        allow_client_commands: None,
        always_use_virtual_display: None,
    };
    assert!(!a.update_client("nobody", change(JsonValue::Number(1))));
    assert!(a.update_client("uuid-1", change(JsonValue::Number(7))));
    assert_eq!(a.clients()[0].perm, JsonValue::Number(7));
    assert_eq!(a.clients()[0].name, JsonValue::Text("Laptop".into()));
    assert_eq!(a.clients()[0].enable_legacy_ordering, JsonValue::Flag(false));
    assert_eq!(a.clients()[0].allow_client_commands, JsonValue::Flag(true));
    // a value of another kind is kept as it came
    assert!(a.update_client("uuid-1", change(JsonValue::Other("[1]".into()))));
    assert_eq!(a.clients()[0].perm, JsonValue::Other("[1]".into()));
    assert_eq!(
        answer(a.pair("x=1", false)),
        "<root status_code=\"400\" status_message=\"Missing uniqueid parameter\"/>"
    );
    assert!(matches!(a.pair("uniqueid=1&x=1", false), FakePair::Unexpected));
}

#[test]
fn generated_keys_sign() {
    let k = generate_key(512).unwrap();
    assert_eq!(k.n.len(), 64);
    let s = try_sign_sha256(&k, b"hello").unwrap();
    let public = RsaPublicKey { n: k.n.clone(), e: k.e.clone() };
    assert!(verify_sha256(&public, b"hello", &s));
    assert!(!verify_sha256(&public, b"hullo", &s));
    assert_ne!(generate_key(512).unwrap().n, k.n);
}

/// Modulus, private exponent and larger prime of a key whose other prime is 3.
const UNEVEN_KEY: [&str; 3] = [
    "028f363aca527faa22a1d2ee49406c6785db84cdf92f9bf0cd1c6d30517842f48fa663b0d1d93052da6b149622722fbe0a940d73a0f2023cbd22f9d820ce6584a6140ff828b15d552146b6db",
    "8ef64fde44cbf2f7d02eb1ac2d5b6491dcc9086c3e4ac7403f309a8cb18737ccd435b2521cbd4cdc0d909605a411436514282f3a4733dd198e5fccc7090c8b8f4a975ac2a8edeac79cf759",
    "da6768ee1b7fe360e09ba4c3157977d7492c44a86533faef0979bac5d2c0fc2fe2213af09dbac648ce5c320b7b653f58dc047be050ab699460fdf2b59a21d6e206affd62e5c9c70b179249",
];

#[test]
fn keys_with_uneven_primes_sign() {
    let b = |i: usize| hex::decode(UNEVEN_KEY[i]).unwrap();
    let k = |p, q| RsaPrivateKey { n: b(0), e: vec![1, 0, 1], d: b(1), p, q };
    let small_first = try_sign_sha256(&k(vec![3], b(2)), b"hello").unwrap();
    let large_first = try_sign_sha256(&k(b(2), vec![0, 3]), b"hello").unwrap();
    assert_eq!(small_first, large_first);
    assert_eq!(small_first.len(), b(0).len());
    let public = RsaPublicKey { n: b(0), e: vec![1, 0, 1] };
    assert!(verify_sha256(&public, b"hello", &small_first));
}

#[test]
fn certificates_need_dates_that_can_be_written() {
    let id = identity();
    let at = |t| self_signed_cert_at(&id.key_pem, "x", t).map(|_| ());
    let words = |t| at(t).unwrap_err().message();
    assert_eq!(words(i64::MAX), "identity: system clock out of range");
    assert_eq!(words(i64::MIN), "identity: system clock out of range");
    assert!(at(-62167132800).is_ok());
    assert_eq!(words(-62167132801), "identity: system clock out of range");
    assert!(at(252771580799).is_ok());
    assert_eq!(words(252771580800), "identity: system clock out of range");
    // the key is read first
    let no_key = self_signed_cert_at("k", "x", i64::MAX).unwrap_err().message();
    assert!(no_key.starts_with("identity: rcgen key: "));
    let made = Identity::from_key(key(&CLIENT_KEY), "u".into(), i64::MAX).map(|_| ());
    assert_eq!(made.unwrap_err().message(), "identity: system clock out of range");
}

#[test]
fn keys_come_in_two_layouts() {
    let id = identity();
    let k = rsa::RsaPrivateKey::from_pkcs8_pem(&id.key_pem).unwrap();
    let pkcs1 = k.to_pkcs1_pem(rsa::pkcs8::LineEnding::LF).unwrap().to_string();
    let again = Identity::from_pem("u".into(), id.cert_pem.clone(), pkcs1).unwrap();
    assert_eq!(again.private_key().d, id.private_key().d);
    assert_eq!(again.cert_hex(), hex::encode(&id.cert_pem));
}

/// The first of a few values made at the same time: how long a key takes is a matter
/// of luck.
fn first_of<T: Send + 'static>(make: fn() -> T) -> T {
    let rt = tokio::runtime::Builder::new_multi_thread().build().unwrap();
    let (tx, rx) = std::sync::mpsc::channel();
    for _ in 0..3 {
        let tx = tx.clone();
        rt.spawn_blocking(move || {
            let _ = tx.send(make());
        });
    }
    let first = rx.recv().unwrap();
    rt.shutdown_background();
    first
}

#[test]
fn a_generated_identity_pairs() {
    let id = first_of(|| Identity::generate().unwrap());
    assert_eq!(id.unique_id.len(), 16);
    assert_eq!(id.private_key().n.len(), 256);
    assert_eq!(sign_sha256(id.private_key(), b"hello").len(), 256);
    assert_eq!(cert_public_key(&id.cert_pem).unwrap().n, id.private_key().n);
    let der = pem_to_der(&id.cert_pem).unwrap();
    let (_, cert) = x509_parser::parse_x509_certificate(&der).unwrap();
    assert_eq!(cert.subject().to_string(), "CN=NVIDIA GameStream Client");
    let mut host = fake_host("1234");
    assert!(run(&mut host, Pairing::new(id, "1234", None)).is_ok());
}

#[test]
fn a_generated_host_pairs() {
    let mut host = first_of(|| FakeHost::new("1234").unwrap());
    assert_eq!(host.key.n.len(), 256);
    assert_eq!(cert_public_key(&host.cert_pem).unwrap().n, host.key.n);
    let der = pem_to_der(&host.cert_pem).unwrap();
    let (_, cert) = x509_parser::parse_x509_certificate(&der).unwrap();
    assert_eq!(cert.subject().to_string(), "CN=Sunshine Gamestream Host");
    assert!(run(&mut host, Pairing::new(identity(), "1234", None)).is_ok());
}
