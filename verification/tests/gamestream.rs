use remote_access::apps::{parse_applist, App};
use remote_access::crypto::{
    aes_ecb_decrypt, aes_ecb_encrypt, cert_public_key, cert_signature, derive_aes_key, pem_to_der,
    try_sign_sha256,
};
use remote_access::error::Error;
use remote_access::foreign::RsaPrivateKey;
use remote_access::http::{http_timeout_secs, HostAddr};
use remote_access::nesting::{is_shallow, MAX_NESTING};
use remote_access::identity::{random_unique_id, self_signed_cert, Identity};
use remote_access::serverinfo::ServerInfo;
use remote_access::xml::Root;
use sha2::{Digest, Sha256};

#[test]
fn parses_apps() {
    let xml = r#"<root status_code="200">
<App><IsHdrSupported>1</IsHdrSupported><AppTitle>Desktop</AppTitle><UUID>abc</UUID><IDX>0</IDX><ID>1</ID></App>
<App><IsHdrSupported>0</IsHdrSupported><AppTitle>&#8203;Steam</AppTitle><ID>2</ID></App>
</root>"#;
    let apps = parse_applist(xml).unwrap();
    assert_eq!(apps.len(), 2);
    assert_eq!(
        apps[0],
        App { id: 1, title: "Desktop".into(), hdr_supported: true, uuid: Some("abc".into()) }
    );
    assert_eq!(apps[1].title, "Steam");
}

#[test]
fn aes_roundtrip_and_length_check() {
    let key = derive_aes_key(&[7u8; 16], "1234");
    let pt = [1u8; 48];
    let ct = aes_ecb_encrypt(&key, &pt).unwrap();
    assert_ne!(ct, pt);
    assert_eq!(aes_ecb_decrypt(&key, &ct).unwrap(), pt);
    assert!(aes_ecb_encrypt(&key, &[0u8; 20]).is_err());
}

#[test]
fn derive_key_matches_moonlight_layout() {
    // salt || "1234" hashed with SHA-256, truncated to 16 bytes.
    let salt = [0xABu8; 16];
    let mut expect = Sha256::new();
    expect.update(salt);
    expect.update(b"1234");
    let d: [u8; 32] = expect.finalize().into();
    assert_eq!(derive_aes_key(&salt, "1234"), d[..16]);
}

#[test]
fn parses_apollo_like_serverinfo() {
    let xml = r#"<?xml version="1.0" encoding="utf-8"?>
<root status_code="200"><hostname>Gaming-PC</hostname><appversion>7.1.431.-1</appversion>
<GfeVersion>3.23.0.74</GfeVersion><uniqueid>7f2b0c3a-1111-2222-3333-444455556666</uniqueid>
<HttpsPort>47984</HttpsPort><ExternalPort>47989</ExternalPort><MaxLumaPixelsHEVC>1869449984</MaxLumaPixelsHEVC>
<mac>00:00:00:00:00:00</mac><LocalIP>192.168.1.50</LocalIP><ServerCodecModeSupport>259</ServerCodecModeSupport>
<PairStatus>0</PairStatus><currentgame>0</currentgame><state>SUNSHINE_SERVER_FREE</state></root>"#;
    let si = ServerInfo::parse(xml).unwrap();
    assert_eq!(si.hostname, "Gaming-PC");
    assert_eq!(si.major_version(), 7);
    assert_eq!(si.https_port, 47984);
    assert_eq!(si.local_ip.as_deref(), Some("192.168.1.50"));
    assert!(si.mac.is_none());
    assert!(!si.paired);
    assert!(!si.is_busy());
    assert!(si.is_sunshine_family());
}

#[test]
fn parses_ok_and_error() {
    let ok = r#"<?xml version="1.0"?><root status_code="200"><paired>1</paired></root>"#;
    assert_eq!(Root::parse(ok).unwrap().child("paired"), Some("1"));
    let bad = r#"<root status_code="403" status_message="Pairing is disabled"/>"#;
    match Root::parse(bad).map(|_| ()) {
        Err(Error::Status { code: 403, message }) => assert_eq!(message, "Pairing is disabled"),
        other => panic!("unexpected {other:?}"),
    }
}

#[test]
fn deep_documents_are_refused() {
    let nested = |n: usize| {
        let inner = "<a b='/>'>".repeat(n - 1) + &"</a>".repeat(n - 1);
        Root::parse(&format!("<root status_code=\"200\">{inner}</root>")).map(|_| ())
    };
    assert!(nested(MAX_NESTING).is_ok());
    assert_eq!(nested(MAX_NESTING + 1).unwrap_err().message(), "xml: elements nested too deeply");
    assert!(nested(10_000).is_err());
    // what only looks like a tag does not count
    let odd = "<!-- </a> --><![CDATA[</a>]]><?p </a>?><a>".repeat(MAX_NESTING + 1);
    assert!(!is_shallow(&odd));
    let flat = "<a/><!-- <b> --><![CDATA[<b>]]><?p <b>?><a></a>".repeat(1000);
    assert!(is_shallow(&flat));
    assert!(Root::parse(&format!("<root status_code=\"200\">{flat}</root>")).is_ok());
}

#[test]
fn xml_corner_cases() {
    let words = |s: &str| Root::parse(s).map(|_| ()).unwrap_err().message();
    assert_eq!(words("<other/>"), "xml: unexpected root element <other>");
    assert_eq!(words("<root/>"), "server returned status 0: ");
    assert_eq!(words("<root status_code=\"-7\"/>"), "server returned status -7: ");
    assert_eq!(words("<root status_code=\"+200 \"/>"), "server returned status 0: ");
    assert!(words("<root").starts_with("xml: "));
    assert!(Root::parse("<root status_code=\"+200\"/>").is_ok());
    // an attribute of another namespace does not count
    assert_eq!(
        words("<root xmlns:a=\"b\" a:status_code=\"200\"/>"),
        "server returned status 0: "
    );
    let r = Root::parse(
        "<!-- c --><root status_code=\"200\"><x><a>inner</a></x><a/><a>second</a><b><c/>t</b></root>",
    )
    .unwrap();
    // only direct children count, and the first of them
    assert_eq!(r.child("a"), None);
    assert_eq!(r.child("b"), None);
    assert_eq!(r.child("x"), None);
    assert_eq!(r.require("zzz").unwrap_err().message(), "missing field zzz in response");
}

#[test]
fn serverinfo_corner_cases() {
    let body = "<root status_code=\"200\"><hostname>  </hostname><HttpsPort>70000</HttpsPort><ExternalPort>x</ExternalPort><LocalIP>127.0.0.1</LocalIP><mac>aa:bb</mac><PairStatus> 1 </PairStatus><state>SUNSHINE_SERVER_BUSY</state><Permission>7</Permission><VirtualDisplayCapable>0</VirtualDisplayCapable></root>";
    let si = ServerInfo::parse(body).unwrap();
    assert_eq!(si.hostname, "");
    assert_eq!(si.https_port, 4464);
    assert_eq!(si.external_port, None);
    assert_eq!(si.local_ip, None);
    assert_eq!(si.mac.as_deref(), Some("aa:bb"));
    assert!(si.paired && si.is_busy());
    assert_eq!(si.permission, Some(7));
    assert_eq!(si.virtual_display_capable, Some(false));
    assert_eq!(si.major_version(), 0);
    assert_eq!(si.current_game, 0);
    let si = ServerInfo::parse("<root status_code=\"200\"><state>MJOLNIR_X</state></root>").unwrap();
    assert!(!si.is_sunshine_family());
    assert_eq!(si.https_port, 47984);
    assert_eq!(ServerInfo::default().https_port, 0);
}

#[test]
fn app_corner_cases() {
    let apps = parse_applist(
        "<root status_code=\"200\"><App><AppTitle> a\u{feff}b </AppTitle><ID> 4294967295 </ID></App><App><ID>4294967296</ID></App><x><App/></x></root>",
    )
    .unwrap();
    assert_eq!(apps.len(), 2);
    assert_eq!(apps[0].title, "ab");
    assert_eq!(apps[0].id, 4294967295);
    assert_eq!(apps[1], App { id: 0, title: "".into(), hdr_supported: false, uuid: None });
}

#[test]
fn aes_has_a_known_value() {
    // FIPS-197, appendix C.1.
    let key = [0u8, 1, 2, 3, 4, 5, 6, 7, 8, 9, 10, 11, 12, 13, 14, 15];
    let pt = [
        0x00u8, 0x11, 0x22, 0x33, 0x44, 0x55, 0x66, 0x77, 0x88, 0x99, 0xaa, 0xbb, 0xcc, 0xdd, 0xee,
        0xff,
    ];
    let ct = [
        0x69u8, 0xc4, 0xe0, 0xd8, 0x6a, 0x7b, 0x04, 0x30, 0xd8, 0xcd, 0xb7, 0x80, 0x70, 0xb4, 0xc5,
        0x5a,
    ];
    assert_eq!(aes_ecb_encrypt(&key, &pt).unwrap(), ct);
    assert_eq!(aes_ecb_decrypt(&key, &ct).unwrap(), pt);
    assert_eq!(
        aes_ecb_decrypt(&key, &[]).unwrap_err().message(),
        "crypto: AES-ECB input length 0 is not a multiple of 16"
    );
}

#[test]
fn certificates_that_are_none_are_refused() {
    assert_eq!(pem_to_der("nothing").unwrap_err().message(), "crypto: no certificate found in PEM");
    let bad = "-----BEGIN CERTIFICATE-----\nAAAA\n-----END CERTIFICATE-----\n";
    assert_eq!(pem_to_der(bad).unwrap(), [0, 0, 0]);
    assert!(cert_signature(bad).unwrap_err().message().starts_with("crypto: x509 parse: "));
    assert!(cert_public_key(bad).is_err());
    assert!(Identity::from_pem("u".into(), "c".into(), "k".into())
        .map(|_| ())
        .unwrap_err()
        .message()
        .starts_with("identity: private key: "));
    assert!(self_signed_cert("k", "n").unwrap_err().message().starts_with("identity: rcgen key: "));
    let tiny =
        RsaPrivateKey { n: vec![15], e: vec![3], d: vec![3], p: vec![3], q: vec![5] };
    assert!(try_sign_sha256(&tiny, b"x").is_none());
}

#[test]
fn addresses_and_urls() {
    let a = HostAddr::new("10.0.0.1", 47989);
    assert_eq!(a.https_port, 47984);
    assert_eq!(a.http_base(), "http://10.0.0.1:47989");
    assert_eq!(a.https_base(), "https://10.0.0.1:47984");
    assert_eq!(HostAddr::new("::1", 2).https_port, 65533);
    assert_eq!(HostAddr::new("::1", 2).http_base(), "http://[::1]:2");
    assert_eq!(HostAddr::new("[::1]", 2).http_base(), "http://[::1]:2");
    assert_eq!(http_timeout_secs(None), None);
    assert_eq!(http_timeout_secs(Some(3)), Some(3));
    assert_eq!(random_unique_id().len(), 16);
    let dir = |r, h, u| Identity::default_dir(r, h, u, '/');
    assert_eq!(dir(Some("/r"), Some("/h"), None), "/r/identity");
    assert_eq!(dir(None, Some("/h"), Some("/u")), "/h/.config/remote-access/identity");
    assert_eq!(dir(None, None, Some("/u")), "/u/.config/remote-access/identity");
    assert_eq!(dir(None, None, None), "./.config/remote-access/identity");
}
