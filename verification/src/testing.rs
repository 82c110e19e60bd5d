//! A simulated Apollo host: the *server* side of the pairing handshake. Used by
//! tests and by the fake host tool.

use vstd::prelude::*;
use vstd::string::StrSliceExecFns;
use vstd::string::StringExecFns;
use vstd::utf8::{decode_utf8, valid_utf8};
use crate::crypto::{
    aes_ecb_decrypt, aes_ecb_encrypt, aes_key_of, cert_public_key, cert_signature, derive_aes_key,
    ecb, ecb_inverse, first16, generate_key, lemma_joined_1, lemma_joined_3, public_key_of_cert,
    sha256, signature_by, signature_of_cert, try_sign_sha256, verify_sha256, whole_blocks,
};
use crate::error::{Error, ErrorView};
use crate::foreign::{
    fields_text, hex_decode, hex_decoded, hex_encode, hex_encode_upper, hex_of, pem_certs,
    rsa_accepts, rsa_to_pkcs8_pem, sha256_of, text_from_utf8, FlatXml, RsaPrivateKey, RsaPrivateView,
    RsaPublicView,
};
use crate::identity::{cert_made_at, key_and_cert, self_signed_cert, KEY_BITS};
use crate::pairing::{otpauth_of, OtpView, Step, StepView};
use crate::text::{
    before_first, bytes_eq, cat2, cat3, chars, chars_eq, has_prefix, str_eq, text_view, utf8,
};

verus! {

/// The common name in the certificate of a host.
pub const HOST_NAME: &'static str = "Sunshine Gamestream Host";

pub struct FakeHost {
    pub key: RsaPrivateKey,
    pub cert_pem: String,
    pub pin: String,
    pub aes_key: Option<[u8; 16]>,
    pub server_secret: [u8; 16],
    pub server_challenge: [u8; 16],
    pub client_cert_pem: Option<String>,
    pub client_hash: Vec<u8>,
    pub otp: Option<(String, String)>,
}

/// The state of a [`FakeHost`].
#[verifier::ext_equal]
pub struct FakeHostView {
    pub key: RsaPrivateView,
    pub cert_pem: Seq<char>,
    pub pin: Seq<char>,
    pub aes_key: Option<Seq<u8>>,
    pub server_secret: Seq<u8>,
    pub server_challenge: Seq<u8>,
    pub client_cert_pem: Option<Seq<char>>,
    pub client_hash: Seq<u8>,
    pub otp: Option<OtpView>,
}

impl View for FakeHost {
    type V = FakeHostView;

    open spec fn view(&self) -> FakeHostView {
        FakeHostView {
            key: self.key@,
            cert_pem: self.cert_pem@,
            pin: self.pin@,
            aes_key: match self.aes_key {
                Some(k) => Some(k@),
                None => None,
            },
            server_secret: self.server_secret@,
            server_challenge: self.server_challenge@,
            client_cert_pem: text_view(self.client_cert_pem),
            client_hash: self.client_hash@,
            otp: match self.otp {
                Some(o) => Some(OtpView { pin: o.0@, passphrase: o.1@ }),
                None => None,
            },
        }
    }
}

/// The fields of an answer: `paired`, and at most one more.
pub struct Reply {
    pub paired: bool,
    pub field: Option<(&'static str, String)>,
}

/// What a [`Reply`] holds.
#[verifier::ext_equal]
pub struct ReplyView {
    pub paired: bool,
    pub field: Option<(Seq<char>, Seq<char>)>,
}

impl View for Reply {
    type V = ReplyView;

    open spec fn view(&self) -> ReplyView {
        ReplyView {
            paired: self.paired,
            field: match self.field {
                Some(f) => Some((f.0@, f.1@)),
                None => None,
            },
        }
    }
}

impl ReplyView {
    /// The answer as a document.
    pub open spec fn document(self) -> FlatXml {
        let paired = (
            "paired"@,
            if self.paired {
                "1"@
            } else {
                "0"@
            },
        );
        FlatXml {
            root: "root"@,
            attribute: "status_code"@,
            value: "200"@,
            fields: match self.field {
                Some(f) => seq![paired, f],
                None => seq![paired],
            },
        }
    }

    /// The XML body for an answer.
    pub open spec fn xml(self) -> Seq<char> {
        self.document().text()
    }
}

impl Reply {
    /// The XML body for an answer.
    pub fn xml(&self) -> (r: String)
        ensures
            r@ == self@.xml(),
    {
        let digit = if self.paired {
            "1"
        } else {
            "0"
        };
        let mut s = cat3("<root status_code=\"200\"><paired>", digit, "</paired>");
        if let Some(f) = &self.field {
            s.append("<");
            s.append(f.0);
            s.append(">");
            s.append(f.1.as_str());
            s.append("</");
            s.append(f.0);
            s.append(">");
        }
        s.append("</root>");
        proof {
            reveal_strlit("<root status_code=\"200\"><paired>");
            reveal_strlit("</paired>");
            reveal_strlit("</root>");
            reveal_strlit("<");
            reveal_strlit(">");
            reveal_strlit("</");
            reveal_strlit(" ");
            reveal_strlit("=\"");
            reveal_strlit("\">");
            reveal_strlit("root");
            reveal_strlit("status_code");
            reveal_strlit("200");
            reveal_strlit("paired");
            reveal_strlit("1");
            reveal_strlit("0");
            reveal_with_fuel(fields_text, 3);
            let fields = self@.document().fields;
            if self.field is Some {
                assert(fields.drop_last() =~= seq![fields[0]]);
            }
            assert(seq![fields[0]].drop_last() =~= seq![]);
            assert(s@ =~= self@.xml());
        }
        s
    }
}

/// The value of `key` in a query string: the first `&`-separated piece that
/// starts with `key=`, without that start.
pub open spec fn param_of(args: Seq<char>, key: Seq<char>) -> Option<Seq<char>> {
    piece_after(args, key + "="@)
}

/// The rest of the first `&`-separated piece that starts with `start`.
pub open spec fn piece_after(args: Seq<char>, start: Seq<char>) -> Option<Seq<char>>
    decreases args.len(),
{
    let piece = before_first(args, '&');
    if has_prefix(piece, start) {
        Some(piece.skip(start.len() as int))
    } else if piece.len() >= args.len() {
        None
    } else {
        piece_after(args.skip(piece.len() as int + 1), start)
    }
}

/// What changes in the host with an answer.
enum HostUpdate {
    Unchanged,
    Keys { aes_key: [u8; 16], client_cert_pem: String },
    ClientHash(Vec<u8>),
}

impl FakeHostView {
    /// The answer to the first request; `None` where the request is malformed.
    pub open spec fn on_getservercert(self, args: Seq<char>) -> Option<(FakeHostView, ReplyView)> {
        match (param_of(args, "salt"@), param_of(args, "clientcert"@)) {
            (Some(salt_hex), Some(cert_hex)) => match (
                hex_decoded(utf8(salt_hex)),
                hex_decoded(utf8(cert_hex)),
            ) {
                (Ok(salt), Ok(cert)) => if salt.len() < 16 || !valid_utf8(cert) {
                    None
                } else {
                    match (param_of(args, "otpauth"@), self.otp) {
                        (Some(_), None) => None,
                        (otpauth, otp) => {
                            let pin = if otpauth is None {
                                self.pin
                            } else if otpauth == Some(otpauth_of(otp->0, salt_hex)) {
                                otp->0.pin
                            } else {
                                "9999"@
                            };
                            Some(
                                (
                                    FakeHostView {
                                        client_cert_pem: Some(decode_utf8(cert)),
                                        aes_key: Some(aes_key_of(salt.take(16), pin)),
                                        ..self
                                    },
                                    ReplyView {
                                        paired: true,
                                        field: Some(
                                            ("plaincert"@, hex_of(utf8(self.cert_pem))),
                                        ),
                                    },
                                ),
                            )
                        },
                    }
                },
                _ => None,
            },
            _ => None,
        }
    }

    /// What answers a client challenge: a hash bound to it, then our challenge.
    pub open spec fn challenge_answer(self, challenge: Seq<u8>) -> Seq<u8> {
        sha256_of(challenge + signature_of_cert(self.cert_pem)->Ok_0 + self.server_secret)
            + self.server_challenge
    }

    /// The answer to the client's challenge; `None` where there is no key yet or
    /// the request is malformed.
    pub open spec fn on_clientchallenge(self, value: Seq<char>) -> Option<
        (FakeHostView, ReplyView),
    > {
        match (self.aes_key, hex_decoded(utf8(value))) {
            (Some(key), Ok(enc)) => if !whole_blocks(enc.len()) || signature_of_cert(
                self.cert_pem,
            ) is Err {
                None
            } else {
                Some(
                    (
                        self,
                        ReplyView {
                            paired: true,
                            field: Some(
                                (
                                    "challengeresponse"@,
                                    hex_of(
                                        ecb(key, self.challenge_answer(ecb_inverse(key, enc))),
                                    ),
                                ),
                            ),
                        },
                    ),
                )
            },
            _ => None,
        }
    }

    /// The answer to the client's proof; `None` where there is no key yet, the
    /// request is malformed or our key cannot sign.
    pub open spec fn on_serverchallengeresp(self, value: Seq<char>) -> Option<
        (FakeHostView, ReplyView),
    > {
        match (self.aes_key, hex_decoded(utf8(value))) {
            (Some(key), Ok(enc)) => if !whole_blocks(enc.len()) || signature_by(
                self.key,
                self.server_secret,
            ) is None {
                None
            } else {
                Some(
                    (
                        FakeHostView { client_hash: ecb_inverse(key, enc), ..self },
                        ReplyView {
                            paired: true,
                            field: Some(
                                (
                                    "pairingsecret"@,
                                    hex_of(
                                        self.server_secret + signature_by(
                                            self.key,
                                            self.server_secret,
                                        )->0,
                                    ),
                                ),
                            ),
                        },
                    ),
                )
            },
            _ => None,
        }
    }

    /// The answer to the client's secret: paired, if the hash sent before matches
    /// and the client's key signed the secret. `None` where no client is known or
    /// the request is malformed.
    pub open spec fn on_clientpairingsecret(self, value: Seq<char>) -> Option<
        (FakeHostView, ReplyView),
    > {
        match (self.client_cert_pem, hex_decoded(utf8(value))) {
            (Some(pem), Ok(raw)) => match (signature_of_cert(pem), public_key_of_cert(pem)) {
                (Ok(sig), Ok(pk)) => if raw.len() < 16 || self.client_hash.len() < 32 {
                    None
                } else {
                    Some(
                        (
                            self,
                            ReplyView {
                                paired: sha256_of(self.server_challenge + sig + raw.take(16))
                                    == self.client_hash.take(32) && rsa_accepts(
                                    pk,
                                    raw.take(16),
                                    raw.skip(16),
                                ),
                                field: None,
                            },
                        ),
                    )
                },
                _ => None,
            },
            _ => None,
        }
    }

    /// The answer to a step and the state after it; `None` for a step that the
    /// host has no answer to.
    #[verifier::opaque]
    pub open spec fn respond(self, step: StepView) -> Option<(FakeHostView, ReplyView)> {
        let a = step.args;
        if step.https {
            Some((self, ReplyView { paired: true, field: None }))
        } else if param_of(a, "phrase"@) == Some("getservercert"@) {
            self.on_getservercert(a)
        } else if param_of(a, "clientchallenge"@) is Some {
            self.on_clientchallenge(param_of(a, "clientchallenge"@)->0)
        } else if param_of(a, "serverchallengeresp"@) is Some {
            self.on_serverchallengeresp(param_of(a, "serverchallengeresp"@)->0)
        } else if param_of(a, "clientpairingsecret"@) is Some {
            self.on_clientpairingsecret(param_of(a, "clientpairingsecret"@)->0)
        } else {
            None
        }
    }

    /// What an answer sends can be undone with the same AES key, and its signature
    /// verifies under the host's public key.
    pub open spec fn invertible(self, step: StepView) -> bool {
        let a = step.args;
        self.respond(step) is Some && !step.https && param_of(a, "phrase"@) != Some(
            "getservercert"@,
        ) ==> {
            if param_of(a, "clientchallenge"@) is Some {
                let key = self.aes_key->0;
                let out = self.challenge_answer(
                    ecb_inverse(key, hex_decoded(utf8(param_of(a, "clientchallenge"@)->0))->Ok_0),
                );
                out.len() == 48 && ecb_inverse(key, ecb(key, out)) == out
            } else {
                param_of(a, "serverchallengeresp"@) is Some ==> {
                    let sig = signature_by(self.key, self.server_secret)->0;
                    rsa_accepts(self.key.public(), self.server_secret, sig) && sig.len() > 0
                }
            }
        }
    }
}

impl FakeHost {
    /// A host with the given key and certificate that expects `pin`.
    pub fn with_key(key: RsaPrivateKey, cert_pem: String, pin: &str) -> (r: Self)
        ensures
            r@ == (FakeHostView {
                key: key@,
                cert_pem: cert_pem@,
                pin: pin@,
                aes_key: None,
                server_secret: Seq::new(16, |i: int| 3u8),
                server_challenge: Seq::new(16, |i: int| 4u8),
                client_cert_pem: None,
                client_hash: Seq::empty(),
                otp: None,
            }),
    {
        let r = FakeHost {
            key,
            cert_pem,
            pin: pin.to_owned(),
            aes_key: None,
            server_secret: [3u8; 16],
            server_challenge: [4u8; 16],
            client_cert_pem: None,
            client_hash: Vec::new(),
            otp: None,
        };
        assert(r@.server_secret =~= Seq::new(16, |i: int| 3u8));
        assert(r@.server_challenge =~= Seq::new(16, |i: int| 4u8));
        assert(r@.client_hash =~= Seq::empty());
        r
    }

    /// A host with a fresh key and a certificate for it that expects `pin`.
    pub fn new(pin: &str) -> (r: Result<Self, Error>)
        ensures
            match r {
                Ok(h) => {
                    &&& h@.pin == pin@
                    &&& h@.aes_key is None
                    &&& h@.server_secret == Seq::new(16, |i: int| 3u8)
                    &&& h@.server_challenge == Seq::new(16, |i: int| 4u8)
                    &&& h@.client_cert_pem is None
                    &&& h@.client_hash == Seq::<u8>::empty()
                    &&& h@.otp is None
                    &&& h@.key.minimal() && h@.key.n.len() == 256
                    &&& h@.cert_pem.len() > 0
                    &&& public_key_of_cert(h@.cert_pem) == Ok::<RsaPublicView, ErrorView>(
                        h@.key.public(),
                    )
                    &&& exists|now: int|
                        {
                            let made = #[trigger] key_and_cert(h@.key, HOST_NAME@, now);
                            &&& made is Ok
                            &&& pem_certs(h@.cert_pem) == Ok::<Seq<Seq<u8>>, Seq<char>>(
                                seq![(made->Ok_0).1],
                            )
                        }
                },
                Err(e) => exists|key: RsaPrivateView, now: int|
                    key.minimal() && key.n.len() == 256 && #[trigger] key_and_cert(
                        key,
                        HOST_NAME@,
                        now,
                    ) == Err::<(Seq<char>, Seq<u8>), ErrorView>(e@),
            },
    {
        let key = match generate_key(KEY_BITS) {
            Ok(k) => k,
            Err(e) => return Err(e),
        };
        let pem = match rsa_to_pkcs8_pem(&key) {
            Ok(p) => p,
            Err(e) => {
                let ghost made = key_and_cert(key@, HOST_NAME@, 0);
                return Err(Error::Identity(e));
            },
        };
        match self_signed_cert(pem.as_str(), HOST_NAME) {
            Ok(cert_pem) => {
                proof {
                    let now = choose|now: int|
                        {
                            let made = #[trigger] cert_made_at(pem@, HOST_NAME@, now);
                            made is Ok && pem_certs(cert_pem@) == Ok::<Seq<Seq<u8>>, Seq<char>>(
                                seq![made->Ok_0],
                            )
                        };
                    assert(key_and_cert(key@, HOST_NAME@, now) is Ok);
                }
                Ok(FakeHost::with_key(key, cert_pem, pin))
            },
            Err(e) => {
                proof {
                    let now = choose|now: int| #[trigger]
                        cert_made_at(pem@, HOST_NAME@, now) == Err::<Seq<u8>, ErrorView>(e@);
                    assert(key_and_cert(key@, HOST_NAME@, now) is Err);
                }
                Err(e)
            },
        }
    }

    /// The value of `key` in a query string.
    pub fn param<'a>(args: &'a str, key: &str) -> (r: Option<&'a str>)
        ensures
            match r {
                Some(v) => param_of(args@, key@) == Some(v@),
                None => param_of(args@, key@) is None,
            },
    {
        let v = chars(args);
        let start = cat2(key, "=");
        let w = chars(start.as_str());
        let mut from: usize = 0;
        assert(v@.skip(0) =~= v@);
        loop
            invariant
                v@ == args@,
                w@ == key@ + "="@,
                from <= v@.len(),
                param_of(args@, key@) == piece_after(v@.skip(from as int), w@),
            decreases v@.len() - from,
        {
            let ghost rest = v@.skip(from as int);
            let mut end: usize = from;
            assert(v@.subrange(from as int, from as int) + rest =~= rest);
            while end < v.len() && v[end] != '&'
                invariant
                    from <= end <= v@.len(),
                    rest == v@.skip(from as int),
                    before_first(rest, '&') =~= v@.subrange(from as int, end as int) + before_first(
                        v@.skip(end as int),
                        '&',
                    ),
                decreases v@.len() - end,
            {
                assert(v@.skip(end as int).drop_first() =~= v@.skip(end + 1));
                end += 1;
            }
            assert(before_first(rest, '&') =~= v@.subrange(from as int, end as int));
            if w.len() <= end - from {
                let same = chars_eq(
                    vstd::slice::slice_subrange(v.as_slice(), from, from + w.len()),
                    w.as_slice(),
                );
                proof {
                    let piece = v@.subrange(from as int, end as int);
                    assert(piece.take(w@.len() as int) =~= v@.subrange(
                        from as int,
                        from + w@.len(),
                    ));
                }
                if same {
                    assert(v@.subrange(from as int, end as int).skip(w@.len() as int)
                        =~= v@.subrange(from + w@.len(), end as int));
                    return Some(args.substring_char(from + w.len(), end));
                }
            }
            if end == v.len() {
                return None;
            }
            assert(rest.skip(end - from + 1) =~= v@.skip(end + 1));
            from = end + 1;
        }
    }

    /// The answer to the first request.
    fn on_getservercert(&self, args: &str) -> (r: Option<(HostUpdate, Reply)>)
        ensures
            respond_post(self@, self@.on_getservercert(args@), r),
    {
        let salt_hex = match FakeHost::param(args, "salt") {
            Some(s) => s,
            None => return None,
        };
        let cert_hex = match FakeHost::param(args, "clientcert") {
            Some(s) => s,
            None => return None,
        };
        let salt = match hex_decode(salt_hex) {
            Ok(b) => b,
            Err(_) => return None,
        };
        let cert = match hex_decode(cert_hex) {
            Ok(b) => b,
            Err(_) => return None,
        };
        if salt.len() < 16 {
            return None;
        }
        let salt16 = first16(salt.as_slice());
        let client_pem = match text_from_utf8(cert) {
            Ok(s) => s,
            Err(_) => return None,
        };
        proof {
            vstd::utf8::encode_utf8_decode_utf8(client_pem@);
        }
        let pin = match FakeHost::param(args, "otpauth") {
            None => self.pin.clone(),
            Some(otpauth) => match &self.otp {
                None => return None,
                Some((opin, pass)) => {
                    let parts = [
                        opin.as_str().as_bytes(),
                        salt_hex.as_bytes(),
                        pass.as_str().as_bytes(),
                    ];
                    let d = sha256(&parts);
                    proof {
                        lemma_joined_3(parts@);
                    }
                    let expect = hex_encode_upper(&d);
                    if str_eq(expect.as_str(), otpauth) {
                        opin.clone()
                    } else {
                        "9999".to_owned()  // wrong -> garbage pin

                    }
                },
            },
        };
        let aes_key = derive_aes_key(&salt16, pin.as_str());
        let plaincert = hex_encode(self.cert_pem.as_str().as_bytes());
        Some(
            (
                HostUpdate::Keys { aes_key, client_cert_pem: client_pem },
                Reply { paired: true, field: Some(("plaincert", plaincert)) },
            ),
        )
    }

    /// The answer to the client's challenge.
    fn on_clientchallenge(&self, value: &str) -> (r: Option<(HostUpdate, Reply)>)
        ensures
            respond_post(self@, self@.on_clientchallenge(value@), r),
            r is Some ==> {
                let key = self@.aes_key->0;
                let out = self@.challenge_answer(
                    ecb_inverse(key, hex_decoded(utf8(value@))->Ok_0),
                );
                out.len() == 48 && ecb_inverse(key, ecb(key, out)) == out
            },
    {
        let key = match self.aes_key {
            Some(k) => k,
            None => return None,
        };
        let enc = match hex_decode(value) {
            Ok(b) => b,
            Err(_) => return None,
        };
        let dec = match aes_ecb_decrypt(&key, enc.as_slice()) {
            Ok(d) => d,
            Err(_) => return None,
        };
        let sig = match cert_signature(self.cert_pem.as_str()) {
            Ok(s) => s,
            Err(_) => return None,
        };
        let mut msg: Vec<u8> = Vec::new();
        msg.extend_from_slice(dec.as_slice());
        msg.extend_from_slice(sig.as_slice());
        msg.extend_from_slice(&self.server_secret);
        let parts: [&[u8]; 1] = [msg.as_slice()];
        let hash = sha256(&parts);
        let mut out: Vec<u8> = Vec::new();
        out.extend_from_slice(&hash);
        out.extend_from_slice(&self.server_challenge);
        proof {
            lemma_joined_1(parts@);
            assert(msg@ =~= dec@ + sig@ + self.server_secret@);
            assert(out@ =~= self@.challenge_answer(dec@));
        }
        let reply = match aes_ecb_encrypt(&key, out.as_slice()) {
            Ok(c) => c,
            Err(_) => return None,
        };
        Some(
            (
                HostUpdate::Unchanged,
                Reply {
                    paired: true,
                    field: Some(("challengeresponse", hex_encode(reply.as_slice()))),
                },
            ),
        )
    }

    /// The answer to the client's proof.
    fn on_serverchallengeresp(&self, value: &str) -> (r: Option<(HostUpdate, Reply)>)
        ensures
            respond_post(self@, self@.on_serverchallengeresp(value@), r),
            r is Some ==> {
                let sig = signature_by(self@.key, self@.server_secret)->0;
                rsa_accepts(self@.key.public(), self@.server_secret, sig) && sig.len() > 0
            },
    {
        let key = match self.aes_key {
            Some(k) => k,
            None => return None,
        };
        let enc = match hex_decode(value) {
            Ok(b) => b,
            Err(_) => return None,
        };
        let dec = match aes_ecb_decrypt(&key, enc.as_slice()) {
            Ok(d) => d,
            Err(_) => return None,
        };
        let sig = match try_sign_sha256(&self.key, &self.server_secret) {
            Some(s) => s,
            None => return None,
        };
        let mut out: Vec<u8> = Vec::new();
        out.extend_from_slice(&self.server_secret);
        out.extend_from_slice(sig.as_slice());
        assert(out@ =~= self.server_secret@ + sig@);
        Some(
            (
                HostUpdate::ClientHash(dec),
                Reply { paired: true, field: Some(("pairingsecret", hex_encode(out.as_slice()))) },
            ),
        )
    }

    /// The answer to the client's secret.
    fn on_clientpairingsecret(&self, value: &str) -> (r: Option<(HostUpdate, Reply)>)
        ensures
            respond_post(self@, self@.on_clientpairingsecret(value@), r),
    {
        let raw = match hex_decode(value) {
            Ok(b) => b,
            Err(_) => return None,
        };
        let client_pem = match &self.client_cert_pem {
            Some(p) => p.as_str(),
            None => return None,
        };
        let client_sig = match cert_signature(client_pem) {
            Ok(s) => s,
            Err(_) => return None,
        };
        let client_key = match cert_public_key(client_pem) {
            Ok(k) => k,
            Err(_) => return None,
        };
        if raw.len() < 16 || self.client_hash.len() < 32 {
            return None;
        }
        let (secret, sig) = raw.as_slice().split_at(16);
        let (hash, _) = self.client_hash.as_slice().split_at(32);
        let parts: [&[u8]; 3] = [&self.server_challenge, client_sig.as_slice(), secret];
        let expect = sha256(&parts);
        proof {
            lemma_joined_3(parts@);
            assert(secret@ =~= raw@.take(16));
            assert(sig@ =~= raw@.skip(16));
            assert(hash@ =~= self.client_hash@.take(32));
        }
        let hash_ok = bytes_eq(&expect, hash);
        let sig_ok = verify_sha256(&client_key, secret, sig);
        Some((HostUpdate::Unchanged, Reply { paired: hash_ok && sig_ok, field: None }))
    }

    /// The answer to a step, with what changes in the host.
    fn respond(&self, step: &Step) -> (r: Option<(HostUpdate, Reply)>)
        ensures
            respond_post(self@, self@.respond(step@), r),
            self@.invertible(step@),
    {
        proof {
            reveal(FakeHostView::respond);
        }
        let a = step.args.as_str();
        if step.https {
            return Some((HostUpdate::Unchanged, Reply { paired: true, field: None }));
        }
        if let Some(phrase) = FakeHost::param(a, "phrase") {
            if str_eq(phrase, "getservercert") {
                return self.on_getservercert(a);
            }
        }
        if let Some(value) = FakeHost::param(a, "clientchallenge") {
            return self.on_clientchallenge(value);
        }
        if let Some(value) = FakeHost::param(a, "serverchallengeresp") {
            return self.on_serverchallengeresp(value);
        }
        if let Some(value) = FakeHost::param(a, "clientpairingsecret") {
            return self.on_clientpairingsecret(value);
        }
        None
    }

    /// Handle one client step and produce the XML body Apollo would send.
    pub fn handle(&mut self, step: &Step) -> (r: String)
        requires
            old(self)@.respond(step@) is Some,
        ensures
            final(self)@ == (old(self)@.respond(step@)->0).0,
            r@ == (old(self)@.respond(step@)->0).1.xml(),
            old(self)@.invertible(step@),
    {
        match self.respond(step) {
            None => String::new(),
            Some((update, reply)) => {
                match update {
                    HostUpdate::Unchanged => {},
                    HostUpdate::Keys { aes_key, client_cert_pem } => {
                        self.aes_key = Some(aes_key);
                        self.client_cert_pem = Some(client_cert_pem);
                    },
                    HostUpdate::ClientHash(h) => {
                        self.client_hash = h;
                    },
                }
                reply.xml()
            },
        }
    }

    /// Dispatch a raw `/pair` query string (without the leading `?`).
    pub fn handle_query(&mut self, query: &str, https: bool) -> (r: String)
        requires
            old(self)@.respond(StepView { args: query@, https }) is Some,
        ensures
            final(self)@ == (old(self)@.respond(StepView { args: query@, https })->0).0,
            r@ == (old(self)@.respond(StepView { args: query@, https })->0).1.xml(),
    {
        let step = Step { args: query.to_owned(), https };
        self.handle(&step)
    }

    /// As [`FakeHost::handle`], for any step: `None`, with the host unchanged,
    /// where the host has no answer.
    pub fn try_handle(&mut self, step: &Step) -> (r: Option<String>)
        ensures
            match r {
                Some(body) => {
                    let answer = old(self)@.respond(step@);
                    &&& answer is Some
                    &&& final(self)@ == (answer->0).0
                    &&& body@ == (answer->0).1.xml()
                },
                None => old(self)@.respond(step@) is None && final(self)@ == old(self)@,
            },
            old(self)@.invertible(step@),
    {
        match self.respond(step) {
            None => None,
            Some(_) => Some(self.handle(step)),
        }
    }

    /// As [`FakeHost::handle_query`], for any query: `None`, with the host
    /// unchanged, where the host has no answer.
    pub fn try_handle_query(&mut self, query: &str, https: bool) -> (r: Option<String>)
        ensures
            match r {
                Some(body) => {
                    let answer = old(self)@.respond(StepView { args: query@, https });
                    &&& answer is Some
                    &&& final(self)@ == (answer->0).0
                    &&& body@ == (answer->0).1.xml()
                },
                None => {
                    &&& old(self)@.respond(StepView { args: query@, https }) is None
                    &&& final(self)@ == old(self)@
                },
            },
    {
        let step = Step { args: query.to_owned(), https };
        match self.respond(&step) {
            None => None,
            Some(_) => Some(self.handle_query(query, https)),
        }
    }
}

/// The state of a host after a change.
spec fn updated(host: FakeHostView, update: HostUpdate) -> FakeHostView {
    match update {
        HostUpdate::Unchanged => host,
        HostUpdate::Keys { aes_key, client_cert_pem } => FakeHostView {
            aes_key: Some(aes_key@),
            client_cert_pem: Some(client_cert_pem@),
            ..host
        },
        HostUpdate::ClientHash(h) => FakeHostView { client_hash: h@, ..host },
    }
}

/// Whether a change and a reply are the expected answer.
spec fn respond_post(
    host: FakeHostView,
    answer: Option<(FakeHostView, ReplyView)>,
    r: Option<(HostUpdate, Reply)>,
) -> bool {
    match r {
        Some((update, reply)) => answer == Some((updated(host, update), reply@)),
        None => answer is None,
    }
}

} // verus!
