//! The GameStream pairing handshake, as a pure state machine plus the decisions
//! of the loop that drives it over the network.
//!
//! Sequence (all over plain HTTP except the last step):
//!
//! ```text
//! 1. /pair?phrase=getservercert&salt=S&clientcert=C[&otpauth=O]   -> plaincert
//! 2. /pair?clientchallenge=AES(rand16)                            -> challengeresponse
//! 3. /pair?serverchallengeresp=AES(SHA256(sChal||sig(ourCert)||cSecret)) -> pairingsecret
//! 4. /pair?clientpairingsecret=cSecret||RSA(cSecret)              -> paired
//! 5. https /pair?phrase=pairchallenge                              -> paired
//! ```
//!
//! Apollo's `otpauth` lets a caller who knows a one-time PIN and passphrase
//! pair without anyone typing the PIN into the web UI:
//! `otpauth = UPPERHEX(SHA256(pin || salt_hex_string || passphrase))`.

use vstd::prelude::*;
use vstd::string::StringExecFns;
use vstd::utf8::{decode_utf8, valid_utf8};
use crate::crypto::{
    aes_ecb_decrypt, aes_ecb_encrypt, aes_key_of, block_len_error, cert_public_key, cert_signature,
    derive_aes_key, ecb, ecb_inverse, first16, lemma_joined_1, lemma_joined_3, public_key_of_cert,
    sha256, sign_sha256, signature_by, signature_of_cert, try_sign_sha256, verify_sha256,
    whole_blocks,
};
use crate::error::{Error, ErrorView, PairError, PairErrorView};
use crate::foreign::{
    hex_decode, hex_decoded, hex_encode, hex_encode_upper, hex_of, hex_upper_of, random_bytes,
    rsa_accepts, sha256_of, text_from_utf8, utf8_error,
};
use crate::identity::{Identity, IdentityView};
use crate::text::{
    bytes_eq, cat2, cat3, chars, decimal, decimal_text, str_eq, text_view, trim, trimmed, utf8,
};
use crate::xml::{flat_parses, root_of, Root, RootView};

verus! {

/// Apollo one-time-PIN credentials obtained from `POST /api/otp`.
#[derive(Debug)]
pub struct OtpAuth {
    pub pin: String,
    pub passphrase: String,
}

impl Clone for OtpAuth {
    fn clone(&self) -> (r: Self)
        ensures
            r == *self,
    {
        OtpAuth { pin: self.pin.clone(), passphrase: self.passphrase.clone() }
    }
}

/// What an [`OtpAuth`] holds.
pub struct OtpView {
    pub pin: Seq<char>,
    pub passphrase: Seq<char>,
}

impl View for OtpAuth {
    type V = OtpView;

    open spec fn view(&self) -> OtpView {
        OtpView { pin: self.pin@, passphrase: self.passphrase@ }
    }
}

/// What optional credentials hold.
pub open spec fn otp_view(otp: Option<OtpAuth>) -> Option<OtpView> {
    match otp {
        Some(o) => Some(o@),
        None => None,
    }
}

#[derive(Debug)]
pub struct PairOutcome {
    pub server_cert_pem: String,
}

impl Clone for PairOutcome {
    fn clone(&self) -> (r: Self)
        ensures
            r == *self,
    {
        PairOutcome { server_cert_pem: self.server_cert_pem.clone() }
    }
}

/// Query-string fragment for step N, produced by the state machine.
#[derive(Debug, PartialEq, Eq)]
pub struct Step {
    pub args: String,
    /// True for the final `pairchallenge` step which must go over HTTPS.
    pub https: bool,
}

impl Clone for Step {
    fn clone(&self) -> (r: Self)
        ensures
            r == *self,
    {
        Step { args: self.args.clone(), https: self.https }
    }
}

/// What a [`Step`] holds.
#[verifier::ext_equal]
pub struct StepView {
    pub args: Seq<char>,
    pub https: bool,
}

impl View for Step {
    type V = StepView;

    open spec fn view(&self) -> StepView {
        StepView { args: self.args@, https: self.https }
    }
}

/// The state of a handshake.
#[verifier::ext_equal]
pub struct PairingView {
    pub identity: IdentityView,
    pub pin: Seq<char>,
    pub salt: Seq<u8>,
    pub aes_key: Seq<u8>,
    pub rand_challenge: Seq<u8>,
    pub client_secret: Seq<u8>,
    pub server_cert_pem: Option<Seq<char>>,
    pub server_response: Seq<u8>,
    pub phase: u8,
    pub otp: Option<OtpView>,
}

/// Pure pairing state machine. Feed each server response body into `next`.
pub struct Pairing {
    identity: Identity,
    pin: String,
    salt: [u8; 16],
    aes_key: [u8; 16],
    rand_challenge: [u8; 16],
    client_secret: [u8; 16],
    server_cert_pem: Option<String>,
    server_response: Vec<u8>,
    phase: u8,
    otp: Option<OtpAuth>,
}

impl View for Pairing {
    type V = PairingView;

    closed spec fn view(&self) -> PairingView {
        PairingView {
            identity: self.identity@,
            pin: self.pin@,
            salt: self.salt@,
            aes_key: self.aes_key@,
            rand_challenge: self.rand_challenge@,
            client_secret: self.client_secret@,
            server_cert_pem: text_view(self.server_cert_pem),
            server_response: self.server_response@,
            phase: self.phase,
            otp: otp_view(self.otp),
        }
    }
}

/// `UPPERHEX(SHA256(pin || salt_hex_string || passphrase))`.
pub open spec fn otpauth_of(otp: OtpView, salt_hex: Seq<char>) -> Seq<char> {
    hex_upper_of(sha256_of(utf8(otp.pin) + utf8(salt_hex) + utf8(otp.passphrase)))
}

/// Whether a response says `paired=1`.
pub open spec fn says_paired(root: RootView) -> bool {
    match root.child("paired"@) {
        Some(t) => trimmed(t) == "1"@,
        None => false,
    }
}

/// The bytes of a field in hexadecimal that must be there.
pub open spec fn hex_field(root: RootView, name: Seq<char>) -> Result<Seq<u8>, ErrorView> {
    match root.child(name) {
        None => Err(ErrorView::Missing(name)),
        Some(t) => match hex_decoded(utf8(trimmed(t))) {
            Err(e) => Err(ErrorView::Hex(e)),
            Ok(b) => Ok(b),
        },
    }
}

/// The arguments of a step that sends `value` as `name`.
pub open spec fn step_args(name: Seq<char>, value: Seq<u8>) -> Seq<char> {
    "devicename=roth&updateState=1&"@ + name + hex_of(value)
}

impl PairingView {
    /// The salt as text, the AES key that belongs to it, and a server certificate
    /// from the second step on.
    pub open spec fn wf(self) -> bool {
        &&& self.salt.len() == 16
        &&& self.rand_challenge.len() == 16
        &&& self.client_secret.len() == 16
        &&& self.aes_key == aes_key_of(self.salt, self.pin)
        &&& self.aes_key.len() == 16
        &&& self.phase <= 5
        &&& self.phase > 0 ==> self.server_cert_pem is Some
    }

    /// The first request.
    pub open spec fn start(self) -> StepView {
        let args = "devicename=roth&updateState=1&phrase=getservercert&salt="@ + hex_of(self.salt)
            + "&clientcert="@ + hex_of(utf8(self.identity.cert_pem));
        StepView {
            args: match self.otp {
                Some(o) => args + "&otpauth="@ + otpauth_of(o, hex_of(self.salt)),
                None => args,
            },
            https: false,
        }
    }

    /// The server certificate in a response to the first request.
    pub open spec fn server_cert(self, root: RootView) -> Result<Seq<char>, ErrorView> {
        let plaincert = match root.child("plaincert"@) {
            Some(t) => trimmed(t),
            None => trimmed(""@),
        };
        if plaincert.len() == 0 {
            Err(ErrorView::Pair(PairErrorView::AlreadyInProgress))
        } else {
            match hex_decoded(utf8(plaincert)) {
                Err(e) => Err(ErrorView::Hex(e)),
                Ok(b) => if valid_utf8(b) {
                    Ok(decode_utf8(b))
                } else {
                    Err(
                        ErrorView::Pair(
                            PairErrorView::Malformed("plaincert utf8: "@ + utf8_error(b)),
                        ),
                    )
                },
            }
        }
    }

    /// The first answer: take the certificate, send the encrypted challenge.
    pub open spec fn on_cert(self, root: RootView) -> (
        PairingView,
        Result<Option<StepView>, ErrorView>,
    ) {
        match self.server_cert(root) {
            Err(e) => (self, Err(e)),
            Ok(pem) => (
                PairingView { server_cert_pem: Some(pem), phase: 1, ..self },
                Ok(
                    Some(
                        StepView {
                            args: step_args(
                                "clientchallenge="@,
                                ecb(self.aes_key, self.rand_challenge),
                            ),
                            https: false,
                        },
                    ),
                ),
            ),
        }
    }

    /// The decrypted challenge response: the server's hash, then its challenge.
    pub open spec fn challenge_reply(self, root: RootView) -> Result<Seq<u8>, ErrorView> {
        match hex_field(root, "challengeresponse"@) {
            Err(e) => Err(e),
            Ok(enc) => if !whole_blocks(enc.len()) {
                Err(block_len_error(enc.len()))
            } else if enc.len() < 48 {
                Err(
                    ErrorView::Pair(
                        PairErrorView::Malformed(
                            "challengeresponse is "@ + decimal(enc.len())
                                + " bytes, expected >= 48"@,
                        ),
                    ),
                )
            } else {
                Ok(ecb_inverse(self.aes_key, enc))
            },
        }
    }

    /// `SHA256(sChal || sig(ourCert) || cSecret)`.
    pub open spec fn client_hash(self, server_challenge: Seq<u8>, our_sig: Seq<u8>) -> Seq<u8> {
        sha256_of(server_challenge + our_sig + self.client_secret)
    }

    /// The second answer: keep the server's hash, prove knowledge of the PIN.
    pub open spec fn on_challenge(self, root: RootView) -> (
        PairingView,
        Result<Option<StepView>, ErrorView>,
    ) {
        match self.challenge_reply(root) {
            Err(e) => (self, Err(e)),
            Ok(dec) => {
                let kept = PairingView { server_response: dec.take(32), ..self };
                match signature_of_cert(self.identity.cert_pem) {
                    Err(e) => (kept, Err(e)),
                    Ok(our_sig) => (
                        PairingView { phase: 2, ..kept },
                        Ok(
                            Some(
                                StepView {
                                    args: step_args(
                                        "serverchallengeresp="@,
                                        ecb(
                                            self.aes_key,
                                            self.client_hash(dec.subrange(32, 48), our_sig),
                                        ),
                                    ),
                                    https: false,
                                },
                            ),
                        ),
                    ),
                }
            },
        }
    }

    /// What the third answer must show: a secret signed by the server's key, and
    /// a hash that only a holder of the PIN could have sent before.
    pub open spec fn server_check(self, root: RootView) -> Result<(), ErrorView> {
        match hex_field(root, "pairingsecret"@) {
            Err(e) => Err(e),
            Ok(secret) => if secret.len() <= 16 {
                Err(ErrorView::Pair(PairErrorView::Malformed("pairingsecret too short"@)))
            } else {
                let pem = self.server_cert_pem->0;
                match public_key_of_cert(pem) {
                    Err(e) => Err(e),
                    Ok(pk) => if !rsa_accepts(pk, secret.take(16), secret.skip(16)) {
                        Err(ErrorView::Pair(PairErrorView::BadServerSignature))
                    } else {
                        match signature_of_cert(pem) {
                            Err(e) => Err(e),
                            Ok(sig) => if sha256_of(self.rand_challenge + sig + secret.take(16))
                                != self.server_response {
                                Err(ErrorView::Pair(PairErrorView::WrongPin))
                            } else {
                                Ok(())
                            },
                        }
                    },
                }
            },
        }
    }

    /// The third answer: check the server, send our secret with its signature.
    pub open spec fn on_secret(self, root: RootView) -> (
        PairingView,
        Result<Option<StepView>, ErrorView>,
    ) {
        match self.server_check(root) {
            Err(e) => (self, Err(e)),
            Ok(_) => (
                PairingView { phase: 3, ..self },
                Ok(
                    Some(
                        StepView {
                            args: step_args(
                                "clientpairingsecret="@,
                                self.client_secret + signature_by(
                                    self.identity.key,
                                    self.client_secret,
                                )->0,
                            ),
                            https: false,
                        },
                    ),
                ),
            ),
        }
    }

    /// What a response does: the new state, and the next step, or `None` when
    /// pairing is complete.
    pub open spec fn advance(self, root: RootView) -> (
        PairingView,
        Result<Option<StepView>, ErrorView>,
    ) {
        if !says_paired(root) {
            (self, Err(ErrorView::Pair(PairErrorView::NotPaired)))
        } else if self.phase == 0 {
            self.on_cert(root)
        } else if self.phase == 1 {
            self.on_challenge(root)
        } else if self.phase == 2 {
            self.on_secret(root)
        } else if self.phase == 3 {
            (
                PairingView { phase: 4, ..self },
                Ok(
                    Some(
                        StepView {
                            args: "devicename=roth&updateState=1&phrase=pairchallenge"@,
                            https: true,
                        },
                    ),
                ),
            )
        } else {
            (PairingView { phase: 5, ..self }, Ok(None))
        }
    }

    /// What a response body does.
    #[verifier::opaque]
    pub open spec fn next(self, body: Seq<char>) -> (
        PairingView,
        Result<Option<StepView>, ErrorView>,
    ) {
        match root_of(body) {
            Err(e) => (self, Err(e)),
            Ok(root) => self.advance(root),
        }
    }

    /// Whether a response leads to a signature with the client's key.
    pub open spec fn signs(self, root: RootView) -> bool {
        self.phase == 2 && says_paired(root) && self.server_check(root) is Ok
    }

    /// Whether a response leads to a signature that the client's key cannot make.
    pub open spec fn stuck(self, root: RootView) -> bool {
        self.signs(root) && signature_by(self.identity.key, self.client_secret) is None
    }

    /// What a step sends can be undone with the same AES key, and its signature
    /// verifies under the client's public key.
    pub open spec fn invertible(self, root: RootView) -> bool {
        &&& self.phase == 0 && self.advance(root).1 is Ok ==> ecb_inverse(
            self.aes_key,
            ecb(self.aes_key, self.rand_challenge),
        ) == self.rand_challenge
        &&& self.phase == 1 && self.advance(root).1 is Ok ==> {
            let hash = self.client_hash(
                self.challenge_reply(root)->Ok_0.subrange(32, 48),
                signature_of_cert(self.identity.cert_pem)->Ok_0,
            );
            hash.len() == 32 && ecb_inverse(self.aes_key, ecb(self.aes_key, hash)) == hash
        }
        &&& self.phase == 2 && self.advance(root).1 is Ok ==> rsa_accepts(
            self.identity.key.public(),
            self.client_secret,
            signature_by(self.identity.key, self.client_secret)->0,
        )
    }
}

/// What a step or an error is.
pub open spec fn step_result(r: Result<Option<Step>, Error>) -> Result<
    Option<StepView>,
    ErrorView,
> {
    match r {
        Ok(Some(s)) => Ok(Some(s@)),
        Ok(None) => Ok(None),
        Err(e) => Err(e@),
    }
}

/// The bytes of a hexadecimal field that must be there.
fn read_hex(root: &Root, name: &'static str) -> (r: Result<Vec<u8>, Error>)
    ensures
        match r {
            Ok(b) => hex_field(root@, name@) == Ok::<Seq<u8>, ErrorView>(b@),
            Err(e) => hex_field(root@, name@) == Err::<Seq<u8>, ErrorView>(e@),
        },
{
    let text = match root.require(name) {
        Ok(t) => trim(t),
        Err(e) => return Err(e),
    };
    match hex_decode(text.as_str()) {
        Ok(b) => Ok(b),
        Err(e) => Err(Error::Hex(e)),
    }
}

/// The step that sends `value` as `name`.
fn hex_step(name: &str, value: &[u8]) -> (r: Step)
    ensures
        r@ == (StepView { args: step_args(name@, value@), https: false }),
{
    let hex = hex_encode(value);
    Step { args: cat3("devicename=roth&updateState=1&", name, hex.as_str()), https: false }
}

/// Sixteen random bytes.
fn random16() -> (r: [u8; 16]) {
    let v = random_bytes(16);
    first16(v.as_slice())
}

impl Pairing {
    /// `pin` is the 4-digit PIN. If `otp` is given, `pin` must equal `otp.pin`.
    pub fn new(identity: Identity, pin: &str, otp: Option<OtpAuth>) -> (r: Self)
        ensures
            r@.wf(),
            r@.identity == identity@,
            r@.pin == pin@,
            r@.otp == otp_view(otp),
            r@.phase == 0,
            r@.server_cert_pem is None,
    {
        Pairing::with_random(identity, pin, otp, random16(), random16(), random16())
    }

    pub fn with_random(
        identity: Identity,
        pin: &str,
        otp: Option<OtpAuth>,
        salt: [u8; 16],
        rand_challenge: [u8; 16],
        client_secret: [u8; 16],
    ) -> (r: Self)
        ensures
            r@ == (PairingView {
                identity: identity@,
                pin: pin@,
                salt: salt@,
                aes_key: aes_key_of(salt@, pin@),
                rand_challenge: rand_challenge@,
                client_secret: client_secret@,
                server_cert_pem: None,
                server_response: Seq::empty(),
                phase: 0,
                otp: otp_view(otp),
            }),
            r@.wf(),
    {
        let aes_key = derive_aes_key(&salt, pin);
        let r = Pairing {
            identity,
            pin: pin.to_owned(),
            salt,
            aes_key,
            rand_challenge,
            client_secret,
            server_cert_pem: None,
            server_response: Vec::new(),
            phase: 0,
            otp,
        };
        assert(r@.server_response =~= Seq::empty());
        r
    }

    pub fn salt_hex(&self) -> (r: String)
        ensures
            r@ == hex_of(self@.salt),
    {
        hex_encode(&self.salt)
    }

    pub fn otpauth(&self) -> (r: Option<String>)
        ensures
            text_view(r) == match self@.otp {
                Some(o) => Some(otpauth_of(o, hex_of(self@.salt))),
                None => None,
            },
    {
        match &self.otp {
            None => None,
            Some(o) => {
                let salt_hex = self.salt_hex();
                let parts = [
                    o.pin.as_str().as_bytes(),
                    salt_hex.as_str().as_bytes(),
                    o.passphrase.as_str().as_bytes(),
                ];
                let d = sha256(&parts);
                proof {
                    lemma_joined_3(parts@);
                }
                Some(hex_encode_upper(&d))
            },
        }
    }

    /// Step 1 request.
    pub fn start(&self) -> (r: Step)
        ensures
            r@ == self@.start(),
    {
        let salt_hex = self.salt_hex();
        let cert_hex = self.identity.cert_hex();
        let mut args = cat3(
            "devicename=roth&updateState=1&phrase=getservercert&salt=",
            salt_hex.as_str(),
            "&clientcert=",
        );
        args.append(cert_hex.as_str());
        if let Some(o) = self.otpauth() {
            args.append("&otpauth=");
            args.append(o.as_str());
        }
        Step { args, https: false }
    }

    /// The first answer.
    fn on_cert(&mut self, root: &Root) -> (r: Result<Option<Step>, Error>)
        requires
            old(self)@.wf(),
            old(self)@.phase == 0,
            says_paired(root@),
        ensures
            (final(self)@, step_result(r)) == old(self)@.advance(root@),
            old(self)@.invertible(root@),
            final(self)@.wf(),
    {
        let plaincert = match root.child("plaincert") {
            Some(t) => trim(t),
            None => trim(""),
        };
        if chars(plaincert.as_str()).len() == 0 {
            return Err(Error::Pair(PairError::AlreadyInProgress));
        }
        let raw = match hex_decode(plaincert.as_str()) {
            Ok(b) => b,
            Err(e) => return Err(Error::Hex(e)),
        };
        let pem = match text_from_utf8(raw) {
            Ok(s) => s,
            Err(e) => return Err(
                Error::Pair(PairError::Malformed(cat2("plaincert utf8: ", e.as_str()))),
            ),
        };
        proof {
            vstd::utf8::encode_utf8_decode_utf8(pem@);
        }
        let enc = match aes_ecb_encrypt(&self.aes_key, &self.rand_challenge) {
            Ok(c) => c,
            Err(e) => return Err(e),
        };
        self.server_cert_pem = Some(pem);
        self.phase = 1;
        Ok(Some(hex_step("clientchallenge=", enc.as_slice())))
    }

    /// The second answer.
    fn on_challenge(&mut self, root: &Root) -> (r: Result<Option<Step>, Error>)
        requires
            old(self)@.wf(),
            old(self)@.phase == 1,
            says_paired(root@),
        ensures
            (final(self)@, step_result(r)) == old(self)@.advance(root@),
            old(self)@.invertible(root@),
            final(self)@.wf(),
    {
        let enc = match read_hex(root, "challengeresponse") {
            Ok(b) => b,
            Err(e) => return Err(e),
        };
        let dec = match aes_ecb_decrypt(&self.aes_key, enc.as_slice()) {
            Ok(d) => d,
            Err(e) => return Err(e),
        };
        if dec.len() < 48 {
            let n = decimal_text(dec.len() as u64);
            return Err(
                Error::Pair(
                    PairError::Malformed(
                        cat3("challengeresponse is ", n.as_str(), " bytes, expected >= 48"),
                    ),
                ),
            );
        }
        let (hash_part, rest) = dec.as_slice().split_at(32);
        let (server_challenge, _) = rest.split_at(16);
        let mut kept: Vec<u8> = Vec::new();
        kept.extend_from_slice(hash_part);
        self.server_response = kept;
        proof {
            assert(self.server_response@ =~= dec@.take(32));
            assert(server_challenge@ =~= dec@.subrange(32, 48));
        }
        let our_sig = match cert_signature(self.identity.cert_pem.as_str()) {
            Ok(s) => s,
            Err(e) => return Err(e),
        };
        let mut msg: Vec<u8> = Vec::new();
        msg.extend_from_slice(server_challenge);
        msg.extend_from_slice(our_sig.as_slice());
        msg.extend_from_slice(&self.client_secret);
        let parts: [&[u8]; 1] = [msg.as_slice()];
        let hash = sha256(&parts);
        proof {
            lemma_joined_1(parts@);
            assert(msg@ =~= server_challenge@ + our_sig@ + self.client_secret@);
        }
        let reply = match aes_ecb_encrypt(&self.aes_key, &hash) {
            Ok(c) => c,
            Err(e) => return Err(e),
        };
        self.phase = 2;
        Ok(Some(hex_step("serverchallengeresp=", reply.as_slice())))
    }

    /// Check the server's secret, signature and hash.
    pub fn check_server(&self, root: &Root) -> (r: Result<(), Error>)
        requires
            self@.wf(),
            self@.phase == 2,
        ensures
            match r {
                Ok(_) => self@.server_check(root@) == Ok::<(), ErrorView>(()),
                Err(e) => self@.server_check(root@) == Err::<(), ErrorView>(e@),
            },
    {
        let secret = match read_hex(root, "pairingsecret") {
            Ok(b) => b,
            Err(e) => return Err(e),
        };
        if secret.len() <= 16 {
            return Err(Error::Pair(PairError::Malformed("pairingsecret too short".to_owned())));
        }
        let (server_secret, server_sig) = secret.as_slice().split_at(16);
        proof {
            assert(server_secret@ =~= secret@.take(16));
            assert(server_sig@ =~= secret@.skip(16));
        }
        let server_pem = match &self.server_cert_pem {
            Some(p) => p.as_str(),
            None => "",
        };
        let server_pk = match cert_public_key(server_pem) {
            Ok(k) => k,
            Err(e) => return Err(e),
        };
        if !verify_sha256(&server_pk, server_secret, server_sig) {
            return Err(Error::Pair(PairError::BadServerSignature));
        }
        let server_cert_sig = match cert_signature(server_pem) {
            Ok(s) => s,
            Err(e) => return Err(e),
        };
        let parts: [&[u8]; 3] = [&self.rand_challenge, server_cert_sig.as_slice(), server_secret];
        let expect = sha256(&parts);
        proof {
            lemma_joined_3(parts@);
        }
        if !bytes_eq(&expect, self.server_response.as_slice()) {
            return Err(Error::Pair(PairError::WrongPin));
        }
        Ok(())
    }

    /// The third answer.
    fn on_secret(&mut self, root: &Root) -> (r: Result<Option<Step>, Error>)
        requires
            old(self)@.wf(),
            old(self)@.phase == 2,
            says_paired(root@),
            !old(self)@.stuck(root@),
        ensures
            (final(self)@, step_result(r)) == old(self)@.advance(root@),
            old(self)@.invertible(root@),
            final(self)@.wf(),
    {
        match self.check_server(root) {
            Ok(_) => {},
            Err(e) => return Err(e),
        }
        let sig = sign_sha256(self.identity.private_key(), &self.client_secret);
        let mut payload: Vec<u8> = Vec::new();
        payload.extend_from_slice(&self.client_secret);
        payload.extend_from_slice(sig.as_slice());
        assert(payload@ =~= self.client_secret@ + sig@);
        self.phase = 3;
        Ok(Some(hex_step("clientpairingsecret=", payload.as_slice())))
    }

    /// Take the response to the previous step; returns the next step or `None`
    /// when pairing is complete.
    pub fn advance(&mut self, root: &Root) -> (r: Result<Option<Step>, Error>)
        requires
            old(self)@.wf(),
            !old(self)@.stuck(root@),
        ensures
            (final(self)@, step_result(r)) == old(self)@.advance(root@),
            old(self)@.invertible(root@),
            final(self)@.wf(),
    {
        let paired = match root.child("paired") {
            Some(t) => {
                let s = trim(t);
                str_eq(s.as_str(), "1")
            },
            None => false,
        };
        if !paired {
            return Err(Error::Pair(PairError::NotPaired));
        }
        match self.phase {
            0 => self.on_cert(root),
            1 => self.on_challenge(root),
            2 => self.on_secret(root),
            3 => {
                self.phase = 4;
                Ok(
                    Some(
                        Step {
                            args: "devicename=roth&updateState=1&phrase=pairchallenge".to_owned(),
                            https: true,
                        },
                    ),
                )
            },
            _ => {
                self.phase = 5;
                Ok(None)
            },
        }
    }

    /// Feed the response body to the previous step; returns the next step or
    /// `None` when pairing is complete.
    pub fn next(&mut self, body: &str) -> (r: Result<Option<Step>, Error>)
        requires
            old(self)@.wf(),
            root_of(body@) is Ok ==> !old(self)@.stuck(root_of(body@)->Ok_0),
        ensures
            (final(self)@, step_result(r)) == old(self)@.next(body@),
            root_of(body@) is Ok ==> old(self)@.invertible(root_of(body@)->Ok_0),
            flat_parses(body@),
            final(self)@.wf(),
    {
        proof {
            reveal(PairingView::next);
        }
        match Root::parse(body) {
            Ok(root) => self.advance(&root),
            Err(e) => Err(e),
        }
    }

    /// As [`Pairing::next`], for a key of which it is not known whether it can
    /// sign: `None` where a signature is due that the key cannot make.
    pub fn try_next(&mut self, body: &str) -> (r: Option<Result<Option<Step>, Error>>)
        requires
            old(self)@.wf(),
        ensures
            match r {
                Some(res) => {
                    &&& (final(self)@, step_result(res)) == old(self)@.next(body@)
                    &&& root_of(body@) is Ok ==> {
                        &&& !old(self)@.stuck(root_of(body@)->Ok_0)
                        &&& old(self)@.invertible(root_of(body@)->Ok_0)
                    }
                },
                None => {
                    &&& final(self)@ == old(self)@
                    &&& root_of(body@) is Ok
                    &&& old(self)@.stuck(root_of(body@)->Ok_0)
                },
            },
            flat_parses(body@),
            final(self)@.wf(),
    {
        if self.phase == 2 {
            if try_sign_sha256(self.identity.private_key(), &self.client_secret).is_none() {
                if let Ok(root) = Root::parse(body) {
                    let paired = match root.child("paired") {
                        Some(t) => {
                            let s = trim(t);
                            str_eq(s.as_str(), "1")
                        },
                        None => false,
                    };
                    if paired && self.check_server(&root).is_ok() {
                        return None;
                    }
                }
            }
        }
        Some(self.next(body))
    }

    pub fn server_cert_pem(&self) -> (r: Option<&str>)
        ensures
            match r {
                Some(p) => self@.server_cert_pem == Some(p@),
                None => self@.server_cert_pem is None,
            },
    {
        match &self.server_cert_pem {
            Some(p) => Some(p.as_str()),
            None => None,
        }
    }

    pub fn is_complete(&self) -> (r: bool)
        ensures
            r == (self@.phase == 5),
    {
        self.phase == 5
    }

    pub fn pin(&self) -> (r: &str)
        ensures
            r@ == self@.pin,
    {
        self.pin.as_str()
    }
}

/// A request that the driver of a handshake wants made.
#[derive(Debug)]
pub struct PairCall {
    /// Query arguments of the `pair` command.
    pub args: String,
    /// The server certificate to pin, for a request over HTTPS.
    pub pinned: Option<String>,
    /// The limit in seconds for a plain request; without one it may park.
    pub timeout_secs: Option<u64>,
}

/// What follows an answer.
#[derive(Debug)]
pub enum PairTurn {
    /// Make the next request.
    Continue,
    /// The handshake is complete.
    Done(PairOutcome),
    /// Ask the host to forget us, and fail.
    Abort(Error),
    /// The client's key cannot make the signature that is due.
    CannotSign,
}

/// A handshake on its way: the state machine, the step to send and the time that
/// its request may take.
pub struct PairDriver {
    pairing: Pairing,
    step: Step,
    timeout_secs: Option<u64>,
}

/// The state of a [`PairDriver`].
#[verifier::ext_equal]
pub struct PairDriverView {
    pub pairing: PairingView,
    pub step: StepView,
    pub timeout_secs: Option<u64>,
}

impl View for PairDriver {
    type V = PairDriverView;

    closed spec fn view(&self) -> PairDriverView {
        PairDriverView {
            pairing: self.pairing@,
            step: self.step@,
            timeout_secs: self.timeout_secs,
        }
    }
}

impl PairDriverView {
    /// A request over HTTPS comes only once the server's certificate is known.
    pub open spec fn wf(self) -> bool {
        &&& self.pairing.wf()
        &&& self.step.https ==> self.pairing.phase > 0
    }
}

/// The limit in seconds for each request after the first.
pub const SHORT_STEP_SECS: u64 = 5;

impl PairDriver {
    /// Start a handshake with a host of the given major version. The first request
    /// blocks until the host accepts the PIN (via web UI, or immediately when `otp`
    /// is given).
    pub fn begin(
        identity: Identity,
        major: u32,
        pin: &str,
        otp: Option<OtpAuth>,
        first_step_secs: Option<u64>,
    ) -> (r: Result<Self, Error>)
        ensures
            match r {
                Ok(d) => {
                    &&& major >= 7
                    &&& d@.wf()
                    &&& d@.pairing.phase == 0
                    &&& d@.pairing.identity == identity@
                    &&& d@.pairing.pin == pin@
                    &&& d@.pairing.otp == otp_view(otp)
                    &&& d@.step == d@.pairing.start()
                    &&& d@.timeout_secs == first_step_secs
                },
                Err(e) => major < 7 && e@ == ErrorView::Pair(PairErrorView::OldServer(major)),
            },
    {
        if major < 7 {
            return Err(Error::Pair(PairError::OldServer(major)));
        }
        let pairing = Pairing::new(identity, pin, otp);
        let step = pairing.start();
        Ok(PairDriver { pairing, step, timeout_secs: first_step_secs })
    }

    /// The request to make now.
    pub fn call(&self) -> (r: PairCall)
        requires
            self@.wf(),
        ensures
            r.args@ == self@.step.args,
            r.pinned is Some == self@.step.https,
            self@.step.https ==> text_view(r.pinned) == self@.pairing.server_cert_pem,
            r.timeout_secs == self@.timeout_secs,
    {
        let pinned = if self.step.https {
            crate::proto::clone_text(&self.pairing.server_cert_pem)
        } else {
            None
        };
        PairCall { args: self.step.args.clone(), pinned, timeout_secs: self.timeout_secs }
    }

    /// Take the answer to the request: a body, or the error of the transport.
    pub fn on_answer(&mut self, body: Result<String, Error>) -> (r: PairTurn)
        requires
            old(self)@.wf(),
        ensures
            final(self)@.wf(),
            match body {
                Err(e) => r == PairTurn::Abort(e) && final(self)@ == old(self)@,
                Ok(b) => {
                    let (pairing, result) = old(self)@.pairing.next(b@);
                    if root_of(b@) is Ok && old(self)@.pairing.stuck(root_of(b@)->Ok_0) {
                        &&& r is CannotSign
                        &&& final(self)@.pairing == old(self)@.pairing
                    } else {
                        &&& final(self)@.pairing == pairing
                        &&& match result {
                            Err(e) => r matches PairTurn::Abort(x) && x@ == e,
                            Ok(Some(step)) => {
                                &&& r is Continue
                                &&& final(self)@.step == step
                                &&& final(self)@.timeout_secs == Some(SHORT_STEP_SECS)
                            },
                            Ok(None) => {
                                &&& r matches PairTurn::Done(o)
                                    && pairing.server_cert_pem == Some(o.server_cert_pem@)
                            },
                        }
                    }
                },
            },
    {
        let b = match body {
            Ok(b) => b,
            Err(e) => return PairTurn::Abort(e),
        };
        self.timeout_secs = Some(SHORT_STEP_SECS);
        proof {
            reveal(PairingView::next);
        }
        match self.pairing.try_next(b.as_str()) {
            None => PairTurn::CannotSign,
            Some(Err(e)) => PairTurn::Abort(e),
            Some(Ok(Some(s))) => {
                self.step = s;
                PairTurn::Continue
            },
            Some(Ok(None)) => {
                let pem = match &self.pairing.server_cert_pem {
                    Some(p) => p.clone(),
                    None => String::new(),
                };
                PairTurn::Done(PairOutcome { server_cert_pem: pem })
            },
        }
    }
}

} // verus!
