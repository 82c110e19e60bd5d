//! Wire types and small crypto helpers shared by the rendezvous server, the
//! host agent and the client.
//!
//! Transport is plain JSON over HTTPS. The rendezvous server is treated as
//! *untrusted*: it never sees the host password, and the pairing PIN that
//! travels through it is sealed with a key only the host and the client can
//! derive (see [`PairSecret`]).
//!
//! Password model:
//!
//! ```text
//! h1 = SHA256(password || salt)               stored on the host, cached by the client
//! h2 = SHA256(h1 || challenge)                sent through the rendezvous, verified by the host
//! k  = SHA256("ra-pair-v1" || h1 || challenge) seals the 4-digit Moonlight PIN
//! ```

use vstd::prelude::*;
use vstd::utf8::{decode_utf8, valid_utf8};
use crate::crypto::{lemma_joined_2, lemma_joined_3, sha256};
use crate::foreign::{
    chacha_open, chacha_opened, chacha_seal, chacha_sealed, first_non_hex, hex_decode, hex_decoded,
    hex_digit, hex_encode, hex_of, hex_value, nibble, random_bytes, random_range, sha256_digest,
    sha256_of, text_from_utf8, HexError,
};
use crate::text::{
    all_digits, cat2, chars, decimal, digit_char, digits_only, digits_value, is_digit,
    lemma_decimal_digits, lemma_digits_are_decimal, str_eq, ten_to, text_view, utf8,
};

verus! {

pub const API_VERSION: &'static str = "v1";

/// Length of a host ID in decimal digits.
pub const ID_DIGITS: usize = 9;

/// Default Apollo / Sunshine base port. HTTPS is base-5, web UI is base+1.
pub const DEFAULT_GAMESTREAM_PORT: u16 = 47989;

// ---------------------------------------------------------------------------
// Host side messages
// ---------------------------------------------------------------------------

/// A network endpoint where a host's Apollo instance can be reached.
#[derive(Debug, PartialEq, Eq)]
pub struct Endpoint {
    /// IP address or DNS name.
    pub host: String,
    /// Apollo base port (HTTP GameStream port, default 47989).
    pub port: u16,
    /// How this address was learned: `lan`, `public`, `manual`, `vpn`.
    pub kind: String,
}

impl Clone for Endpoint {
    fn clone(&self) -> (r: Self)
        ensures
            r == *self,
    {
        Endpoint { host: self.host.clone(), port: self.port, kind: self.kind.clone() }
    }
}

/// A copy of a list of endpoints.
pub fn clone_endpoints(v: &Vec<Endpoint>) -> (r: Vec<Endpoint>)
    ensures
        r@ == v@,
{
    let mut out: Vec<Endpoint> = Vec::new();
    let mut i: usize = 0;
    while i < v.len()
        invariant
            i <= v@.len(),
            out@ =~= v@.take(i as int),
        decreases v.len() - i,
    {
        out.push(v[i].clone());
        i += 1;
    }
    out
}

/// Sent by the host agent to claim or refresh its registration.
#[derive(Debug)]
pub struct RegisterRequest {
    /// Existing ID, or `None` to be assigned one.
    pub id: Option<String>,
    /// Bearer token proving ownership of `id` (random 32 bytes, hex). On first
    /// registration the server stores its SHA-256 and returns the ID.
    pub token: String,
    pub name: String,
    pub platform: String,
    pub endpoints: Vec<Endpoint>,
    /// Salt used for the password hash, published so clients can derive `h1`.
    pub password_salt: String,
    /// Version of the host agent.
    pub agent_version: String,
}

#[derive(Debug)]
pub struct RegisterResponse {
    pub id: String,
    /// Address the rendezvous server observed the host connecting from.
    pub observed_addr: Option<String>,
    /// Seconds between heartbeats.
    pub heartbeat_secs: u64,
}

/// A pairing request queued for the host. Produced by a client, consumed by
/// the host agent via long-poll.
#[derive(Debug)]
pub struct PairRequest {
    /// Opaque request id assigned by the rendezvous server.
    pub request_id: String,
    /// Random challenge minted by the rendezvous server for this request.
    pub challenge: String,
    /// `hex(SHA256(h1 || challenge))`.
    pub response: String,
    /// Friendly name of the client device, shown in Apollo's client list.
    pub device_name: String,
    /// Moonlight client's `uniqueid`, if known, so the host can find the
    /// paired certificate afterwards. Optional.
    pub client_uid: Option<String>,
    /// The 4-digit PIN the client will present to Apollo, sealed with the
    /// pair key (hex of nonce || ciphertext).
    pub sealed_pin: String,
    /// Whether the client wants to stay paired after the session ends.
    pub remember: bool,
}

/// Outcome the host agent reports back for a [`PairRequest`].
#[derive(Debug)]
pub struct PairResult {
    pub request_id: String,
    pub status: PairStatus,
    pub message: Option<String>,
}

#[derive(Debug, Clone, Copy, PartialEq, Eq, Structural)]
pub enum PairStatus {
    /// The host has accepted the password and is waiting for the Moonlight
    /// pairing request to arrive.
    Accepted,
    /// Apollo completed pairing and permissions were applied.
    Paired,
    /// Wrong password.
    Rejected,
    /// Host-side failure (Apollo unreachable, timeout, ...).
    Failed,
}

/// A copy of an optional text.
pub fn clone_text(s: &Option<String>) -> (r: Option<String>)
    ensures
        r == *s,
{
    match s {
        Some(t) => Some(t.clone()),
        None => None,
    }
}

impl Clone for RegisterRequest {
    fn clone(&self) -> (r: Self)
        ensures
            r.id == self.id,
            r.token == self.token,
            r.name == self.name,
            r.platform == self.platform,
            r.endpoints@ == self.endpoints@,
            r.password_salt == self.password_salt,
            r.agent_version == self.agent_version,
    {
        RegisterRequest {
            id: clone_text(&self.id),
            token: self.token.clone(),
            name: self.name.clone(),
            platform: self.platform.clone(),
            endpoints: clone_endpoints(&self.endpoints),
            password_salt: self.password_salt.clone(),
            agent_version: self.agent_version.clone(),
        }
    }
}

impl Clone for RegisterResponse {
    fn clone(&self) -> (r: Self)
        ensures
            r == *self,
    {
        RegisterResponse {
            id: self.id.clone(),
            observed_addr: clone_text(&self.observed_addr),
            heartbeat_secs: self.heartbeat_secs,
        }
    }
}

impl Clone for PairRequest {
    fn clone(&self) -> (r: Self)
        ensures
            r == *self,
    {
        PairRequest {
            request_id: self.request_id.clone(),
            challenge: self.challenge.clone(),
            response: self.response.clone(),
            device_name: self.device_name.clone(),
            client_uid: clone_text(&self.client_uid),
            sealed_pin: self.sealed_pin.clone(),
            remember: self.remember,
        }
    }
}

impl Clone for PairResult {
    fn clone(&self) -> (r: Self)
        ensures
            r == *self,
    {
        PairResult {
            request_id: self.request_id.clone(),
            status: self.status,
            message: clone_text(&self.message),
        }
    }
}

// ---------------------------------------------------------------------------
// Client side messages
// ---------------------------------------------------------------------------

/// Public view of a registered host, returned to clients.
#[derive(Debug)]
pub struct HostInfo {
    pub id: String,
    pub name: String,
    pub platform: String,
    pub online: bool,
    pub endpoints: Vec<Endpoint>,
    pub password_salt: String,
    /// Seconds since the last heartbeat.
    pub last_seen_secs: u64,
}

#[derive(Debug)]
pub struct ChallengeResponse {
    pub request_id: String,
    pub challenge: String,
    /// Seconds until the challenge expires.
    pub ttl_secs: u64,
}

/// Body a client posts to complete a pair request after obtaining a challenge.
#[derive(Debug)]
pub struct SubmitPairRequest {
    pub request_id: String,
    pub response: String,
    pub device_name: String,
    pub client_uid: Option<String>,
    pub sealed_pin: String,
    pub remember: bool,
}

#[derive(Debug)]
pub struct ErrorBody {
    pub error: String,
}

impl Clone for HostInfo {
    fn clone(&self) -> (r: Self)
        ensures
            r.id == self.id,
            r.name == self.name,
            r.platform == self.platform,
            r.online == self.online,
            r.endpoints@ == self.endpoints@,
            r.password_salt == self.password_salt,
            r.last_seen_secs == self.last_seen_secs,
    {
        HostInfo {
            id: self.id.clone(),
            name: self.name.clone(),
            platform: self.platform.clone(),
            online: self.online,
            endpoints: clone_endpoints(&self.endpoints),
            password_salt: self.password_salt.clone(),
            last_seen_secs: self.last_seen_secs,
        }
    }
}

impl Clone for ChallengeResponse {
    fn clone(&self) -> (r: Self)
        ensures
            r == *self,
    {
        ChallengeResponse {
            request_id: self.request_id.clone(),
            challenge: self.challenge.clone(),
            ttl_secs: self.ttl_secs,
        }
    }
}

impl Clone for SubmitPairRequest {
    fn clone(&self) -> (r: Self)
        ensures
            r == *self,
    {
        SubmitPairRequest {
            request_id: self.request_id.clone(),
            response: self.response.clone(),
            device_name: self.device_name.clone(),
            client_uid: clone_text(&self.client_uid),
            sealed_pin: self.sealed_pin.clone(),
            remember: self.remember,
        }
    }
}

impl Clone for ErrorBody {
    fn clone(&self) -> (r: Self)
        ensures
            r == *self,
    {
        ErrorBody { error: self.error.clone() }
    }
}

// ---------------------------------------------------------------------------
// What the messages hold
// ---------------------------------------------------------------------------

/// What an [`Endpoint`] holds.
#[verifier::ext_equal]
pub struct EndpointView {
    pub host: Seq<char>,
    pub port: u16,
    pub kind: Seq<char>,
}

impl View for Endpoint {
    type V = EndpointView;

    open spec fn view(&self) -> EndpointView {
        EndpointView {
            host: self.host@,
            port: self.port,
            kind: self.kind@,
        }
    }
}

/// What a [`RegisterRequest`] holds.
#[verifier::ext_equal]
pub struct RegisterRequestView {
    pub id: Option<Seq<char>>,
    pub token: Seq<char>,
    pub name: Seq<char>,
    pub platform: Seq<char>,
    pub endpoints: Seq<EndpointView>,
    pub password_salt: Seq<char>,
    pub agent_version: Seq<char>,
}

impl View for RegisterRequest {
    type V = RegisterRequestView;

    open spec fn view(&self) -> RegisterRequestView {
        RegisterRequestView {
            id: text_view(self.id),
            token: self.token@,
            name: self.name@,
            platform: self.platform@,
            endpoints: endpoint_views(self.endpoints@),
            password_salt: self.password_salt@,
            agent_version: self.agent_version@,
        }
    }
}

/// What a [`RegisterResponse`] holds.
#[verifier::ext_equal]
pub struct RegisterResponseView {
    pub id: Seq<char>,
    pub observed_addr: Option<Seq<char>>,
    pub heartbeat_secs: u64,
}

impl View for RegisterResponse {
    type V = RegisterResponseView;

    open spec fn view(&self) -> RegisterResponseView {
        RegisterResponseView {
            id: self.id@,
            observed_addr: text_view(self.observed_addr),
            heartbeat_secs: self.heartbeat_secs,
        }
    }
}

/// What a [`PairRequest`] holds.
#[verifier::ext_equal]
pub struct PairRequestView {
    pub request_id: Seq<char>,
    pub challenge: Seq<char>,
    pub response: Seq<char>,
    pub device_name: Seq<char>,
    pub client_uid: Option<Seq<char>>,
    pub sealed_pin: Seq<char>,
    pub remember: bool,
}

impl View for PairRequest {
    type V = PairRequestView;

    open spec fn view(&self) -> PairRequestView {
        PairRequestView {
            request_id: self.request_id@,
            challenge: self.challenge@,
            response: self.response@,
            device_name: self.device_name@,
            client_uid: text_view(self.client_uid),
            sealed_pin: self.sealed_pin@,
            remember: self.remember,
        }
    }
}

/// What a [`PairResult`] holds.
#[verifier::ext_equal]
pub struct PairResultView {
    pub request_id: Seq<char>,
    pub status: PairStatus,
    pub message: Option<Seq<char>>,
}

impl View for PairResult {
    type V = PairResultView;

    open spec fn view(&self) -> PairResultView {
        PairResultView {
            request_id: self.request_id@,
            status: self.status,
            message: text_view(self.message),
        }
    }
}

/// What a [`HostInfo`] holds.
#[verifier::ext_equal]
pub struct HostInfoView {
    pub id: Seq<char>,
    pub name: Seq<char>,
    pub platform: Seq<char>,
    pub online: bool,
    pub endpoints: Seq<EndpointView>,
    pub password_salt: Seq<char>,
    pub last_seen_secs: u64,
}

impl View for HostInfo {
    type V = HostInfoView;

    open spec fn view(&self) -> HostInfoView {
        HostInfoView {
            id: self.id@,
            name: self.name@,
            platform: self.platform@,
            online: self.online,
            endpoints: endpoint_views(self.endpoints@),
            password_salt: self.password_salt@,
            last_seen_secs: self.last_seen_secs,
        }
    }
}

/// What a [`ChallengeResponse`] holds.
#[verifier::ext_equal]
pub struct ChallengeResponseView {
    pub request_id: Seq<char>,
    pub challenge: Seq<char>,
    pub ttl_secs: u64,
}

impl View for ChallengeResponse {
    type V = ChallengeResponseView;

    open spec fn view(&self) -> ChallengeResponseView {
        ChallengeResponseView {
            request_id: self.request_id@,
            challenge: self.challenge@,
            ttl_secs: self.ttl_secs,
        }
    }
}

/// What a [`SubmitPairRequest`] holds.
#[verifier::ext_equal]
pub struct SubmitPairRequestView {
    pub request_id: Seq<char>,
    pub response: Seq<char>,
    pub device_name: Seq<char>,
    pub client_uid: Option<Seq<char>>,
    pub sealed_pin: Seq<char>,
    pub remember: bool,
}

impl View for SubmitPairRequest {
    type V = SubmitPairRequestView;

    open spec fn view(&self) -> SubmitPairRequestView {
        SubmitPairRequestView {
            request_id: self.request_id@,
            response: self.response@,
            device_name: self.device_name@,
            client_uid: text_view(self.client_uid),
            sealed_pin: self.sealed_pin@,
            remember: self.remember,
        }
    }
}

/// What a list of endpoints holds.
pub open spec fn endpoint_views(v: Seq<Endpoint>) -> Seq<EndpointView> {
    Seq::new(v.len(), |i: int| v[i]@)
}

/// Whether two lists of endpoints are the same.
pub fn same_endpoints(a: &Vec<Endpoint>, b: &Vec<Endpoint>) -> (r: bool)
    ensures
        r == (endpoint_views(a@) == endpoint_views(b@)),
{
    if a.len() != b.len() {
        assert(endpoint_views(a@).len() != endpoint_views(b@).len());
        return false;
    }
    let mut i: usize = 0;
    while i < a.len()
        invariant
            a@.len() == b@.len(),
            i <= a@.len(),
            forall|j: int| 0 <= j < i ==> (#[trigger] a@[j])@ == b@[j]@,
        decreases a.len() - i,
    {
        if a[i].port != b[i].port || !str_eq(a[i].host.as_str(), b[i].host.as_str()) || !str_eq(
            a[i].kind.as_str(),
            b[i].kind.as_str(),
        ) {
            assert(endpoint_views(a@)[i as int] != endpoint_views(b@)[i as int]);
            return false;
        }
        i += 1;
    }
    assert(endpoint_views(a@) =~= endpoint_views(b@));
    true
}

// ---------------------------------------------------------------------------
// Crypto helpers
// ---------------------------------------------------------------------------

#[derive(Debug, Clone, Copy, PartialEq, Eq, Structural)]
pub enum CryptoError {
    Hex(HexError),
    TooShort,
    Decrypt,
    BadPin,
}

impl CryptoError {
    /// The words for this error.
    pub open spec fn words(self) -> Seq<char> {
        match self {
            CryptoError::Hex(e) => "invalid hex: "@ + e.words(),
            CryptoError::TooShort => "sealed payload too short"@,
            CryptoError::Decrypt => "decryption failed"@,
            CryptoError::BadPin => "pin must be exactly 4 ASCII digits"@,
        }
    }

    /// The words for this error.
    pub fn message(&self) -> (r: String)
        ensures
            r@ == self.words(),
    {
        match self {
            CryptoError::Hex(e) => {
                let inner = e.message();
                cat2("invalid hex: ", inner.as_str())
            },
            CryptoError::TooShort => "sealed payload too short".to_owned(),
            CryptoError::Decrypt => "decryption failed".to_owned(),
            CryptoError::BadPin => "pin must be exactly 4 ASCII digits".to_owned(),
        }
    }
}

/// `h1 = hex(SHA256(password || salt))`.
pub open spec fn h1_of(password: Seq<char>, salt: Seq<char>) -> Seq<char> {
    hex_of(sha256_of(utf8(password) + utf8(salt)))
}

/// `h2 = hex(SHA256(h1 || challenge))`.
pub open spec fn h2_of(h1: Seq<char>, challenge: Seq<char>) -> Seq<char> {
    hex_of(sha256_of(utf8(h1) + utf8(challenge)))
}

/// `k = SHA256("ra-pair-v1" || h1 || challenge)`.
pub open spec fn pair_key(h1: Seq<char>, challenge: Seq<char>) -> Seq<u8> {
    sha256_of(utf8("ra-pair-v1"@) + utf8(h1) + utf8(challenge))
}

/// `hex(SHA256(token))`.
pub open spec fn fingerprint_of(token: Seq<char>) -> Seq<char> {
    hex_of(sha256_of(utf8(token)))
}

/// `h1 = hex(SHA256(password || salt))`. This is what the host stores.
pub fn password_h1(password: &str, salt: &str) -> (r: String)
    ensures
        r@ == h1_of(password@, salt@),
{
    let parts = [password.as_bytes(), salt.as_bytes()];
    let d = sha256(&parts);
    proof {
        lemma_joined_2(parts@);
    }
    hex_encode(&d)
}

/// `h2 = hex(SHA256(h1 || challenge))`. This is what crosses the rendezvous.
pub fn challenge_response(h1_hex: &str, challenge: &str) -> (r: String)
    ensures
        r@ == h2_of(h1_hex@, challenge@),
        r@.len() == 64,
        utf8(r@).len() == 64,
{
    let parts = [h1_hex.as_bytes(), challenge.as_bytes()];
    let d = sha256(&parts);
    proof {
        lemma_joined_2(parts@);
        lemma_hex_utf8_len(d@);
    }
    hex_encode(&d)
}

/// Constant-time comparison of two hex strings.
pub fn ct_eq(a: &str, b: &str) -> (r: bool)
    ensures
        r == (a@ == b@),
{
    let x = a.as_bytes();
    let y = b.as_bytes();
    if x.len() != y.len() {
        return false;
    }
    let mut acc: u8 = 0;
    let mut i: usize = 0;
    while i < x.len()
        invariant
            x@.len() == y@.len(),
            i <= x@.len(),
            acc == 0 <==> x@.take(i as int) =~= y@.take(i as int),
        decreases x.len() - i,
    {
        let p: u8 = x[i];
        let q: u8 = y[i];
        let was: u8 = acc;
        acc = acc | (p ^ q);
        assert((was | (p ^ q)) == 0 <==> was == 0 && p == q) by (bit_vector);
        i += 1;
        proof {
            assert(x@.take(i as int).drop_last() =~= x@.take(i - 1));
            assert(y@.take(i as int).drop_last() =~= y@.take(i - 1));
            assert(x@.take(i as int) =~= x@.take(i - 1).push(p));
            assert(y@.take(i as int) =~= y@.take(i - 1).push(q));
            if x@.take(i as int) =~= y@.take(i as int) {
                assert(x@.take(i as int)[i - 1] == p);
            }
        }
    }
    assert(x@.take(i as int) =~= x@);
    assert(y@.take(i as int) =~= y@);
    proof {
        vstd::utf8::encode_utf8_decode_utf8(a@);
        vstd::utf8::encode_utf8_decode_utf8(b@);
    }
    acc == 0
}

/// An ASCII letter or digit.
pub open spec fn is_alphanumeric_ascii(c: char) -> bool {
    ('A' <= c && c <= 'Z') || ('a' <= c && c <= 'z') || is_digit(c)
}

/// The `k`-th character of `A`..`Z`, `a`..`z`, `0`..`9`.
pub open spec fn salt_char_of(k: int) -> char {
    if k < 26 {
        (65 + k) as u32 as char
    } else if k < 52 {
        (97 + (k - 26)) as u32 as char
    } else {
        (48 + (k - 52)) as u32 as char
    }
}

/// The `k`-th character of `A`..`Z`, `a`..`z`, `0`..`9`.
pub fn salt_char(k: u32) -> (c: char)
    requires
        k < 62,
    ensures
        c == salt_char_of(k as int),
        is_alphanumeric_ascii(c),
{
    if k < 26 {
        (65u8 + k as u8) as char
    } else if k < 52 {
        (97u8 + (k - 26) as u8) as char
    } else {
        (48u8 + (k - 52) as u8) as char
    }
}

/// Random alphanumeric salt of `n` chars.
pub fn random_salt(n: usize) -> (r: String)
    ensures
        r@.len() == n,
        forall|i: int| 0 <= i < r@.len() ==> is_alphanumeric_ascii(#[trigger] r@[i]),
{
    let mut s = String::new();
    let mut i: usize = 0;
    while i < n
        invariant
            i <= n,
            s@.len() == i,
            forall|j: int| 0 <= j < s@.len() ==> is_alphanumeric_ascii(#[trigger] s@[j]),
        decreases n - i,
    {
        let k: u32 = random_range(0, 62);
        s.push(salt_char(k));
        i += 1;
    }
    s
}

/// Random hex string of `n` bytes.
pub fn random_hex(n: usize) -> (r: String)
    ensures
        exists|b: Seq<u8>| b.len() == n && r@ == hex_of(b),
{
    let buf = random_bytes(n);
    let r = hex_encode(buf.as_slice());
    assert(buf@.len() == n && r@ == hex_of(buf@));
    r
}

/// The four-digit notation of `n`, zero padded.
pub open spec fn pin_of(n: int) -> Seq<char> {
    seq![
        digit_char(n / 1000 % 10),
        digit_char(n / 100 % 10),
        digit_char(n / 10 % 10),
        digit_char(n % 10),
    ]
}

/// The character for the digit `d`.
fn digit_for(d: u32) -> (c: char)
    requires
        d < 10,
    ensures
        c == digit_char(d as int),
        is_digit(c),
{
    (48u8 + d as u8) as char
}

/// The PIN for the number `n`: its four digits, zero padded.
pub fn pin_from(n: u32) -> (r: String)
    requires
        n < 10000,
    ensures
        r@ == pin_of(n as int),
        valid_pin(r@),
{
    let mut s = String::new();
    s.push(digit_for(n / 1000));
    s.push(digit_for(n / 100 % 10));
    s.push(digit_for(n / 10 % 10));
    s.push(digit_for(n % 10));
    assert(s@ =~= pin_of(n as int));
    s
}

/// Random 4-digit Moonlight PIN, zero padded.
pub fn random_pin() -> (r: String)
    ensures
        valid_pin(r@),
{
    let n: u32 = random_range(0, 10000);
    pin_from(n)
}

/// Random 9-digit host ID that never starts with 0.
pub fn random_id() -> (r: String)
    ensures
        valid_id(r@),
{
    let mut s = String::new();
    let first: u32 = random_range(1, 10);
    s.push(digit_for(first));
    let mut i: usize = 1;
    while i < ID_DIGITS
        invariant
            1 <= i <= ID_DIGITS,
            s@.len() == i,
            all_digits(s@),
            s@[0] != '0',
        decreases ID_DIGITS - i,
    {
        let d: u32 = random_range(0, 10);
        s.push(digit_for(d));
        i += 1;
    }
    s
}

/// A host ID: nine decimal digits, the first of them not 0.
pub open spec fn valid_id(id: Seq<char>) -> bool {
    id.len() == ID_DIGITS && all_digits(id) && id[0] != '0'
}

/// The host IDs are the decimal notations of the numbers with nine digits.
pub proof fn lemma_ids_are_numbers(id: Seq<char>, n: nat)
    ensures
        100_000_000 <= n < 1_000_000_000 ==> valid_id(decimal(n)) && digits_value(decimal(n)) == n,
        valid_id(id) ==> decimal(digits_value(id)) == id && 100_000_000 <= digits_value(id)
            < 1_000_000_000,
{
    assert(ten_to(8) == 100_000_000 && ten_to(9) == 1_000_000_000) by {
        reveal_with_fuel(ten_to, 10);
    }
    if 100_000_000 <= n < 1_000_000_000 {
        lemma_decimal_digits(n, 8);
    }
    if valid_id(id) {
        lemma_digits_are_decimal(id);
    }
}

/// A Moonlight PIN: four decimal digits.
pub open spec fn valid_pin(pin: Seq<char>) -> bool {
    pin.len() == 4 && all_digits(pin)
}

pub fn is_valid_id(id: &str) -> (r: bool)
    ensures
        r == valid_id(id@),
{
    let v = chars(id);
    v.len() == ID_DIGITS && digits_only(v.as_slice()) && v[0] != '0'
}

pub fn is_valid_pin(pin: &str) -> (r: bool)
    ensures
        r == valid_pin(pin@),
{
    let v = chars(pin);
    v.len() == 4 && digits_only(v.as_slice())
}

/// What [`PairSecret::open_pin`] makes of a sealed PIN under `key`.
pub open spec fn opened_pin(key: Seq<u8>, sealed: Seq<char>) -> Result<Seq<char>, CryptoError> {
    match hex_decoded(utf8(sealed)) {
        Err(e) => Err(CryptoError::Hex(e)),
        Ok(raw) => if raw.len() < 28 {
            Err(CryptoError::TooShort)
        } else {
            match chacha_opened(key, raw.take(12), raw.skip(12)) {
                None => Err(CryptoError::Decrypt),
                Some(pt) => if !valid_utf8(pt) {
                    Err(CryptoError::Decrypt)
                } else if !valid_pin(decode_utf8(pt)) {
                    Err(CryptoError::BadPin)
                } else {
                    Ok(decode_utf8(pt))
                },
            }
        },
    }
}

/// A PIN sealed under `key` and `nonce`: hex(nonce || ciphertext || tag).
pub open spec fn sealed_pin_of(key: Seq<u8>, nonce: Seq<u8>, pin: Seq<char>) -> Seq<char> {
    hex_of(nonce + chacha_sealed(key, nonce, utf8(pin)))
}

/// Symmetric key shared by host and client for one pair request, derived
/// from the password hash and the challenge. The rendezvous server knows the
/// challenge but not `h1`, so it cannot derive it.
pub struct PairSecret {
    key: [u8; 32],
}

impl View for PairSecret {
    type V = Seq<u8>;

    closed spec fn view(&self) -> Seq<u8> {
        self.key@
    }
}

impl PairSecret {
    pub fn derive(h1_hex: &str, challenge: &str) -> (r: Self)
        ensures
            r@ == pair_key(h1_hex@, challenge@),
    {
        let parts = ["ra-pair-v1".as_bytes(), h1_hex.as_bytes(), challenge.as_bytes()];
        let key = sha256(&parts);
        proof {
            lemma_joined_3(parts@);
        }
        PairSecret { key }
    }

    /// Seal a 4-digit PIN under the given nonce. Returns hex(nonce || ciphertext || tag).
    pub fn seal_pin_with(&self, pin: &str, nonce: &[u8]) -> (r: Result<String, CryptoError>)
        requires
            nonce@.len() == 12,
        ensures
            match r {
                Ok(s) => {
                    &&& valid_pin(pin@)
                    &&& s@ == sealed_pin_of(self@, nonce@, pin@)
                    &&& s@.len() == 64 && utf8(s@).len() == 64
                    &&& opened_pin(self@, s@) == Ok::<Seq<char>, CryptoError>(pin@)
                },
                Err(e) => !valid_pin(pin@) && e == CryptoError::BadPin,
            },
    {
        if !is_valid_pin(pin) {
            return Err(CryptoError::BadPin);
        }
        proof {
            lemma_pin_utf8_len(pin@);
        }
        match chacha_seal(&self.key, nonce, pin.as_bytes()) {
            None => Err(CryptoError::Decrypt),
            Some(ct) => {
                let mut out: Vec<u8> = Vec::new();
                out.extend_from_slice(nonce);
                out.extend_from_slice(ct.as_slice());
                proof {
                    assert(out@ =~= nonce@ + ct@);
                    assert(out@.take(12) =~= nonce@);
                    assert(out@.skip(12) =~= ct@);
                    hex_round_trip(out@);
                    lemma_hex_utf8_len(out@);
                    vstd::utf8::encode_utf8_valid_utf8(pin@);
                    vstd::utf8::encode_utf8_decode_utf8(pin@);
                }
                Ok(hex_encode(out.as_slice()))
            },
        }
    }

    /// Seal a 4-digit PIN. Returns hex(nonce || ciphertext || tag).
    pub fn seal_pin(&self, pin: &str) -> (r: Result<String, CryptoError>)
        ensures
            match r {
                Ok(s) => {
                    &&& valid_pin(pin@)
                    &&& exists|nonce: Seq<u8>|
                        nonce.len() == 12 && s@ == sealed_pin_of(self@, nonce, pin@)
                    &&& s@.len() == 64 && utf8(s@).len() == 64
                    &&& opened_pin(self@, s@) == Ok::<Seq<char>, CryptoError>(pin@)
                },
                Err(e) => !valid_pin(pin@) && e == CryptoError::BadPin,
            },
    {
        let nonce = random_bytes(12);
        let r = self.seal_pin_with(pin, nonce.as_slice());
        assert(nonce@.len() == 12);
        r
    }

    pub fn open_pin(&self, sealed_hex: &str) -> (r: Result<String, CryptoError>)
        ensures
            match r {
                Ok(s) => opened_pin(self@, sealed_hex@) == Ok::<Seq<char>, CryptoError>(s@),
                Err(e) => opened_pin(self@, sealed_hex@) == Err::<Seq<char>, CryptoError>(e),
            },
    {
        let raw = match hex_decode(sealed_hex) {
            Ok(v) => v,
            Err(e) => return Err(CryptoError::Hex(e)),
        };
        if raw.len() < 12 + 16 {
            return Err(CryptoError::TooShort);
        }
        let (nonce, ct) = raw.as_slice().split_at(12);
        proof {
            assert(nonce@ =~= raw@.take(12));
            assert(ct@ =~= raw@.skip(12));
        }
        match chacha_open(&self.key, nonce, ct) {
            None => Err(CryptoError::Decrypt),
            Some(pt) => match text_from_utf8(pt) {
                Err(_) => Err(CryptoError::Decrypt),
                Ok(pin) => {
                    proof {
                        vstd::utf8::encode_utf8_decode_utf8(pin@);
                    }
                    if !is_valid_pin(pin.as_str()) {
                        return Err(CryptoError::BadPin);
                    }
                    Ok(pin)
                },
            },
        }
    }
}

/// `hex(SHA256(token))`, what the rendezvous server stores for a host token.
pub fn token_fingerprint(token: &str) -> (r: String)
    ensures
        r@ == fingerprint_of(token@),
{
    let d = sha256_digest(token.as_bytes());
    hex_encode(&d)
}

/// A PIN takes four bytes.
proof fn lemma_pin_utf8_len(pin: Seq<char>)
    requires
        valid_pin(pin),
    ensures
        utf8(pin).len() == 4,
{
    assert forall|i: int| 0 <= i < pin.len() implies '\0' <= #[trigger] pin[i] <= '\u{7f}' by {
        assert(is_digit(pin[i]));
    }
    vstd::utf8::is_ascii_chars_encode_utf8(pin);
}

/// Hexadecimal notation takes a byte for each digit.
proof fn lemma_hex_utf8_len(b: Seq<u8>)
    ensures
        hex_of(b).len() == 2 * b.len(),
        utf8(hex_of(b)).len() == 2 * b.len(),
{
    let s = hex_of(b);
    assert forall|i: int| 0 <= i < s.len() implies '\0' <= #[trigger] s[i] <= '\u{7f}' by {
        assert(0 <= nibble(b, i) < 16);
    }
    vstd::utf8::is_ascii_chars_encode_utf8(s);
}

/// A run of hexadecimal digits has no first byte that is none.
proof fn lemma_first_non_hex(b: Seq<u8>)
    requires
        forall|i: int| 0 <= i < b.len() ==> hex_value(#[trigger] b[i]) is Some,
    ensures
        first_non_hex(b) == b.len(),
    decreases b.len(),
{
    if b.len() > 0 {
        let t = b.drop_first();
        assert forall|i: int| 0 <= i < t.len() implies hex_value(#[trigger] t[i]) is Some by {
            assert(t[i] == b[i + 1]);
        }
        lemma_first_non_hex(t);
    }
}

/// Reading the hexadecimal notation of some bytes gives the bytes back.
pub proof fn hex_round_trip(b: Seq<u8>)
    ensures
        hex_decoded(utf8(hex_of(b))) == Ok::<Seq<u8>, HexError>(b),
{
    let s = hex_of(b);
    assert forall|i: int| 0 <= i < s.len() implies '\0' <= #[trigger] s[i] <= '\u{7f}' by {
        assert(0 <= nibble(b, i) < 16);
        assert(s[i] == hex_digit(nibble(b, i)));
    }
    vstd::utf8::is_ascii_chars_encode_utf8(s);
    let u = utf8(s);
    assert forall|i: int| 0 <= i < u.len() implies hex_value(#[trigger] u[i]) == Some(
        nibble(b, i),
    ) by {
        assert(0 <= nibble(b, i) < 16);
        assert(s[i] == hex_digit(nibble(b, i)));
        assert(u[i] == s[i] as u8);
    }
    lemma_first_non_hex(u);
    let back = hex_decoded(u)->Ok_0;
    assert(back.len() == b.len());
    assert forall|i: int| 0 <= i < b.len() implies back[i] == b[i] by {
        assert(hex_value(u[2 * i]) == Some(nibble(b, 2 * i)));
        assert(hex_value(u[2 * i + 1]) == Some(nibble(b, 2 * i + 1)));
        assert((2 * i + 1) / 2 == i);
    }
    assert(back =~= b);
}

} // verus!
