//! Rendezvous ("ID server"): ID registration, liveness, address lookup, and a
//! queue that carries password-authenticated pairing requests from a client
//! to the host agent sitting next to Apollo.
//!
//! The server is deliberately *untrusted*: it sees `h2` (a challenge hash)
//! and a sealed PIN it cannot open, never the password.
//!
//! Every operation takes the time as an argument: `now` counts nanoseconds of a
//! clock that never runs backwards, `unix` seconds since the Unix epoch.

use std::collections::VecDeque;
use vstd::prelude::*;
use crate::foreign::hex_of;
use crate::proto::{
    clone_endpoints, ct_eq, endpoint_views, fingerprint_of, is_valid_id, lemma_ids_are_numbers,
    random_hex, random_id, same_endpoints, token_fingerprint, valid_id, ChallengeResponse, ChallengeResponseView, Endpoint,
    EndpointView, HostInfo, HostInfoView, PairRequest, PairRequestView, PairResult, PairResultView,
    RegisterRequest, RegisterRequestView, RegisterResponse, RegisterResponseView, SubmitPairRequest,
    SubmitPairRequestView,
};
use crate::table::{kept, Table};
use crate::text::{
    before_first, byte_len, chars, decimal_text, digits_value, has_prefix, slice_text, starts_with, str_eq, str_view, text_view,
    trim, trimmed, until, utf8,
};

verus! {

pub const HEARTBEAT_SECS: u64 = 30;

pub const OFFLINE_AFTER_SECS: u64 = 90;

pub const CHALLENGE_TTL_SECS: u64 = 120;

pub const RESULT_TTL_SECS: u64 = 300;

pub const MAX_LONG_POLL_SECS: u64 = 30;

/// Max challenges per host per minute, to slow online password guessing.
pub const CHALLENGES_PER_MINUTE: usize = 20;

/// How often an id is drawn at random before the lowest free one is taken.
pub const ID_DRAWS: u32 = 1_000_000;

/// Nanoseconds in a second.
pub const NANOS_PER_SEC: u64 = 1_000_000_000;

/// A minute in nanoseconds.
pub const MINUTE_NANOS: u64 = 60_000_000_000;

#[derive(Debug)]
pub struct HostRecord {
    pub id: String,
    pub token_fp: String,
    pub name: String,
    pub platform: String,
    pub endpoints: Vec<Endpoint>,
    pub password_salt: String,
    pub agent_version: String,
    /// When the host was last heard of since the server started.
    pub last_seen: Option<u64>,
    pub last_seen_unix: u64,
}

/// What a [`HostRecord`] holds.
#[verifier::ext_equal]
pub struct HostRecordView {
    pub id: Seq<char>,
    pub token_fp: Seq<char>,
    pub name: Seq<char>,
    pub platform: Seq<char>,
    pub endpoints: Seq<EndpointView>,
    pub password_salt: Seq<char>,
    pub agent_version: Seq<char>,
    pub last_seen: Option<u64>,
    pub last_seen_unix: u64,
}

impl View for HostRecord {
    type V = HostRecordView;

    open spec fn view(&self) -> HostRecordView {
        HostRecordView {
            id: self.id@,
            token_fp: self.token_fp@,
            name: self.name@,
            platform: self.platform@,
            endpoints: endpoint_views(self.endpoints@),
            password_salt: self.password_salt@,
            agent_version: self.agent_version@,
            last_seen: self.last_seen,
            last_seen_unix: self.last_seen_unix,
        }
    }
}

impl Clone for HostRecord {
    fn clone(&self) -> (r: Self)
        ensures
            r@ == self@,
    {
        HostRecord {
            id: self.id.clone(),
            token_fp: self.token_fp.clone(),
            name: self.name.clone(),
            platform: self.platform.clone(),
            endpoints: clone_endpoints(&self.endpoints),
            password_salt: self.password_salt.clone(),
            agent_version: self.agent_version.clone(),
            last_seen: self.last_seen,
            last_seen_unix: self.last_seen_unix,
        }
    }
}

/// What the server keeps of a host in memory only: pair requests that wait for it
/// and the times of the latest challenges.
pub struct HostRuntime {
    pending: VecDeque<PairRequest>,
    challenge_times: VecDeque<u64>,
}

/// What a [`HostRuntime`] holds.
#[verifier::ext_equal]
pub struct HostRuntimeView {
    pub pending: Seq<PairRequestView>,
    pub challenge_times: Seq<u64>,
}

/// What a queue of pair requests holds.
pub open spec fn request_views(v: Seq<PairRequest>) -> Seq<PairRequestView> {
    Seq::new(v.len(), |i: int| v[i]@)
}

impl View for HostRuntime {
    type V = HostRuntimeView;

    closed spec fn view(&self) -> HostRuntimeView {
        HostRuntimeView {
            pending: request_views(self.pending@),
            challenge_times: self.challenge_times@,
        }
    }
}

/// A host of which nothing is kept in memory yet.
pub open spec fn no_runtime() -> HostRuntimeView {
    HostRuntimeView { pending: Seq::empty(), challenge_times: Seq::empty() }
}

/// A challenge that a client may answer.
pub struct Challenge {
    host_id: String,
    challenge: String,
    created: u64,
}

/// What a [`Challenge`] holds.
#[verifier::ext_equal]
pub struct ChallengeView {
    pub host_id: Seq<char>,
    pub challenge: Seq<char>,
    pub created: u64,
}

impl View for Challenge {
    type V = ChallengeView;

    closed spec fn view(&self) -> ChallengeView {
        ChallengeView {
            host_id: self.host_id@,
            challenge: self.challenge@,
            created: self.created,
        }
    }
}

/// Where the result of a pair request will be found.
pub struct ResultSlot {
    result: Option<PairResult>,
    created: u64,
}

/// What a [`ResultSlot`] holds.
#[verifier::ext_equal]
pub struct ResultSlotView {
    pub result: Option<PairResultView>,
    pub created: u64,
}

/// What an optional result holds.
pub open spec fn result_view(r: Option<PairResult>) -> Option<PairResultView> {
    match r {
        Some(p) => Some(p@),
        None => None,
    }
}

impl View for ResultSlot {
    type V = ResultSlotView;

    closed spec fn view(&self) -> ResultSlotView {
        ResultSlotView { result: result_view(self.result), created: self.created }
    }
}

/// An error that a request is answered with: an HTTP status and a message.
#[derive(Debug)]
pub struct ApiError {
    pub code: u16,
    pub message: String,
}

/// What an [`ApiError`] holds.
#[verifier::ext_equal]
pub struct ApiErrorView {
    pub code: u16,
    pub message: Seq<char>,
}

impl View for ApiError {
    type V = ApiErrorView;

    open spec fn view(&self) -> ApiErrorView {
        ApiErrorView { code: self.code, message: self.message@ }
    }
}

/// An error with a status and a message.
pub fn err(code: u16, message: &str) -> (r: ApiError)
    ensures
        r@ == (ApiErrorView { code, message: message@ }),
{
    ApiError { code, message: message.to_owned() }
}

/// What a result or an error holds.
pub open spec fn api_result<T: View>(r: Result<T, ApiError>) -> Result<T::V, ApiErrorView> {
    match r {
        Ok(v) => Ok(v@),
        Err(e) => Err(e@),
    }
}

/// An error with a status and a message.
pub open spec fn api_err<T>(code: u16, message: Seq<char>) -> Result<T, ApiErrorView> {
    Err(ApiErrorView { code, message })
}

pub struct HeartbeatBody {
    pub endpoints: Option<Vec<Endpoint>>,
}

pub struct WaitQuery {
    pub wait: Option<u64>,
}

/// What a long poll does now.
pub enum Poll<T> {
    /// Answer with this.
    Ready(T),
    /// Look again after a change, or after so many nanoseconds.
    Wait(u64),
}

/// The whole seconds from `t` to `now`; zero where `t` is later.
pub open spec fn elapsed_secs(now: u64, t: u64) -> u64 {
    if now >= t {
        ((now - t) / (NANOS_PER_SEC as int)) as u64
    } else {
        0
    }
}

/// The whole seconds from `t` to `now`; zero where `t` is later.
pub fn seconds_since(now: u64, t: u64) -> (r: u64)
    ensures
        r == elapsed_secs(now, t),
{
    if now >= t {
        (now - t) / NANOS_PER_SEC
    } else {
        0
    }
}

/// Whether fewer than `ttl` whole seconds have passed from `t` to `now`.
fn younger(now: u64, t: u64, ttl: u64) -> (r: bool)
    ensures
        r == (elapsed_secs(now, t) < ttl),
{
    seconds_since(now, t) < ttl
}

/// When a long poll that starts at `now` ends: after the time asked for, at most
/// half a minute.
pub open spec fn deadline_of(wait: Option<u64>, now: u64) -> u64 {
    let asked = match wait {
        Some(w) => w,
        None => 0,
    };
    let secs = if asked < MAX_LONG_POLL_SECS {
        asked
    } else {
        MAX_LONG_POLL_SECS
    };
    if now + secs * NANOS_PER_SEC > u64::MAX {
        u64::MAX
    } else {
        (now + secs * NANOS_PER_SEC) as u64
    }
}

/// When a long poll that starts at `now` ends.
pub fn poll_deadline(q: &WaitQuery, now: u64) -> (r: u64)
    ensures
        r == deadline_of(q.wait, now),
{
    let asked: u64 = match q.wait {
        Some(w) => w,
        None => 0,
    };
    let secs: u64 = if asked < MAX_LONG_POLL_SECS {
        asked
    } else {
        MAX_LONG_POLL_SECS
    };
    let nanos: u64 = secs * NANOS_PER_SEC;
    if now > u64::MAX - nanos {
        u64::MAX
    } else {
        now + nanos
    }
}

/// The token in an `Authorization` header.
pub open spec fn bearer_of(header: Option<Seq<char>>) -> Option<Seq<char>> {
    match header {
        None => None,
        Some(h) => if has_prefix(h, "Bearer "@) {
            Some(trimmed(h.skip("Bearer "@.len() as int)))
        } else {
            None
        },
    }
}

/// The token in the text of an `Authorization` header.
pub fn bearer(header: Option<&str>) -> (r: Option<String>)
    ensures
        text_view(r) == bearer_of(str_view(header)),
{
    match header {
        None => None,
        Some(h) => {
            if !starts_with(h, "Bearer ") {
                return None;
            }
            proof {
                reveal_strlit("Bearer ");
            }
            let v = chars(h);
            let rest = slice_text(v.as_slice(), 7, v.len());
            assert(rest@ =~= h@.skip(7));
            Some(trim(rest.as_str()))
        },
    }
}

/// The address that a request came from: the first that a proxy names, or else
/// the peer's.
pub open spec fn observed_of(forwarded: Option<Seq<char>>, peer: Option<Seq<char>>) -> Option<
    Seq<char>,
> {
    match forwarded {
        Some(v) => Some(trimmed(before_first(v, ','))),
        None => peer,
    }
}

/// The address that a request came from, given the text of its `X-Forwarded-For`
/// header and the peer's address.
pub fn observed_ip(forwarded: Option<&str>, peer: Option<String>) -> (r: Option<String>)
    ensures
        text_view(r) == observed_of(str_view(forwarded), text_view(peer)),
{
    match forwarded {
        Some(v) => {
            let first = until(v, ',');
            Some(trim(first.as_str()))
        },
        None => peer,
    }
}

/// The hosts, and what is on its way to and from them.
pub struct Store {
    hosts: Table<HostRecord>,
    runtime: Table<HostRuntime>,
    challenges: Table<Challenge>,
    results: Table<ResultSlot>,
}

/// What a [`Store`] holds.
#[verifier::ext_equal]
pub struct StoreView {
    pub hosts: Map<Seq<char>, HostRecordView>,
    pub runtime: Map<Seq<char>, HostRuntimeView>,
    pub challenges: Map<Seq<char>, ChallengeView>,
    pub results: Map<Seq<char>, ResultSlotView>,
}

impl View for Store {
    type V = StoreView;

    closed spec fn view(&self) -> StoreView {
        StoreView {
            hosts: self.hosts@,
            runtime: self.runtime@,
            challenges: self.challenges@,
            results: self.results@,
        }
    }
}

/// The times of the challenges that still count at `now`: the oldest ones are
/// dropped while they are more than a minute old.
pub open spec fn recent_times(times: Seq<u64>, now: u64) -> Seq<u64>
    decreases times.len(),
{
    if times.len() > 0 && now - times[0] > MINUTE_NANOS {
        recent_times(times.drop_first(), now)
    } else {
        times
    }
}

/// Dropping the oldest times leaves no more than there were.
pub proof fn lemma_recent_times_len(times: Seq<u64>, now: u64)
    ensures
        recent_times(times, now).len() <= times.len(),
    decreases times.len(),
{
    if times.len() > 0 && now - times[0] > MINUTE_NANOS {
        lemma_recent_times_len(times.drop_first(), now);
    }
}

/// A record stands under its own id.
pub open spec fn hosts_wf(hosts: Map<Seq<char>, HostRecordView>) -> bool {
    forall|k: Seq<char>| #[trigger] hosts.contains_key(k) ==> hosts[k].id == k
}

/// No host has more challenges on the books than the limit allows.
pub open spec fn runtime_wf(runtime: Map<Seq<char>, HostRuntimeView>) -> bool {
    forall|k: Seq<char>| #[trigger]
        runtime.contains_key(k) ==> runtime[k].challenge_times.len() <= CHALLENGES_PER_MINUTE
}

impl StoreView {
    /// A record stands under its own id, and no host has more challenges on the
    /// books than the limit allows.
    pub open spec fn wf(self) -> bool {
        hosts_wf(self.hosts) && runtime_wf(self.runtime)
    }

    /// Who may act for the host `id`: the holder of its token.
    pub open spec fn authorized(self, id: Seq<char>, header: Option<Seq<char>>) -> Result<
        (),
        ApiErrorView,
    > {
        match bearer_of(header) {
            None => api_err(401, "missing bearer token"@),
            Some(token) => if !self.hosts.contains_key(id) {
                api_err(404, "unknown host id"@)
            } else if self.hosts[id].token_fp != fingerprint_of(token) {
                api_err(403, "bad token"@)
            } else {
                Ok(())
            },
        }
    }

    /// Without expired challenges and results.
    pub open spec fn collected(self, now: u64) -> StoreView {
        StoreView {
            challenges: kept(
                self.challenges,
                |c: ChallengeView| elapsed_secs(now, c.created) < CHALLENGE_TTL_SECS,
            ),
            results: kept(
                self.results,
                |r: ResultSlotView| elapsed_secs(now, r.created) < RESULT_TTL_SECS,
            ),
            ..self
        }
    }

    /// With an entry for what is kept of `id` in memory.
    pub open spec fn with_runtime(self, id: Seq<char>) -> StoreView {
        if self.runtime.contains_key(id) {
            self
        } else {
            StoreView { runtime: self.runtime.insert(id, no_runtime()), ..self }
        }
    }

    /// What is wrong with a registration, whatever the store holds.
    pub open spec fn register_fault(req: RegisterRequestView) -> Option<ApiErrorView> {
        if utf8(req.token).len() < 32 {
            Some(ApiErrorView { code: 400, message: "token too short"@ })
        } else if req.name.len() == 0 || utf8(req.name).len() > 64 {
            Some(ApiErrorView { code: 400, message: "name must be 1..64 chars"@ })
        } else if req.endpoints.len() > 16 {
            Some(ApiErrorView { code: 400, message: "too many endpoints"@ })
        } else {
            None
        }
    }

    /// Whether every id is taken.
    pub open spec fn full(self) -> bool {
        forall|id: Seq<char>| valid_id(id) ==> #[trigger] self.hosts.contains_key(id)
    }

    /// The id that a registration is for; `fresh` is one drawn for a request that
    /// names none.
    pub open spec fn register_id(self, req: RegisterRequestView, fresh: Option<Seq<char>>) -> Result<
        Seq<char>,
        ApiErrorView,
    > {
        match req.id {
            Some(id) => if !valid_id(id) {
                api_err(400, "malformed id"@)
            } else if self.hosts.contains_key(id) && self.hosts[id].token_fp != fingerprint_of(
                req.token,
            ) {
                api_err(403, "id is owned by a different token"@)
            } else {
                Ok(id)
            },
            None => match fresh {
                Some(id) => Ok(id),
                None => api_err(503, "no free host id"@),
            },
        }
    }

    /// The record of a registration.
    pub open spec fn record_of(
        req: RegisterRequestView,
        id: Seq<char>,
        now: u64,
        unix: u64,
    ) -> HostRecordView {
        HostRecordView {
            id,
            token_fp: fingerprint_of(req.token),
            name: req.name,
            platform: req.platform,
            endpoints: req.endpoints,
            password_salt: req.password_salt,
            agent_version: req.agent_version,
            last_seen: Some(now),
            last_seen_unix: unix,
        }
    }

    /// A registration.
    pub open spec fn registered(
        self,
        req: RegisterRequestView,
        fresh: Option<Seq<char>>,
        now: u64,
        unix: u64,
        observed: Option<Seq<char>>,
    ) -> (StoreView, Result<RegisterResponseView, ApiErrorView>) {
        match Self::register_fault(req) {
            Some(e) => (self, Err(e)),
            None => match self.register_id(req, fresh) {
                Err(e) => (self, Err(e)),
                Ok(id) => (
                    (StoreView {
                        hosts: self.hosts.insert(id, Self::record_of(req, id, now, unix)),
                        ..self
                    }).with_runtime(id),
                    Ok(
                        RegisterResponseView {
                            id,
                            observed_addr: observed,
                            heartbeat_secs: HEARTBEAT_SECS,
                        },
                    ),
                ),
            },
        }
    }

    /// With the host `id` heard of at `now`.
    pub open spec fn seen(self, id: Seq<char>, now: u64, unix: u64) -> StoreView {
        StoreView {
            hosts: self.hosts.insert(
                id,
                HostRecordView { last_seen: Some(now), last_seen_unix: unix, ..self.hosts[id] },
            ),
            ..self
        }
    }

    /// Whether a heartbeat brings other endpoints than are known.
    pub open spec fn endpoints_change(self, id: Seq<char>, eps: Option<Seq<EndpointView>>) -> bool {
        eps is Some && eps->0.len() <= 16 && self.hosts[id].endpoints != eps->0
    }

    /// A heartbeat, and whether it changed what is to be persisted.
    pub open spec fn heartbeat(
        self,
        id: Seq<char>,
        header: Option<Seq<char>>,
        eps: Option<Seq<EndpointView>>,
        now: u64,
        unix: u64,
        observed: Option<Seq<char>>,
    ) -> (StoreView, Result<(RegisterResponseView, bool), ApiErrorView>) {
        match self.authorized(id, header) {
            Err(e) => (self, Err(e)),
            Ok(_) => {
                let changed = self.endpoints_change(id, eps);
                let host = HostRecordView {
                    last_seen: Some(now),
                    last_seen_unix: unix,
                    endpoints: if changed {
                        eps->0
                    } else {
                        self.hosts[id].endpoints
                    },
                    ..self.hosts[id]
                };
                (
                    StoreView { hosts: self.hosts.insert(id, host), ..self },
                    Ok(
                        (
                            RegisterResponseView {
                                id,
                                observed_addr: observed,
                                heartbeat_secs: HEARTBEAT_SECS,
                            },
                            changed,
                        ),
                    ),
                )
            },
        }
    }

    /// The seconds since a host was last heard of.
    pub open spec fn last_seen_secs(self, id: Seq<char>, now: u64) -> u64 {
        match self.hosts[id].last_seen {
            Some(t) => elapsed_secs(now, t),
            None => u64::MAX,
        }
    }

    /// What clients are told of a host.
    pub open spec fn info(self, id: Seq<char>, now: u64) -> Result<HostInfoView, ApiErrorView> {
        if !self.hosts.contains_key(id) {
            api_err(404, "unknown host id"@)
        } else {
            let host = self.hosts[id];
            Ok(
                HostInfoView {
                    id: host.id,
                    name: host.name,
                    platform: host.platform,
                    online: self.last_seen_secs(id, now) < OFFLINE_AFTER_SECS,
                    endpoints: host.endpoints,
                    password_salt: host.password_salt,
                    last_seen_secs: self.last_seen_secs(id, now),
                },
            )
        }
    }

    /// A host's poll: all requests that wait for it, in order, which then wait no
    /// longer; where there is none, an empty answer once the deadline has passed.
    pub open spec fn polled(
        self,
        id: Seq<char>,
        header: Option<Seq<char>>,
        deadline: u64,
        now: u64,
        unix: u64,
    ) -> (StoreView, Result<Poll<Seq<PairRequestView>>, ApiErrorView>) {
        match self.authorized(id, header) {
            Err(e) => (self, Err(e)),
            Ok(_) => {
                let s = self.seen(id, now, unix).with_runtime(id);
                let pending = s.runtime[id].pending;
                if pending.len() > 0 {
                    (
                        StoreView {
                            runtime: s.runtime.insert(
                                id,
                                HostRuntimeView { pending: Seq::empty(), ..s.runtime[id] },
                            ),
                            ..s
                        },
                        Ok(Poll::Ready(pending)),
                    )
                } else if deadline <= now {
                    (s, Ok(Poll::Ready(Seq::empty())))
                } else {
                    (s, Ok(Poll::Wait((deadline - now) as u64)))
                }
            },
        }
    }

    /// A host's result for a pair request.
    pub open spec fn with_result(
        self,
        id: Seq<char>,
        header: Option<Seq<char>>,
        res: PairResultView,
    ) -> (StoreView, Result<u16, ApiErrorView>) {
        match self.authorized(id, header) {
            Err(e) => (self, Err(e)),
            Ok(_) => if !self.results.contains_key(res.request_id) {
                (self, api_err(404, "unknown request id"@))
            } else {
                (
                    StoreView {
                        results: self.results.insert(
                            res.request_id,
                            ResultSlotView { result: Some(res), ..self.results[res.request_id] },
                        ),
                        ..self
                    },
                    Ok(204),
                )
            },
        }
    }

    /// A client's wish for a challenge, for which `request_id` and `challenge` were
    /// drawn.
    pub open spec fn challenged(
        self,
        id: Seq<char>,
        now: u64,
        request_id: Seq<char>,
        challenge: Seq<char>,
    ) -> (StoreView, Result<ChallengeResponseView, ApiErrorView>) {
        let s = self.collected(now);
        if !s.hosts.contains_key(id) {
            (s, api_err(404, "unknown host id"@))
        } else {
            let s = s.with_runtime(id);
            let times = recent_times(s.runtime[id].challenge_times, now);
            if times.len() >= CHALLENGES_PER_MINUTE {
                (
                    StoreView {
                        runtime: s.runtime.insert(
                            id,
                            HostRuntimeView { challenge_times: times, ..s.runtime[id] },
                        ),
                        ..s
                    },
                    api_err(429, "too many pairing attempts, slow down"@),
                )
            } else {
                (
                    StoreView {
                        runtime: s.runtime.insert(
                            id,
                            HostRuntimeView { challenge_times: times.push(now), ..s.runtime[id] },
                        ),
                        challenges: s.challenges.insert(
                            request_id,
                            ChallengeView { host_id: id, challenge, created: now },
                        ),
                        ..s
                    },
                    Ok(ChallengeResponseView { request_id, challenge, ttl_secs: CHALLENGE_TTL_SECS }),
                )
            }
        }
    }

    /// What is wrong with a pair request, whatever the store holds.
    pub open spec fn submit_fault(req: SubmitPairRequestView) -> Option<ApiErrorView> {
        if req.device_name.len() == 0 || utf8(req.device_name).len() > 64 {
            Some(ApiErrorView { code: 400, message: "device_name must be 1..64 chars"@ })
        } else if utf8(req.response).len() != 64 || utf8(req.sealed_pin).len() > 256 {
            Some(ApiErrorView { code: 400, message: "malformed response or sealed_pin"@ })
        } else {
            None
        }
    }

    /// Whether a host was heard of lately.
    pub open spec fn online(self, id: Seq<char>, now: u64) -> bool {
        self.hosts.contains_key(id) && self.hosts[id].last_seen is Some && elapsed_secs(
            now,
            self.hosts[id].last_seen->0,
        ) < OFFLINE_AFTER_SECS
    }

    /// The request that the host will get.
    pub open spec fn request_of(req: SubmitPairRequestView, challenge: Seq<char>) -> PairRequestView {
        PairRequestView {
            request_id: req.request_id,
            challenge,
            response: req.response,
            device_name: req.device_name,
            client_uid: req.client_uid,
            sealed_pin: req.sealed_pin,
            remember: req.remember,
        }
    }

    /// A client's pair request. It uses its challenge up, even where it then fails.
    pub open spec fn submitted(self, id: Seq<char>, req: SubmitPairRequestView, now: u64) -> (
        StoreView,
        Result<u16, ApiErrorView>,
    ) {
        match Self::submit_fault(req) {
            Some(e) => (self, Err(e)),
            None => if !self.challenges.contains_key(req.request_id) {
                (self, api_err(404, "unknown or expired challenge"@))
            } else {
                let ch = self.challenges[req.request_id];
                let s = StoreView { challenges: self.challenges.remove(req.request_id), ..self };
                if ch.host_id != id {
                    (s, api_err(400, "challenge belongs to a different host"@))
                } else if elapsed_secs(now, ch.created) >= CHALLENGE_TTL_SECS {
                    (s, api_err(410, "challenge expired"@))
                } else if !s.online(id, now) {
                    (s, api_err(503, "host is offline"@))
                } else {
                    let t = s.with_runtime(id);
                    (
                        StoreView {
                            results: t.results.insert(
                                req.request_id,
                                ResultSlotView { result: None, created: now },
                            ),
                            runtime: t.runtime.insert(
                                id,
                                HostRuntimeView {
                                    pending: t.runtime[id].pending.push(
                                        Self::request_of(req, ch.challenge),
                                    ),
                                    ..t.runtime[id]
                                },
                            ),
                            ..t
                        },
                        Ok(202),
                    )
                }
            },
        }
    }

    /// A client's poll for the result of its request.
    pub open spec fn result(self, request_id: Seq<char>, deadline: u64, now: u64) -> Result<
        Poll<Option<PairResultView>>,
        ApiErrorView,
    > {
        if !self.results.contains_key(request_id) {
            api_err(404, "unknown request id"@)
        } else if self.results[request_id].result is Some {
            Ok(Poll::Ready(self.results[request_id].result))
        } else if deadline <= now {
            Ok(Poll::Ready(None))
        } else {
            Ok(Poll::Wait((deadline - now) as u64))
        }
    }
}

/// What a poll for requests holds.
pub open spec fn poll_requests_view(r: Result<Poll<Vec<PairRequest>>, ApiError>) -> Result<
    Poll<Seq<PairRequestView>>,
    ApiErrorView,
> {
    match r {
        Ok(Poll::Ready(v)) => Ok(Poll::Ready(request_views(v@))),
        Ok(Poll::Wait(n)) => Ok(Poll::Wait(n)),
        Err(e) => Err(e@),
    }
}

/// What a poll for a result holds.
pub open spec fn poll_result_view(r: Result<Poll<Option<PairResult>>, ApiError>) -> Result<
    Poll<Option<PairResultView>>,
    ApiErrorView,
> {
    match r {
        Ok(Poll::Ready(v)) => Ok(Poll::Ready(result_view(v))),
        Ok(Poll::Wait(n)) => Ok(Poll::Wait(n)),
        Err(e) => Err(e@),
    }
}

/// What the answer to a heartbeat holds.
pub open spec fn heartbeat_view(r: Result<(RegisterResponse, bool), ApiError>) -> Result<
    (RegisterResponseView, bool),
    ApiErrorView,
> {
    match r {
        Ok((resp, changed)) => Ok((resp@, changed)),
        Err(e) => Err(e@),
    }
}

/// The status that a request is answered with.
pub open spec fn status_view(r: Result<u16, ApiError>) -> Result<u16, ApiErrorView> {
    match r {
        Ok(code) => Ok(code),
        Err(e) => Err(e@),
    }
}

/// What a heartbeat says of endpoints.
pub open spec fn body_endpoints(body: Option<HeartbeatBody>) -> Option<Seq<EndpointView>> {
    match body {
        Some(b) => match b.endpoints {
            Some(v) => Some(endpoint_views(v@)),
            None => None,
        },
        None => None,
    }
}

impl HostRuntime {
    /// Nothing is kept yet.
    fn new() -> (r: Self)
        ensures
            r@ == no_runtime(),
    {
        let r = HostRuntime { pending: VecDeque::new(), challenge_times: VecDeque::new() };
        assert(r@ =~= no_runtime());
        r
    }
}

/// Drops the oldest times while they are more than a minute old.
fn drop_old_times(times: &mut VecDeque<u64>, now: u64)
    ensures
        final(times)@ == recent_times(old(times)@, now),
{
    let ghost before = times@;
    while times.len() > 0 && now >= times[0] && now - times[0] > MINUTE_NANOS
        invariant
            recent_times(before, now) == recent_times(times@, now),
        decreases times@.len(),
    {
        let ghost was = times@;
        let _ = times.pop_front();
        assert(times@ =~= was.drop_first());
    }
}

impl Store {
    /// The tables are sound, a record stands under its own id, and no host has
    /// more challenges on the books than the limit allows.
    pub closed spec fn wf(&self) -> bool {
        &&& self.hosts.wf()
        &&& self.runtime.wf()
        &&& self.challenges.wf()
        &&& self.results.wf()
        &&& self@.wf()
    }

    /// A store without hosts.
    pub fn new() -> (r: Self)
        ensures
            r.wf(),
            r@ == (StoreView {
                hosts: Map::empty(),
                runtime: Map::empty(),
                challenges: Map::empty(),
                results: Map::empty(),
            }),
    {
        Store {
            hosts: Table::new(),
            runtime: Table::new(),
            challenges: Table::new(),
            results: Table::new(),
        }
    }

    /// A store with the hosts read from a state file; of records with the same id
    /// the last one counts.
    pub fn from_hosts(hosts: Vec<HostRecord>) -> (r: Self)
        ensures
            r.wf(),
            r@ == (StoreView {
                hosts: hosts_by_id(record_views(hosts@)),
                runtime: Map::empty(),
                challenges: Map::empty(),
                results: Map::empty(),
            }),
    {
        let mut s = Store::new();
        let mut i: usize = 0;
        let ghost views = record_views(hosts@);
        assert(views.take(0) =~= Seq::empty());
        while i < hosts.len()
            invariant
                views == record_views(hosts@),
                i <= hosts@.len(),
                s.wf(),
                s@.hosts == hosts_by_id(views.take(i as int)),
                s@.runtime == Map::<Seq<char>, HostRuntimeView>::empty(),
                s@.challenges == Map::<Seq<char>, ChallengeView>::empty(),
                s@.results == Map::<Seq<char>, ResultSlotView>::empty(),
            decreases hosts.len() - i,
        {
            let h = hosts[i].clone();
            proof {
                assert(views.take(i + 1).drop_last() =~= views.take(i as int));
                assert(views.take(i + 1).last() == h@);
            }
            s.hosts.insert(h.id.clone(), h);
            i += 1;
        }
        assert(views.take(i as int) =~= views);
        s
    }

    /// The records to persist, in some order.
    pub fn records(&self) -> (r: Vec<HostRecord>)
        requires
            self.wf(),
        ensures
            hosts_by_id(record_views(r@)) == self@.hosts,
            forall|i: int, j: int|
                0 <= i < j < r@.len() ==> (#[trigger] r@[i]).id@ != (#[trigger] r@[j]).id@,
    {
        let mut out: Vec<HostRecord> = Vec::new();
        let n: usize = self.hosts.len();
        let mut i: usize = 0;
        while i < n
            invariant
                self.wf(),
                n == self.hosts.size(),
                i <= n,
                out@.len() == i,
                forall|j: int|
                    0 <= j < i ==> {
                        &&& self@.hosts.contains_key(self.hosts.key(j))
                        &&& (#[trigger] out@[j])@ == self@.hosts[self.hosts.key(j)]
                        &&& out@[j].id@ == self.hosts.key(j)
                    },
            decreases n - i,
        {
            let h = self.hosts.value_at(i);
            assert(self@.hosts.contains_key(self.hosts.key(i as int)));
            out.push(h.clone());
            i += 1;
        }
        proof {
            self.hosts.lemma_keys();
            let views = record_views(out@);
            assert forall|i: int, j: int| 0 <= i < j < out@.len() implies (#[trigger] out@[i]).id@
                != (#[trigger] out@[j]).id@ by {
                assert(self.hosts.key(i) != self.hosts.key(j));
            }
            lemma_hosts_by_id(views);
            let m = hosts_by_id(views);
            assert forall|k: Seq<char>| #[trigger] self@.hosts.contains_key(k) implies m.contains_key(
                k,
            ) by {
                let i = choose|i: int| 0 <= i < self.hosts.size() && #[trigger] self.hosts.key(i)
                    == k;
                assert(out@[i]@ == self@.hosts[k]);
                assert(views[i] == out@[i]@);
                assert(views[i].id == k);
            }
            assert forall|k: Seq<char>| #[trigger]
                m.contains_key(k) implies self@.hosts.contains_key(k) && m[k]
                == self@.hosts[k] by {
                let i = choose|i: int| 0 <= i < views.len() && (#[trigger] views[i]).id == k;
                assert(views[i] == out@[i]@);
                assert(out@[i].id@ == k);
            }
            assert(m =~= self@.hosts);
        }
        out
    }

    /// Drop expired challenges and results. Called opportunistically.
    pub fn gc(&mut self, now: u64)
        requires
            old(self).wf(),
        ensures
            final(self).wf(),
            final(self)@ == old(self)@.collected(now),
    {
        let ghost live = |c: ChallengeView| elapsed_secs(now, c.created) < CHALLENGE_TTL_SECS;
        let ghost fresh = |r: ResultSlotView| elapsed_secs(now, r.created) < RESULT_TTL_SECS;
        let keep_challenge = |c: &Challenge| -> (b: bool)
            ensures
                b == live(c@),
            { younger(now, c.created, CHALLENGE_TTL_SECS) };
        let keep_result = |r: &ResultSlot| -> (b: bool)
            ensures
                b == fresh(r@),
            { younger(now, r.created, RESULT_TTL_SECS) };
        self.challenges.retain(keep_challenge, Ghost(live));
        self.results.retain(keep_result, Ghost(fresh));
        assert(self@.wf());
    }

    /// Whether the holder of the token in an `Authorization` header may act for
    /// the host `id`.
    pub fn authorize(&self, id: &str, header: Option<&str>) -> (r: Result<(), ApiError>)
        requires
            self.wf(),
        ensures
            match r {
                Ok(_) => self@.authorized(id@, str_view(header)) is Ok,
                Err(e) => self@.authorized(id@, str_view(header)) == Err::<(), ApiErrorView>(e@),
            },
    {
        let token = match bearer(header) {
            Some(t) => t,
            None => return Err(err(401, "missing bearer token")),
        };
        let host = match self.hosts.get(id) {
            Some(h) => h,
            None => return Err(err(404, "unknown host id")),
        };
        let fp = token_fingerprint(token.as_str());
        if !ct_eq(host.token_fp.as_str(), fp.as_str()) {
            return Err(err(403, "bad token"));
        }
        Ok(())
    }

    /// Makes an entry for what is kept of `id` in memory, where there is none.
    fn ensure_runtime(&mut self, id: &str)
        requires
            old(self).wf(),
        ensures
            final(self).wf(),
            final(self)@ == old(self)@.with_runtime(id@),
            final(self).hosts == old(self).hosts,
    {
        if !self.runtime.contains_key(id) {
            self.runtime.insert(id.to_owned(), HostRuntime::new());
            assert(self@.wf());
        }
    }

    /// The lowest id that no host has.
    pub fn lowest_free_id(&self) -> (r: Option<String>)
        requires
            self.wf(),
        ensures
            match r {
                Some(id) => {
                    &&& valid_id(id@) && !self@.hosts.contains_key(id@)
                    &&& forall|other: Seq<char>|
                        valid_id(other) && digits_value(other) < digits_value(id@)
                            ==> #[trigger] self@.hosts.contains_key(other)
                },
                None => self@.full(),
            },
    {
        let mut n: u64 = 100_000_000;
        assert forall|other: Seq<char>|
            valid_id(other) && digits_value(other) < n implies #[trigger] self@.hosts.contains_key(
            other,
        ) by {
            lemma_ids_are_numbers(other, 0);
        }
        while n < 1_000_000_000
            invariant
                self.wf(),
                100_000_000 <= n <= 1_000_000_000,
                forall|other: Seq<char>|
                    valid_id(other) && digits_value(other) < n
                        ==> #[trigger] self@.hosts.contains_key(other),
            decreases 1_000_000_000 - n,
        {
            let candidate = decimal_text(n);
            proof {
                lemma_ids_are_numbers(candidate@, n as nat);
            }
            if !self.hosts.contains_key(candidate.as_str()) {
                return Some(candidate);
            }
            assert forall|other: Seq<char>|
                valid_id(other) && digits_value(other) < n + 1 implies #[trigger] self@.hosts.contains_key(
                other,
            ) by {
                lemma_ids_are_numbers(other, n as nat);
            }
            n += 1;
        }
        assert forall|other: Seq<char>| valid_id(other) implies #[trigger] self@.hosts.contains_key(
            other,
        ) by {
            lemma_ids_are_numbers(other, 0);
        }
        None
    }

    /// An id that no host has: a random one, or the lowest where none of a great
    /// many draws was free. There is one unless every id is taken.
    pub fn fresh_id(&self) -> (r: Option<String>)
        requires
            self.wf(),
        ensures
            match r {
                Some(id) => valid_id(id@) && !self@.hosts.contains_key(id@),
                None => self@.full(),
            },
    {
        let mut left: u32 = ID_DRAWS;
        while left > 0
            invariant
                self.wf(),
            decreases left,
        {
            let candidate = random_id();
            if !self.hosts.contains_key(candidate.as_str()) {
                return Some(candidate);
            }
            left -= 1;
        }
        self.lowest_free_id()
    }

    /// A registration, with an id drawn for a request that names none.
    pub fn register_with(
        &mut self,
        req: RegisterRequest,
        fresh: Option<String>,
        now: u64,
        unix: u64,
        observed: Option<String>,
    ) -> (r: Result<RegisterResponse, ApiError>)
        requires
            old(self).wf(),
            fresh matches Some(id) ==> !old(self)@.hosts.contains_key(id@),
        ensures
            final(self).wf(),
            (final(self)@, api_result(r)) == old(self)@.registered(
                req@,
                text_view(fresh),
                now,
                unix,
                text_view(observed),
            ),
    {
        if byte_len(req.token.as_str()) < 32 {
            return Err(err(400, "token too short"));
        }
        if chars(req.name.as_str()).len() == 0 || byte_len(req.name.as_str()) > 64 {
            return Err(err(400, "name must be 1..64 chars"));
        }
        if req.endpoints.len() > 16 {
            return Err(err(400, "too many endpoints"));
        }
        let fp = token_fingerprint(req.token.as_str());
        let id = match req.id {
            Some(id) => {
                if !is_valid_id(id.as_str()) {
                    return Err(err(400, "malformed id"));
                }
                match self.hosts.get(id.as_str()) {
                    Some(existing) => {
                        if !ct_eq(existing.token_fp.as_str(), fp.as_str()) {
                            return Err(err(403, "id is owned by a different token"));
                        }
                    },
                    None => {},
                }
                id
            },
            None => match fresh {
                Some(id) => id,
                None => return Err(err(503, "no free host id")),
            },
        };
        let rec = HostRecord {
            id: id.clone(),
            token_fp: fp,
            name: req.name,
            platform: req.platform,
            endpoints: req.endpoints,
            password_salt: req.password_salt,
            agent_version: req.agent_version,
            last_seen: Some(now),
            last_seen_unix: unix,
        };
        self.hosts.insert(id.clone(), rec);
        self.ensure_runtime(id.as_str());
        Ok(RegisterResponse { id, observed_addr: observed, heartbeat_secs: HEARTBEAT_SECS })
    }

    /// A registration. What comes of one that names its id is fixed; one that names
    /// none gets some valid id that was free, unless every id is taken.
    pub fn register(
        &mut self,
        req: RegisterRequest,
        now: u64,
        unix: u64,
        observed: Option<String>,
    ) -> (r: Result<RegisterResponse, ApiError>)
        requires
            old(self).wf(),
        ensures
            final(self).wf(),
            exists|fresh: Option<Seq<char>>|
                {
                    &&& fresh matches Some(id) ==> valid_id(id)
                        && !old(self)@.hosts.contains_key(id)
                    &&& fresh is None ==> req@.id is Some || old(self)@.full()
                    &&& (final(self)@, api_result(r)) == #[trigger] old(self)@.registered(
                        req@,
                        fresh,
                        now,
                        unix,
                        text_view(observed),
                    )
                },
    {
        let fresh = match req.id {
            Some(_) => None,
            None => self.fresh_id(),
        };
        let ghost drawn = text_view(fresh);
        let ghost before = self@;
        let r = self.register_with(req, fresh, now, unix, observed);
        assert((self@, api_result(r)) == before.registered(
            req@,
            drawn,
            now,
            unix,
            text_view(observed),
        ));
        r
    }

    /// A heartbeat; tells whether the records have to be persisted.
    pub fn heartbeat(
        &mut self,
        id: &str,
        header: Option<&str>,
        body: Option<HeartbeatBody>,
        now: u64,
        unix: u64,
        observed: Option<String>,
    ) -> (r: Result<(RegisterResponse, bool), ApiError>)
        requires
            old(self).wf(),
        ensures
            final(self).wf(),
            (final(self)@, heartbeat_view(r)) == old(self)@.heartbeat(
                id@,
                str_view(header),
                body_endpoints(body),
                now,
                unix,
                text_view(observed),
            ),
    {
        match self.authorize(id, header) {
            Ok(_) => {},
            Err(e) => return Err(e),
        }
        let ghost before = self@;
        let mut changed = false;
        if let Some(mut host) = self.hosts.remove(id) {
            host.last_seen = Some(now);
            host.last_seen_unix = unix;
            if let Some(b) = body {
                if let Some(eps) = b.endpoints {
                    if eps.len() <= 16 && !same_endpoints(&host.endpoints, &eps) {
                        host.endpoints = eps;
                        changed = true;
                    }
                }
            }
            self.hosts.insert(id.to_owned(), host);
            proof {
                let h = host@;
                assert(before.hosts.remove(id@).insert(id@, h) =~= before.hosts.insert(id@, h));
            }
        }
        Ok(
            (
                RegisterResponse {
                    id: id.to_owned(),
                    observed_addr: observed,
                    heartbeat_secs: HEARTBEAT_SECS,
                },
                changed,
            ),
        )
    }

    /// What clients are told of a host.
    pub fn host_info(&self, id: &str, now: u64) -> (r: Result<HostInfo, ApiError>)
        requires
            self.wf(),
        ensures
            api_result(r) == self@.info(id@, now),
    {
        let host = match self.hosts.get(id) {
            Some(h) => h,
            None => return Err(err(404, "unknown host id")),
        };
        let last_seen_secs: u64 = match host.last_seen {
            Some(t) => seconds_since(now, t),
            None => u64::MAX,
        };
        Ok(
            HostInfo {
                id: host.id.clone(),
                name: host.name.clone(),
                platform: host.platform.clone(),
                online: last_seen_secs < OFFLINE_AFTER_SECS,
                endpoints: clone_endpoints(&host.endpoints),
                password_salt: host.password_salt.clone(),
                last_seen_secs,
            },
        )
    }

    /// A host's poll for pair requests: an answer, or the time left to wait.
    pub fn poll_pair_requests(
        &mut self,
        id: &str,
        header: Option<&str>,
        deadline: u64,
        now: u64,
        unix: u64,
    ) -> (r: Result<Poll<Vec<PairRequest>>, ApiError>)
        requires
            old(self).wf(),
        ensures
            final(self).wf(),
            (final(self)@, poll_requests_view(r)) == old(self)@.polled(
                id@,
                str_view(header),
                deadline,
                now,
                unix,
            ),
    {
        match self.authorize(id, header) {
            Ok(_) => {},
            Err(e) => return Err(e),
        }
        let ghost before = self@;
        if let Some(mut host) = self.hosts.remove(id) {
            host.last_seen = Some(now);
            host.last_seen_unix = unix;
            self.hosts.insert(id.to_owned(), host);
            proof {
                let h = host@;
                assert(before.hosts.remove(id@).insert(id@, h) =~= before.hosts.insert(id@, h));
            }
        }
        assert(self@ =~= before.seen(id@, now, unix));
        self.ensure_runtime(id);
        let ghost s = self@;
        let mut out: Vec<PairRequest> = Vec::new();
        if let Some(rt) = self.runtime.remove(id) {
            let mut pending = rt.pending;
            let ghost all = pending@;
            assert(all.skip(0) =~= all);
            while pending.len() > 0
                invariant
                    out@ + pending@ =~= all,
                decreases pending@.len(),
            {
                if let Some(p) = pending.pop_front() {
                    out.push(p);
                }
            }
            let emptied = HostRuntime { pending, challenge_times: rt.challenge_times };
            proof {
                assert(out@ =~= all);
                assert(emptied@ =~= (HostRuntimeView {
                    pending: Seq::empty(),
                    ..s.runtime[id@]
                }));
                assert(s.runtime.remove(id@).insert(id@, emptied@) =~= s.runtime.insert(
                    id@,
                    emptied@,
                ));
                if all.len() == 0 {
                    assert(emptied@ =~= s.runtime[id@]);
                    assert(s.runtime.insert(id@, emptied@) =~= s.runtime);
                }
            }
            self.runtime.insert(id.to_owned(), emptied);
        }
        if out.len() > 0 {
            return Ok(Poll::Ready(out));
        }
        if deadline <= now {
            assert(request_views(out@) =~= Seq::empty());
            return Ok(Poll::Ready(out));
        }
        Ok(Poll::Wait(deadline - now))
    }

    /// A host's result for a pair request.
    pub fn post_pair_result(&mut self, id: &str, header: Option<&str>, res: PairResult) -> (r: Result<
        u16,
        ApiError,
    >)
        requires
            old(self).wf(),
        ensures
            final(self).wf(),
            (final(self)@, status_view(r)) == old(self)@.with_result(id@, str_view(header), res@),
    {
        match self.authorize(id, header) {
            Ok(_) => {},
            Err(e) => return Err(e),
        }
        let ghost before = self@;
        match self.results.remove(res.request_id.as_str()) {
            None => {
                assert(self@ =~= before);
                Err(err(404, "unknown request id"))
            },
            Some(slot) => {
                let key = res.request_id.clone();
                let filled = ResultSlot { result: Some(res), created: slot.created };
                proof {
                    assert(before.results.remove(key@).insert(key@, filled@)
                        =~= before.results.insert(key@, filled@));
                }
                self.results.insert(key, filled);
                Ok(204)
            },
        }
    }

    /// A client's wish for a challenge, for which a request id and a challenge
    /// were drawn.
    pub fn challenge_with(
        &mut self,
        id: &str,
        now: u64,
        request_id: String,
        challenge: String,
    ) -> (r: Result<ChallengeResponse, ApiError>)
        requires
            old(self).wf(),
        ensures
            final(self).wf(),
            (final(self)@, api_result(r)) == old(self)@.challenged(
                id@,
                now,
                request_id@,
                challenge@,
            ),
    {
        self.gc(now);
        if !self.hosts.contains_key(id) {
            return Err(err(404, "unknown host id"));
        }
        self.ensure_runtime(id);
        let ghost s = self@;
        let mut rt = match self.runtime.remove(id) {
            Some(rt) => rt,
            None => HostRuntime::new(),
        };
        let ghost was = rt@;
        proof {
            lemma_recent_times_len(was.challenge_times, now);
        }
        drop_old_times(&mut rt.challenge_times, now);
        if rt.challenge_times.len() >= CHALLENGES_PER_MINUTE {
            proof {
                assert(rt@ =~= (HostRuntimeView {
                    challenge_times: recent_times(was.challenge_times, now),
                    ..was
                }));
                assert(s.runtime.remove(id@).insert(id@, rt@) =~= s.runtime.insert(id@, rt@));
            }
            self.runtime.insert(id.to_owned(), rt);
            return Err(err(429, "too many pairing attempts, slow down"));
        }
        rt.challenge_times.push_back(now);
        proof {
            assert(rt@ =~= (HostRuntimeView {
                challenge_times: recent_times(was.challenge_times, now).push(now),
                ..was
            }));
            assert(s.runtime.remove(id@).insert(id@, rt@) =~= s.runtime.insert(id@, rt@));
        }
        self.runtime.insert(id.to_owned(), rt);
        self.challenges.insert(
            request_id.clone(),
            Challenge { host_id: id.to_owned(), challenge: challenge.clone(), created: now },
        );
        Ok(ChallengeResponse { request_id, challenge, ttl_secs: CHALLENGE_TTL_SECS })
    }

    /// A client's wish for a challenge.
    pub fn challenge(&mut self, id: &str, now: u64) -> (r: Result<ChallengeResponse, ApiError>)
        requires
            old(self).wf(),
        ensures
            final(self).wf(),
            exists|request_id: Seq<u8>, challenge: Seq<u8>|
                request_id.len() == 16 && challenge.len() == 32 && (
                    final(self)@,
                    api_result(r),
                ) == #[trigger] old(self)@.challenged(
                    id@,
                    now,
                    hex_of(request_id),
                    hex_of(challenge),
                ),
    {
        let request_id = random_hex(16);
        let challenge = random_hex(32);
        let ghost a = choose|b: Seq<u8>| b.len() == 16 && request_id@ == hex_of(b);
        let ghost c = choose|b: Seq<u8>| b.len() == 32 && challenge@ == hex_of(b);
        let ghost before = self@;
        let r = self.challenge_with(id, now, request_id, challenge);
        assert((self@, api_result(r)) == before.challenged(id@, now, hex_of(a), hex_of(c)));
        r
    }

    /// A client's pair request.
    pub fn submit_pair(&mut self, id: &str, req: SubmitPairRequest, now: u64) -> (r: Result<
        u16,
        ApiError,
    >)
        requires
            old(self).wf(),
        ensures
            final(self).wf(),
            (final(self)@, status_view(r)) == old(self)@.submitted(id@, req@, now),
    {
        if chars(req.device_name.as_str()).len() == 0 || byte_len(req.device_name.as_str()) > 64 {
            return Err(err(400, "device_name must be 1..64 chars"));
        }
        if byte_len(req.response.as_str()) != 64 || byte_len(req.sealed_pin.as_str()) > 256 {
            return Err(err(400, "malformed response or sealed_pin"));
        }
        let ghost before = self@;
        let ch = match self.challenges.remove(req.request_id.as_str()) {
            Some(c) => c,
            None => {
                assert(self@ =~= before);
                return Err(err(404, "unknown or expired challenge"));
            },
        };
        if !str_eq(ch.host_id.as_str(), id) {
            return Err(err(400, "challenge belongs to a different host"));
        }
        if seconds_since(now, ch.created) >= CHALLENGE_TTL_SECS {
            return Err(err(410, "challenge expired"));
        }
        let online = match self.hosts.get(id) {
            Some(h) => match h.last_seen {
                Some(t) => seconds_since(now, t) < OFFLINE_AFTER_SECS,
                None => false,
            },
            None => false,
        };
        if !online {
            return Err(err(503, "host is offline"));
        }
        let pr = PairRequest {
            request_id: req.request_id.clone(),
            challenge: ch.challenge,
            response: req.response,
            device_name: req.device_name,
            client_uid: req.client_uid,
            sealed_pin: req.sealed_pin,
            remember: req.remember,
        };
        self.results.insert(req.request_id, ResultSlot { result: None, created: now });
        self.ensure_runtime(id);
        let ghost s = self@;
        let mut rt = match self.runtime.remove(id) {
            Some(rt) => rt,
            None => HostRuntime::new(),
        };
        let ghost was = rt@;
        let ghost added = pr@;
        rt.pending.push_back(pr);
        proof {
            assert(rt@ =~= (HostRuntimeView { pending: was.pending.push(added), ..was }));
            assert(s.runtime.remove(id@).insert(id@, rt@) =~= s.runtime.insert(id@, rt@));
        }
        self.runtime.insert(id.to_owned(), rt);
        Ok(202)
    }

    /// A client's poll for the result of its request: an answer, or the time left
    /// to wait.
    pub fn poll_pair_result(&self, request_id: &str, deadline: u64, now: u64) -> (r: Result<
        Poll<Option<PairResult>>,
        ApiError,
    >)
        requires
            self.wf(),
        ensures
            poll_result_view(r) == self@.result(request_id@, deadline, now),
    {
        let slot = match self.results.get(request_id) {
            Some(s) => s,
            None => return Err(err(404, "unknown request id")),
        };
        if let Some(res) = &slot.result {
            return Ok(Poll::Ready(Some(res.clone())));
        }
        if deadline <= now {
            return Ok(Poll::Ready(None));
        }
        Ok(Poll::Wait(deadline - now))
    }
}

/// What a list of records holds.
pub open spec fn record_views(v: Seq<HostRecord>) -> Seq<HostRecordView> {
    Seq::new(v.len(), |i: int| v[i]@)
}

/// Records by their ids; of records with the same id the last one counts.
pub open spec fn hosts_by_id(v: Seq<HostRecordView>) -> Map<Seq<char>, HostRecordView>
    decreases v.len(),
{
    if v.len() == 0 {
        Map::empty()
    } else {
        hosts_by_id(v.drop_last()).insert(v.last().id, v.last())
    }
}

/// Records with different ids are all found.
proof fn lemma_hosts_by_id(v: Seq<HostRecordView>)
    requires
        forall|i: int, j: int|
            0 <= i < j < v.len() ==> (#[trigger] v[i]).id != (#[trigger] v[j]).id,
    ensures
        forall|i: int|
            0 <= i < v.len() ==> hosts_by_id(v).contains_key((#[trigger] v[i]).id)
                && hosts_by_id(v)[v[i].id] == v[i],
        forall|k: Seq<char>|
            hosts_by_id(v).contains_key(k) ==> exists|i: int|
                0 <= i < v.len() && (#[trigger] v[i]).id == k,
    decreases v.len(),
{
    if v.len() > 0 {
        let p = v.drop_last();
        lemma_hosts_by_id(p);
        let m = hosts_by_id(v);
        assert forall|i: int| 0 <= i < v.len() implies m.contains_key((#[trigger] v[i]).id)
            && m[v[i].id] == v[i] by {
            if i < v.len() - 1 {
                assert(p[i] == v[i]);
                assert(v[i].id != v[v.len() - 1].id);
            }
        }
        assert forall|k: Seq<char>| m.contains_key(k) implies exists|i: int|
            0 <= i < v.len() && (#[trigger] v[i]).id == k by {
            if k == v.last().id {
                assert(v[v.len() - 1].id == k);
            } else {
                assert(hosts_by_id(p).contains_key(k));
                let i = choose|i: int| 0 <= i < p.len() && (#[trigger] p[i]).id == k;
                assert(p[i] == v[i]);
            }
        }
    }
}

} // verus!
