//! Resolve → probe → pair → stream: the decisions of the client. Times count
//! nanoseconds.

use vstd::prelude::*;
use vstd::string::StringExecFns;
use crate::agent::{pretty, pretty_id, rendezvous_path, rendezvous_url, sanitized};
use crate::agent_loop::{checked, RequestCheckView};
use crate::client_config::{ClientConfig, ClientConfigView, RememberedHostView};
use crate::http::HostAddr;
use crate::proto::{
    challenge_response, endpoint_views, h1_of, h2_of, is_valid_id, opened_pin, pair_key,
    password_h1, random_pin, valid_id, valid_pin, ChallengeResponse, ChallengeResponseView,
    CryptoError, Endpoint, EndpointView, HostInfo, HostInfoView, PairResult, PairResultView,
    PairSecret, PairStatus, SubmitPairRequest, SubmitPairRequestView,
};
use crate::rendezvous::{NANOS_PER_SEC, StoreView};
use crate::serverinfo::{ServerInfo, ServerInfoView};
use crate::text::{
    cat2, cat3, chars, clone_texts, decimal, decimal_text, is_ascii_digit, is_digit, str_eq,
    str_view, text_view, texts, utf8,
};

verus! {

#[derive(Debug)]
pub struct Resolved {
    pub info: HostInfo,
    pub addr: HostAddr,
    pub endpoint: Endpoint,
    pub server_info: ServerInfo,
}

/// What a [`Resolved`] holds.
#[verifier::ext_equal]
pub struct ResolvedView {
    pub info: HostInfoView,
    pub host: Seq<char>,
    pub http_port: u16,
    pub https_port: u16,
    pub endpoint: EndpointView,
    pub server_info: ServerInfoView,
}

impl View for Resolved {
    type V = ResolvedView;

    open spec fn view(&self) -> ResolvedView {
        ResolvedView {
            info: self.info@,
            host: self.addr.host@,
            http_port: self.addr.http_port,
            https_port: self.addr.https_port,
            endpoint: self.endpoint@,
            server_info: self.server_info@,
        }
    }
}

/// A host as Moonlight's command line takes it: an IPv6 address gets brackets.
pub open spec fn moonlight_host_of(host: Seq<char>, port: u16) -> Seq<char> {
    (if host.contains(':') {
        "["@ + host + "]"@
    } else {
        host
    }) + ":"@ + decimal(port as nat)
}

/// Whether a text holds a colon.
fn has_colon(s: &str) -> (r: bool)
    ensures
        r == s@.contains(':'),
{
    let v = chars(s);
    let mut i: usize = 0;
    while i < v.len()
        invariant
            v@ == s@,
            i <= v@.len(),
            forall|j: int| 0 <= j < i ==> v@[j] != ':',
        decreases v.len() - i,
    {
        if v[i] == ':' {
            assert(s@[i as int] == ':');
            return true;
        }
        i += 1;
    }
    false
}

impl Resolved {
    /// `host:port` form accepted by Moonlight's CLI.
    pub fn moonlight_host(&self) -> (r: String)
        ensures
            r@ == moonlight_host_of(self.addr.host@, self.addr.http_port),
    {
        let h = if has_colon(self.addr.host.as_str()) {
            cat3("[", self.addr.host.as_str(), "]")
        } else {
            self.addr.host.clone()
        };
        let port = decimal_text(self.addr.http_port as u64);
        cat3(h.as_str(), ":", port.as_str())
    }
}

impl Clone for Resolved {
    fn clone(&self) -> (r: Self)
        ensures
            r.info@ == self.info@,
            r.addr == self.addr,
            r.endpoint == self.endpoint,
            r.server_info == self.server_info,
    {
        Resolved {
            info: self.info.clone(),
            addr: self.addr.clone(),
            endpoint: self.endpoint.clone(),
            server_info: self.server_info.clone(),
        }
    }
}

/// Progress events for UIs.
#[derive(Debug)]
pub enum Event {
    Resolving(String),
    Probing(Endpoint),
    Reachable(Endpoint),
    AlreadyPaired,
    PairingStarted,
    PairAccepted,
    Paired,
    Streaming(String),
    Info(String),
}

/// What an [`Event`] holds.
pub enum EventView {
    Resolving(Seq<char>),
    Probing(EndpointView),
    Reachable(EndpointView),
    AlreadyPaired,
    PairingStarted,
    PairAccepted,
    Paired,
    Streaming(Seq<char>),
    Info(Seq<char>),
}

impl View for Event {
    type V = EventView;

    open spec fn view(&self) -> EventView {
        match *self {
            Event::Resolving(s) => EventView::Resolving(s@),
            Event::Probing(e) => EventView::Probing(e@),
            Event::Reachable(e) => EventView::Reachable(e@),
            Event::AlreadyPaired => EventView::AlreadyPaired,
            Event::PairingStarted => EventView::PairingStarted,
            Event::PairAccepted => EventView::PairAccepted,
            Event::Paired => EventView::Paired,
            Event::Streaming(s) => EventView::Streaming(s@),
            Event::Info(s) => EventView::Info(s@),
        }
    }
}

/// `host:port (kind)`.
pub open spec fn endpoint_words(e: EndpointView) -> Seq<char> {
    e.host + ":"@ + decimal(e.port as nat) + " ("@ + e.kind + ")"@
}

/// `host:port (kind)`.
pub fn endpoint_text(e: &Endpoint) -> (r: String)
    ensures
        r@ == endpoint_words(e@),
{
    let port = decimal_text(e.port as u64);
    let mut s = cat3(e.host.as_str(), ":", port.as_str());
    s.append(" (");
    s.append(e.kind.as_str());
    s.append(")");
    s
}

impl EventView {
    /// The line that the command line client prints.
    pub open spec fn cli_words(self) -> Seq<char> {
        match self {
            EventView::Resolving(id) => "→ looking up "@ + id,
            EventView::Probing(e) => "  probing "@ + endpoint_words(e),
            EventView::Reachable(e) => "✓ reachable at "@ + endpoint_words(e),
            EventView::AlreadyPaired => "✓ already paired"@,
            EventView::PairingStarted =>
                "→ pairing (password accepted by rendezvous, waiting for host)"@,
            EventView::PairAccepted => "✓ host accepted password"@,
            EventView::Paired => "✓ paired"@,
            EventView::Streaming(app) => "→ streaming \""@ + app + "\""@,
            EventView::Info(s) => s,
        }
    }

    /// The line that the desktop window shows.
    pub open spec fn desk_words(self) -> Seq<char> {
        match self {
            EventView::Resolving(id) => "→ looking up "@ + pretty(id),
            EventView::Probing(e) => "  probing "@ + endpoint_words(e),
            EventView::Reachable(e) => "✓ reachable at "@ + endpoint_words(e),
            EventView::AlreadyPaired => "✓ already paired"@,
            EventView::PairingStarted => "→ pairing… (host is checking the password)"@,
            EventView::PairAccepted => "✓ password accepted"@,
            EventView::Paired => "✓ paired"@,
            EventView::Streaming(app) => "→ streaming "@ + app,
            EventView::Info(s) => s,
        }
    }
}

impl Event {
    /// The line that the command line client prints.
    pub fn cli_line(&self) -> (r: String)
        ensures
            r@ == self@.cli_words(),
    {
        match self {
            Event::Resolving(id) => cat2("→ looking up ", id.as_str()),
            Event::Probing(e) => {
                let t = endpoint_text(e);
                cat2("  probing ", t.as_str())
            },
            Event::Reachable(e) => {
                let t = endpoint_text(e);
                cat2("✓ reachable at ", t.as_str())
            },
            Event::AlreadyPaired => "✓ already paired".to_owned(),
            Event::PairingStarted =>
                "→ pairing (password accepted by rendezvous, waiting for host)".to_owned(),
            Event::PairAccepted => "✓ host accepted password".to_owned(),
            Event::Paired => "✓ paired".to_owned(),
            Event::Streaming(app) => cat3("→ streaming \"", app.as_str(), "\""),
            Event::Info(s) => s.clone(),
        }
    }

    /// The line that the desktop window shows.
    pub fn desk_line(&self) -> (r: String)
        ensures
            r@ == self@.desk_words(),
    {
        match self {
            Event::Resolving(id) => {
                let t = pretty_id(id.as_str());
                cat2("→ looking up ", t.as_str())
            },
            Event::Probing(e) => {
                let t = endpoint_text(e);
                cat2("  probing ", t.as_str())
            },
            Event::Reachable(e) => {
                let t = endpoint_text(e);
                cat2("✓ reachable at ", t.as_str())
            },
            Event::AlreadyPaired => "✓ already paired".to_owned(),
            Event::PairingStarted => "→ pairing… (host is checking the password)".to_owned(),
            Event::PairAccepted => "✓ password accepted".to_owned(),
            Event::Paired => "✓ paired".to_owned(),
            Event::Streaming(app) => cat2("→ streaming ", app.as_str()),
            Event::Info(s) => s.clone(),
        }
    }
}

/// How good a kind of endpoint is; lower is better.
pub open spec fn rank_of(kind: Seq<char>) -> u8 {
    if kind == "lan"@ {
        0
    } else if kind == "vpn"@ {
        1
    } else if kind == "manual"@ {
        2
    } else if kind == "public"@ {
        3
    } else {
        4
    }
}

/// How good a kind of endpoint is; lower is better.
pub fn rank(kind: &str) -> (r: u8)
    ensures
        r == rank_of(kind@),
{
    if str_eq(kind, "lan") {
        0
    } else if str_eq(kind, "vpn") {
        1
    } else if str_eq(kind, "manual") {
        2
    } else if str_eq(kind, "public") {
        3
    } else {
        4
    }
}

/// The endpoints of one rank, in their order.
pub open spec fn of_rank(v: Seq<EndpointView>, k: u8) -> Seq<EndpointView> {
    v.filter(|e: EndpointView| rank_of(e.kind) == k)
}

/// The endpoints from the best rank to the worst; within a rank they keep their
/// order.
pub open spec fn by_rank(v: Seq<EndpointView>) -> Seq<EndpointView> {
    of_rank(v, 0) + of_rank(v, 1) + of_rank(v, 2) + of_rank(v, 3) + of_rank(v, 4)
}

/// Appends the endpoints of one rank.
fn push_rank(out: &mut Vec<Endpoint>, eps: &Vec<Endpoint>, k: u8)
    ensures
        endpoint_views(final(out)@) == endpoint_views(old(out)@) + of_rank(
            endpoint_views(eps@),
            k,
        ),
{
    let ghost all = endpoint_views(eps@);
    let ghost before = endpoint_views(out@);
    let ghost pred = |e: EndpointView| rank_of(e.kind) == k;
    let mut i: usize = 0;
    assert(all.take(0).filter(pred) =~= Seq::empty()) by {
        reveal(Seq::filter);
    }
    assert(before + all.take(0).filter(pred) =~= before);
    while i < eps.len()
        invariant
            i <= eps@.len(),
            all == endpoint_views(eps@),
            pred == (|e: EndpointView| rank_of(e.kind) == k),
            endpoint_views(out@) == before + all.take(i as int).filter(pred),
        decreases eps.len() - i,
    {
        proof {
            reveal(Seq::filter);
            assert(all.take(i + 1).drop_last() =~= all.take(i as int));
            assert(all.take(i + 1).last() == eps@[i as int]@);
        }
        let ghost was = endpoint_views(out@);
        if rank(eps[i].kind.as_str()) == k {
            out.push(eps[i].clone());
            assert(endpoint_views(out@) =~= was.push(eps@[i as int]@));
        }
        assert(endpoint_views(out@) =~= before + all.take(i + 1).filter(pred));
        i += 1;
    }
    assert(all.take(i as int) =~= all);
}

/// The endpoints from the best rank to the worst; within a rank they keep their
/// order.
pub fn sort_by_rank(eps: &Vec<Endpoint>) -> (r: Vec<Endpoint>)
    ensures
        endpoint_views(r@) == by_rank(endpoint_views(eps@)),
{
    let mut out: Vec<Endpoint> = Vec::new();
    assert(endpoint_views(out@) =~= Seq::empty());
    push_rank(&mut out, eps, 0);
    push_rank(&mut out, eps, 1);
    push_rank(&mut out, eps, 2);
    push_rank(&mut out, eps, 3);
    push_rank(&mut out, eps, 4);
    assert(endpoint_views(out@) =~= by_rank(endpoint_views(eps@)));
    out
}

/// What a probe of an endpoint brought.
#[derive(Debug)]
pub struct Probe {
    pub endpoint: Endpoint,
    /// What the server there says of itself, where one answered in time.
    pub server_info: Option<ServerInfo>,
}

/// Whether probe `i` is the one to take: it was answered, no answered one has a
/// better rank, and no earlier answered one has as good a rank.
pub open spec fn is_best(probes: Seq<Probe>, i: int) -> bool {
    &&& 0 <= i < probes.len()
    &&& probes[i].server_info is Some
    &&& forall|j: int|
        0 <= j < probes.len() && (#[trigger] probes[j]).server_info is Some ==> rank_of(
            probes[i].endpoint.kind@,
        ) <= rank_of(probes[j].endpoint.kind@)
    &&& forall|j: int|
        0 <= j < i && (#[trigger] probes[j]).server_info is Some ==> rank_of(
            probes[i].endpoint.kind@,
        ) < rank_of(probes[j].endpoint.kind@)
}

/// The probe to take, if any was answered.
pub fn best_probe(probes: &Vec<Probe>) -> (r: Option<usize>)
    ensures
        match r {
            Some(i) => is_best(probes@, i as int),
            None => forall|j: int|
                0 <= j < probes@.len() ==> (#[trigger] probes@[j]).server_info is None,
        },
{
    let mut best: Option<usize> = None;
    let mut i: usize = 0;
    while i < probes.len()
        invariant
            i <= probes@.len(),
            match best {
                Some(b) => {
                    &&& b < i
                    &&& probes@[b as int].server_info is Some
                    &&& forall|j: int|
                        0 <= j < i && (#[trigger] probes@[j]).server_info is Some ==> rank_of(
                            probes@[b as int].endpoint.kind@,
                        ) <= rank_of(probes@[j].endpoint.kind@)
                    &&& forall|j: int|
                        0 <= j < b && (#[trigger] probes@[j]).server_info is Some ==> rank_of(
                            probes@[b as int].endpoint.kind@,
                        ) < rank_of(probes@[j].endpoint.kind@)
                },
                None => forall|j: int|
                    0 <= j < i ==> (#[trigger] probes@[j]).server_info is None,
            },
        decreases probes.len() - i,
    {
        if probes[i].server_info.is_some() {
            let take = match best {
                None => true,
                Some(b) => rank(probes[i].endpoint.kind.as_str()) < rank(
                    probes[b].endpoint.kind.as_str(),
                ),
            };
            if take {
                best = Some(i);
            }
        }
        i += 1;
    }
    best
}

/// The words for a host of which no endpoint answered.
pub open spec fn unreachable_words(info: HostInfoView, id: Seq<char>) -> Seq<char> {
    "host "@ + info.name + " ("@ + id + ") is "@ + (if info.online {
        "online"@
    } else {
        "OFFLINE"@
    }) + " but none of its "@ + decimal(info.endpoints.len())
        + " endpoint(s) answered on the GameStream port. Over the internet this needs a VPN (Tailscale, WireGuard) or port forwarding of TCP/UDP 47984-48010."@
}

/// The words for a host of which no endpoint answered.
fn unreachable_text(info: &HostInfo, id: &str) -> (r: String)
    ensures
        r@ == unreachable_words(info@, id@),
{
    let mut s = cat3("host ", info.name.as_str(), " (");
    s.append(id);
    s.append(") is ");
    let state = if info.online {
        "online"
    } else {
        "OFFLINE"
    };
    s.append(state);
    s.append(" but none of its ");
    assert(info@.endpoints.len() == info.endpoints@.len());
    let n = decimal_text(info.endpoints.len() as u64);
    s.append(n.as_str());
    s.append(
        " endpoint(s) answered on the GameStream port. Over the internet this needs a VPN (Tailscale, WireGuard) or port forwarding of TCP/UDP 47984-48010.",
    );
    s
}

/// The digits of a text.
pub open spec fn digits_of(s: Seq<char>) -> Seq<char> {
    s.filter(|c: char| is_digit(c))
}

/// The digits of a text.
fn only_digits(s: &str) -> (r: String)
    ensures
        r@ == digits_of(s@),
{
    let v = chars(s);
    let ghost pred = |c: char| is_digit(c);
    let mut out = String::new();
    let mut i: usize = 0;
    assert(v@.take(0).filter(pred) =~= Seq::empty()) by {
        reveal(Seq::filter);
    }
    proof {
        reveal_strlit("");
        assert(out@ =~= Seq::empty());
    }
    while i < v.len()
        invariant
            i <= v@.len(),
            pred == (|c: char| is_digit(c)),
            out@ == v@.take(i as int).filter(pred),
        decreases v.len() - i,
    {
        let c = v[i];
        proof {
            reveal(Seq::filter);
            assert(v@.take(i + 1).drop_last() =~= v@.take(i as int));
        }
        if is_ascii_digit(c) {
            out.push(c);
        }
        i += 1;
    }
    assert(v@.take(i as int) =~= v@);
    out
}

/// Whether a pair request is one that a device which knows the password hash `h1`
/// makes of a challenge: it answers the challenge, and the host that has the same
/// hash accepts it and finds `pin` in it.
pub open spec fn request_made(
    req: SubmitPairRequestView,
    h1: Seq<char>,
    ch: ChallengeResponseView,
    device_name: Seq<char>,
    pin: Seq<char>,
) -> bool {
    &&& req.request_id == ch.request_id
    &&& req.device_name == device_name
    &&& req.response == h2_of(h1, ch.challenge)
    &&& req.response.len() == 64 && utf8(req.response).len() == 64
    &&& req.sealed_pin.len() == 64 && utf8(req.sealed_pin).len() == 64
    &&& opened_pin(pair_key(h1, ch.challenge), req.sealed_pin) == Ok::<Seq<char>, CryptoError>(pin)
    &&& checked(h1, StoreView::request_of(req, ch.challenge)) == (RequestCheckView::Accepted {
        pin,
        name: sanitized(device_name),
    })
}

/// How a wait for the host's answer goes on.
#[derive(Debug)]
pub enum WatchAction {
    /// Ask the rendezvous server again.
    PollAgain,
    /// The pairing is over.
    Finish(PairEnd),
}

/// How a pairing ended.
#[derive(Debug)]
pub struct PairEnd {
    /// The PIN that was used, or the words of the error.
    pub result: Result<String, String>,
    /// Whether the host said that it has paired.
    pub paired: bool,
    /// What went wrong locally although the host has paired.
    pub warning: Option<String>,
}

/// What a [`PairEnd`] holds.
#[verifier::ext_equal]
pub struct PairEndView {
    pub result: Result<Seq<char>, Seq<char>>,
    pub paired: bool,
    pub warning: Option<Seq<char>>,
}

/// What a result with words for its error holds.
pub open spec fn unit_result(r: Result<(), String>) -> Result<(), Seq<char>> {
    match r {
        Ok(_) => Ok(()),
        Err(e) => Err(e@),
    }
}

impl View for PairEnd {
    type V = PairEndView;

    open spec fn view(&self) -> PairEndView {
        PairEndView {
            result: match self.result {
                Ok(pin) => Ok(pin@),
                Err(e) => Err(e@),
            },
            paired: self.paired,
            warning: text_view(self.warning),
        }
    }
}

/// What a [`WatchAction`] holds.
pub enum WatchActionView {
    PollAgain,
    Finish(PairEndView),
}

impl View for WatchAction {
    type V = WatchActionView;

    open spec fn view(&self) -> WatchActionView {
        match *self {
            WatchAction::PollAgain => WatchActionView::PollAgain,
            WatchAction::Finish(e) => WatchActionView::Finish(e@),
        }
    }
}

/// How a pairing with `pin` ends with the host's result, given what the local side
/// came to so far.
pub open spec fn end_of(
    r: PairResultView,
    pin: Seq<char>,
    local: Option<Result<(), Seq<char>>>,
) -> PairEndView {
    match r.status {
        PairStatus::Paired => PairEndView {
            result: Ok(pin),
            paired: true,
            warning: match local {
                Some(Err(e)) => Some(e),
                _ => None,
            },
        },
        PairStatus::Rejected => PairEndView {
            result: Err("wrong password"@),
            paired: false,
            warning: None,
        },
        PairStatus::Accepted => PairEndView { result: Ok(pin), paired: false, warning: None },
        PairStatus::Failed => PairEndView {
            result: Err(
                "host failed to pair: "@ + (match r.message {
                    Some(m) => m,
                    None => Seq::empty(),
                }),
            ),
            paired: false,
            warning: None,
        },
    }
}

/// An end with an error of the wait itself.
pub open spec fn failed_end(e: Seq<char>) -> PairEndView {
    PairEndView { result: Err(e), paired: false, warning: None }
}

/// How long, in seconds, a client waits for the host's answer.
pub const ANSWER_WAIT_SECS: u64 = 150;

/// The wait for the host's answer, while the PIN is presented locally.
pub struct PairWatch {
    pin: String,
    deadline: u64,
    local: Option<Result<(), String>>,
}

/// What a [`PairWatch`] holds.
#[verifier::ext_equal]
pub struct PairWatchView {
    pub pin: Seq<char>,
    pub deadline: u64,
    pub local: Option<Result<(), Seq<char>>>,
}

impl View for PairWatch {
    type V = PairWatchView;

    closed spec fn view(&self) -> PairWatchView {
        PairWatchView {
            pin: self.pin@,
            deadline: self.deadline,
            local: match self.local {
                Some(r) => Some(unit_result(r)),
                None => None,
            },
        }
    }
}

impl PairWatchView {
    /// What follows an answer to the question for the result.
    pub open spec fn polled(self, r: Result<Option<PairResultView>, Seq<char>>, now: u64) -> WatchActionView {
        match r {
            Err(e) => WatchActionView::Finish(failed_end(e)),
            Ok(Some(p)) => WatchActionView::Finish(end_of(p, self.pin, self.local)),
            Ok(None) => if now > self.deadline {
                WatchActionView::Finish(failed_end("timed out waiting for the host to answer"@))
            } else {
                WatchActionView::PollAgain
            },
        }
    }
}

/// What an answer to the question for the result holds.
pub open spec fn poll_answer(r: Result<Option<PairResult>, String>) -> Result<
    Option<PairResultView>,
    Seq<char>,
> {
    match r {
        Ok(Some(p)) => Ok(Some(p@)),
        Ok(None) => Ok(None),
        Err(e) => Err(e@),
    }
}

impl PairWatch {
    /// A wait that starts now, for a pairing with `pin`.
    pub fn new(pin: String, now: u64) -> (r: Self)
        ensures
            r@ == (PairWatchView {
                pin: pin@,
                deadline: if now + ANSWER_WAIT_SECS * NANOS_PER_SEC > u64::MAX {
                    u64::MAX
                } else {
                    (now + ANSWER_WAIT_SECS * NANOS_PER_SEC) as u64
                },
                local: None,
            }),
    {
        let wait: u64 = ANSWER_WAIT_SECS * NANOS_PER_SEC;
        let deadline: u64 = if now > u64::MAX - wait {
            u64::MAX
        } else {
            now + wait
        };
        PairWatch { pin, deadline, local: None }
    }

    /// The local side is done.
    pub fn on_presented(&mut self, r: Result<(), String>)
        ensures
            final(self)@ == (PairWatchView { local: Some(unit_result(r)), ..old(self)@ }),
    {
        self.local = Some(r);
    }

    /// The local side is still at work.
    pub fn presenting(&self) -> (r: bool)
        ensures
            r == (self@.local is None),
    {
        self.local.is_none()
    }

    /// The rendezvous server answered the question for the result.
    pub fn on_polled(&self, r: Result<Option<PairResult>, String>, now: u64) -> (a: WatchAction)
        ensures
            a@ == self@.polled(poll_answer(r), now),
    {
        match r {
            Err(e) => WatchAction::Finish(
                PairEnd { result: Err(e), paired: false, warning: None },
            ),
            Ok(None) => {
                if now > self.deadline {
                    return WatchAction::Finish(
                        PairEnd {
                            result: Err("timed out waiting for the host to answer".to_owned()),
                            paired: false,
                            warning: None,
                        },
                    );
                }
                WatchAction::PollAgain
            },
            Ok(Some(p)) => match p.status {
                PairStatus::Paired => {
                    let warning = match &self.local {
                        Some(Err(e)) => Some(e.clone()),
                        _ => None,
                    };
                    WatchAction::Finish(
                        PairEnd { result: Ok(self.pin.clone()), paired: true, warning },
                    )
                },
                PairStatus::Rejected => WatchAction::Finish(
                    PairEnd {
                        result: Err("wrong password".to_owned()),
                        paired: false,
                        warning: None,
                    },
                ),
                PairStatus::Accepted => WatchAction::Finish(
                    PairEnd { result: Ok(self.pin.clone()), paired: false, warning: None },
                ),
                PairStatus::Failed => {
                    let words = match p.message {
                        Some(m) => m,
                        None => String::new(),
                    };
                    proof {
                        reveal_strlit("");
                        if p.message is None {
                            assert(words@ =~= Seq::empty());
                        }
                    }
                    WatchAction::Finish(
                        PairEnd {
                            result: Err(cat2("host failed to pair: ", words.as_str())),
                            paired: false,
                            warning: None,
                        },
                    )
                },
            },
        }
    }
}

/// Where the password hash for a host comes from.
#[derive(Debug)]
pub enum H1Source {
    /// It is known.
    Known(String),
    /// The user has to be asked for the password.
    Ask,
}

/// The password hash for a host, where it is known: from a given password, or
/// remembered for the salt that the host uses now.
pub open spec fn known_h1(
    cfg: ClientConfigView,
    id: Seq<char>,
    salt: Seq<char>,
    password: Option<Seq<char>>,
) -> Option<Seq<char>> {
    match password {
        Some(p) => Some(h1_of(p, salt)),
        None => if cfg.hosts.contains_key(id) && cfg.hosts[id].password_salt == Some(salt) {
            cfg.hosts[id].password_h1
        } else {
            None
        },
    }
}

/// The lower case of an ASCII letter; other characters stay.
pub open spec fn ascii_lower(c: char) -> char {
    if 'A' <= c && c <= 'Z' {
        (c as u32 + 32) as u32 as char
    } else {
        c
    }
}

/// Whether two texts are the same up to the case of ASCII letters.
pub open spec fn same_ignoring_case(a: Seq<char>, b: Seq<char>) -> bool {
    a.len() == b.len() && forall|i: int|
        0 <= i < a.len() ==> ascii_lower(#[trigger] a[i]) == ascii_lower(b[i])
}

/// The first app that is called "Desktop", whatever its case.
pub open spec fn desktop_app(apps: Seq<Seq<char>>) -> Option<Seq<char>>
    decreases apps.len(),
{
    if apps.len() == 0 {
        None
    } else if same_ignoring_case(apps[0], "desktop"@) {
        Some(apps[0])
    } else {
        desktop_app(apps.drop_first())
    }
}

/// The app to start where the user named none before: the desktop, or else the
/// first one, or else the desktop by name.
pub open spec fn default_app(apps: Seq<Seq<char>>) -> Seq<char> {
    match desktop_app(apps) {
        Some(a) => a,
        None => if apps.len() > 0 {
            apps[0]
        } else {
            "Desktop"@
        },
    }
}

/// The lower case of an ASCII letter.
fn lower(c: char) -> (r: char)
    ensures
        r == ascii_lower(c),
{
    if 'A' <= c && c <= 'Z' {
        (c as u8 + 32) as char
    } else {
        c
    }
}

/// Whether two texts are the same up to the case of ASCII letters.
pub fn eq_ignore_ascii_case(a: &str, b: &str) -> (r: bool)
    ensures
        r == same_ignoring_case(a@, b@),
{
    let x = chars(a);
    let y = chars(b);
    if x.len() != y.len() {
        return false;
    }
    let mut i: usize = 0;
    while i < x.len()
        invariant
            x@ == a@,
            y@ == b@,
            x@.len() == y@.len(),
            i <= x@.len(),
            forall|j: int| 0 <= j < i ==> ascii_lower(#[trigger] x@[j]) == ascii_lower(y@[j]),
        decreases x.len() - i,
    {
        if lower(x[i]) != lower(y[i]) {
            assert(ascii_lower(x@[i as int]) != ascii_lower(y@[i as int]));
            return false;
        }
        i += 1;
    }
    true
}

/// The app to start where the user named none before.
pub fn pick_app(apps: &Vec<String>) -> (r: String)
    ensures
        r@ == default_app(texts(apps@)),
{
    let ghost all = texts(apps@);
    let mut i: usize = 0;
    assert(all.skip(0) =~= all);
    while i < apps.len()
        invariant
            all == texts(apps@),
            i <= apps@.len(),
            desktop_app(all) == desktop_app(all.skip(i as int)),
        decreases apps.len() - i,
    {
        assert(all.skip(i as int)[0] == apps@[i as int]@);
        assert(all.skip(i as int).drop_first() =~= all.skip(i + 1));
        if eq_ignore_ascii_case(apps[i].as_str(), "desktop") {
            return apps[i].clone();
        }
        i += 1;
    }
    assert(desktop_app(all) is None);
    if apps.len() > 0 {
        assert(all[0] == apps@[0]@);
        return apps[0].clone();
    }
    "Desktop".to_owned()
}

/// The app of a session.
#[derive(Debug)]
pub enum AppChoice {
    /// This one.
    App(String),
    /// One of those that the host has; they have to be listed.
    FromList,
}

/// A client's session with the rendezvous server and its hosts.
pub struct Session {
    pub cfg: ClientConfig,
}

impl Session {
    pub fn new(cfg: ClientConfig) -> (r: Self)
        requires
            cfg.hosts.wf(),
        ensures
            r.cfg == cfg,
    {
        Session { cfg }
    }

    pub fn rv(&self, path: &str) -> (r: String)
        ensures
            r@ == rendezvous_path(self.cfg@.rendezvous_url, path@),
    {
        rendezvous_url(self.cfg.rendezvous_url.as_str(), path)
    }

    /// The ID that a user typed: its digits, whatever stands between them.
    pub fn normalize_id(input: &str) -> (r: Result<String, String>)
        ensures
            match r {
                Ok(id) => id@ == digits_of(input@) && valid_id(id@),
                Err(e) => !valid_id(digits_of(input@)) && e@ == "'"@ + input@
                    + "' is not a valid 9-digit ID"@,
            },
    {
        let id = only_digits(input);
        if !is_valid_id(id.as_str()) {
            return Err(cat3("'", input, "' is not a valid 9-digit ID"));
        }
        Ok(id)
    }

    /// The words for an ID that the rendezvous server does not know.
    pub fn not_registered(id: &str) -> (r: String)
        ensures
            r@ == "ID "@ + id@ + " is not registered"@,
    {
        cat3("ID ", id, " is not registered")
    }

    /// The endpoints to probe, from the best to the worst.
    pub fn probe_order(info: &HostInfo, id: &str) -> (r: Result<Vec<Endpoint>, String>)
        ensures
            match r {
                Ok(v) => info@.endpoints.len() > 0 && endpoint_views(v@) == by_rank(info@.endpoints),
                Err(e) => info@.endpoints.len() == 0 && e@ == "host "@ + id@
                    + " advertises no endpoints"@,
            },
    {
        assert(info@.endpoints.len() == info.endpoints@.len());
        if info.endpoints.len() == 0 {
            return Err(cat3("host ", id, " advertises no endpoints"));
        }
        Ok(sort_by_rank(&info.endpoints))
    }

    /// Pick the best reachable endpoint.
    pub fn resolved(info: HostInfo, id: &str, probes: Vec<Probe>) -> (r: Result<Resolved, String>)
        ensures
            match r {
                Ok(res) => exists|i: int|
                    {
                        &&& #[trigger] is_best(probes@, i)
                        &&& res.info == info
                        &&& res.endpoint == probes@[i].endpoint
                        &&& res.server_info == probes@[i].server_info->0
                        &&& res.addr.host@ == res.endpoint.host@
                        &&& res.addr.http_port == res.endpoint.port
                        &&& res.addr.https_port == crate::http::https_port_of(res.endpoint.port)
                    },
                Err(e) => {
                    &&& forall|j: int|
                        0 <= j < probes@.len() ==> (#[trigger] probes@[j]).server_info is None
                    &&& e@ == unreachable_words(info@, id@)
                },
            },
    {
        match best_probe(&probes) {
            None => Err(unreachable_text(&info, id)),
            Some(i) => {
                let p = &probes[i];
                let endpoint = p.endpoint.clone();
                let addr = HostAddr::new(endpoint.host.as_str(), endpoint.port);
                let server_info = match &p.server_info {
                    Some(s) => s.clone(),
                    None => ServerInfo::default(),
                };
                assert(is_best(probes@, i as int));
                Ok(Resolved { info, addr, endpoint, server_info })
            },
        }
    }

    /// The pair request for a challenge, with a given PIN. The host that has the
    /// same password hash accepts it and gets this PIN.
    pub fn pair_request_with(
        &self,
        h1: &str,
        ch: &ChallengeResponse,
        client_uid: &str,
        remember: bool,
        pin: &str,
    ) -> (r: Result<SubmitPairRequest, CryptoError>)
        ensures
            match r {
                Ok(req) => {
                    &&& valid_pin(pin@)
                    &&& request_made(req@, h1@, ch@, self.cfg@.device_name, pin@)
                    &&& req@.client_uid == Some(client_uid@)
                    &&& req@.remember == remember
                },
                Err(e) => !valid_pin(pin@) && e == CryptoError::BadPin,
            },
    {
        let secret = PairSecret::derive(h1, ch.challenge.as_str());
        let sealed_pin = match secret.seal_pin(pin) {
            Ok(s) => s,
            Err(e) => return Err(e),
        };
        Ok(
            SubmitPairRequest {
                request_id: ch.request_id.clone(),
                response: challenge_response(h1, ch.challenge.as_str()),
                device_name: self.cfg.device_name.clone(),
                client_uid: Some(client_uid.to_owned()),
                sealed_pin,
                remember,
            },
        )
    }

    /// The pair request for a challenge, with the random PIN that it seals.
    pub fn pair_request(
        &self,
        h1: &str,
        ch: &ChallengeResponse,
        client_uid: &str,
        remember: bool,
    ) -> (r: Result<(SubmitPairRequest, String), CryptoError>)
        ensures
            r is Ok,
            r matches Ok((req, pin)) ==> {
                &&& valid_pin(pin@)
                &&& request_made(req@, h1@, ch@, self.cfg@.device_name, pin@)
                &&& req@.client_uid == Some(client_uid@)
                &&& req@.remember == remember
            },
    {
        let pin = random_pin();
        match self.pair_request_with(h1, ch, client_uid, remember, pin.as_str()) {
            Ok(req) => Ok((req, pin)),
            Err(e) => Err(e),
        }
    }

    /// What came of submitting a pair request: the status of the answer, and what
    /// the server said where it refused.
    pub fn submitted(status: u16, error: Option<&str>) -> (r: Result<(), String>)
        ensures
            match r {
                Ok(_) => 200 <= status < 300,
                Err(e) => !(200 <= status < 300) && e@ == "pair request refused: "@ + (
                match error {
                    Some(w) => w@,
                    None => "unknown"@,
                }),
            },
    {
        if 200 <= status && status < 300 {
            return Ok(());
        }
        match error {
            Some(e) => Err(cat2("pair request refused: ", e)),
            None => Err(cat2("pair request refused: ", "unknown")),
        }
    }

    /// The password hash for a host.
    pub fn h1_for(&self, id: &str, salt: &str, password: Option<&str>) -> (r: H1Source)
        requires
            self.cfg.hosts.wf(),
        ensures
            match r {
                H1Source::Known(h1) => known_h1(
                    self.cfg@,
                    id@,
                    salt@,
                    str_view(password),
                ) == Some(h1@),
                H1Source::Ask => known_h1(
                    self.cfg@,
                    id@,
                    salt@,
                    str_view(password),
                ) is None,
            },
    {
        if let Some(p) = password {
            return H1Source::Known(password_h1(p, salt));
        }
        if let Some(h) = self.cfg.hosts.get(id) {
            if let Some(s) = &h.password_salt {
                if str_eq(s.as_str(), salt) {
                    if let Some(h1) = &h.password_h1 {
                        return H1Source::Known(h1.clone());
                    }
                }
            }
        }
        H1Source::Ask
    }

    /// Remembers the password hash of a host.
    pub fn remember_password(&mut self, id: &str, h1: &str, salt: &str)
        requires
            old(self).cfg.hosts.wf(),
        ensures
            final(self).cfg.hosts.wf(),
            final(self).cfg@ == old(self).cfg@.with_host(
                id@,
                RememberedHostView {
                    password_h1: Some(h1@),
                    password_salt: Some(salt@),
                    ..old(self).cfg@.host(id@)
                },
            ),
    {
        let mut h = self.cfg.host(id);
        h.password_h1 = Some(h1.to_owned());
        h.password_salt = Some(salt.to_owned());
        self.cfg.set_host(id, h);
    }

    /// The app to start: the one asked for, or else the last one, or else one of
    /// those that the host has.
    pub fn choose_app(&self, id: &str, app: Option<String>) -> (r: AppChoice)
        requires
            self.cfg.hosts.wf(),
        ensures
            match r {
                AppChoice::App(a) => match app {
                    Some(x) => a@ == x@,
                    None => self.cfg@.host(id@).last_app == Some(a@),
                },
                AppChoice::FromList => app is None && self.cfg@.host(id@).last_app is None,
            },
    {
        if let Some(a) = app {
            return AppChoice::App(a);
        }
        let h = self.cfg.host(id);
        match h.last_app {
            Some(a) => AppChoice::App(a),
            None => AppChoice::FromList,
        }
    }

    /// Notes a session that starts: the host's name, where it was reached and the
    /// app.
    pub fn note_session(&mut self, id: &str, name: &str, endpoint: &str, app: &str)
        requires
            old(self).cfg.hosts.wf(),
        ensures
            final(self).cfg.hosts.wf(),
            final(self).cfg@ == old(self).cfg@.with_host(
                id@,
                RememberedHostView {
                    name: name@,
                    last_endpoint: Some(endpoint@),
                    last_app: Some(app@),
                    ..old(self).cfg@.host(id@)
                },
            ),
    {
        let mut h = self.cfg.host(id);
        h.name = name.to_owned();
        h.last_endpoint = Some(endpoint.to_owned());
        h.last_app = Some(app.to_owned());
        self.cfg.set_host(id, h);
    }

    /// Notes a native pairing: the host's name, its certificate and its password
    /// hash.
    pub fn note_native_pairing(&mut self, id: &str, name: &str, pem: &str, h1: &str, salt: &str)
        requires
            old(self).cfg.hosts.wf(),
        ensures
            final(self).cfg.hosts.wf(),
            final(self).cfg@ == old(self).cfg@.with_host(
                id@,
                RememberedHostView {
                    name: name@,
                    server_cert_pem: Some(pem@),
                    password_h1: Some(h1@),
                    password_salt: Some(salt@),
                    ..old(self).cfg@.host(id@)
                },
            ),
    {
        let mut h = self.cfg.host(id);
        h.name = name.to_owned();
        h.server_cert_pem = Some(pem.to_owned());
        h.password_h1 = Some(h1.to_owned());
        h.password_salt = Some(salt.to_owned());
        self.cfg.set_host(id, h);
    }

    /// The certificate of a natively paired host.
    pub fn native_cert(&self, id: &str) -> (r: Result<String, String>)
        requires
            self.cfg.hosts.wf(),
        ensures
            match r {
                Ok(pem) => self.cfg@.host(id@).server_cert_pem == Some(pem@),
                Err(e) => self.cfg@.host(id@).server_cert_pem is None && e@
                    == "not natively paired with "@ + id@ + "; run `ra pair "@ + id@
                    + " --native`"@,
            },
    {
        let h = self.cfg.host(id);
        match h.server_cert_pem {
            Some(pem) => Ok(pem),
            None => {
                let mut s = cat3("not natively paired with ", id, "; run `ra pair ");
                s.append(id);
                s.append(" --native`");
                Err(s)
            },
        }
    }

    /// The arguments of a stream: those of the settings, then those of this call.
    pub fn stream_args(&self, extra: &Vec<String>) -> (r: Vec<String>)
        ensures
            texts(r@) == self.cfg@.stream_args + texts(extra@),
    {
        let mut v = clone_texts(&self.cfg.stream_args);
        let mut rest = clone_texts(extra);
        v.append(&mut rest);
        assert(texts(v@) =~= self.cfg@.stream_args + texts(extra@));
        v
    }
}

} // verus!
