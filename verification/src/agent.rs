//! The host agent loop: keep the ID registered, and turn incoming
//! password-authenticated pair requests into completed Apollo pairings.

use vstd::prelude::*;
use vstd::string::StringExecFns;
use vstd::utf8::{decode_utf8, valid_utf8};
use crate::foreign::{char_is_alphanumeric, is_alphanumeric, text_from_utf8};
use crate::host_config::{Config, ConfigView};
use crate::proto::{
    clone_text, endpoint_views, API_VERSION, Endpoint, EndpointView, RegisterRequest,
    RegisterRequestView, RegisterResponse,
};
use crate::text::{
    cat3, chars, has_prefix, has_text, is_empty, is_space, starts_with, str_eq, str_view, texts,
    trim, trim_end_matches, trimmed, utf8, without_last,
};

verus! {

/// How long, in seconds, we wait for Moonlight's `getservercert` to show up after
/// accepting a password.
pub const PIN_WAIT_SECS: u64 = 90;

/// How long, in seconds, we wait for the paired client to appear in Apollo's list.
pub const CLIENT_APPEAR_WAIT_SECS: u64 = 60;

/// Milliseconds between two looks at Apollo.
pub const APOLLO_PAUSE_MILLIS: u64 = 500;

/// The most endpoints that are advertised.
pub const MAX_ENDPOINTS: usize = 16;

/// A network interface of this machine.
#[derive(Debug)]
pub struct Interface {
    pub name: String,
    pub loopback: bool,
    /// The address as text.
    pub ip: String,
    /// The first sixteen bits of an IPv6 address.
    pub v6_head: Option<u16>,
}

/// What an [`Interface`] holds.
#[verifier::ext_equal]
pub struct InterfaceView {
    pub name: Seq<char>,
    pub loopback: bool,
    pub ip: Seq<char>,
    pub v6_head: Option<u16>,
}

impl View for Interface {
    type V = InterfaceView;

    open spec fn view(&self) -> InterfaceView {
        InterfaceView {
            name: self.name@,
            loopback: self.loopback,
            ip: self.ip@,
            v6_head: self.v6_head,
        }
    }
}

/// What a list of interfaces holds.
pub open spec fn interface_views(v: Seq<Interface>) -> Seq<InterfaceView> {
    Seq::new(v.len(), |i: int| v[i]@)
}

impl InterfaceView {
    /// Whether others can reach us here: no loopback, and no link-local address,
    /// which needs a scope id.
    pub open spec fn reachable(self) -> bool {
        !self.loopback && !(self.v6_head is Some && self.v6_head->0 & 0xffc0 == 0xfe80)
    }

    /// Whether the interface belongs to a VPN, by its name.
    pub open spec fn vpn(self) -> bool {
        has_prefix(self.name, "tailscale"@) || has_prefix(self.name, "utun"@) || has_prefix(
            self.name,
            "wg"@,
        ) || has_prefix(self.name, "zt"@)
    }

    /// The endpoint of the interface.
    pub open spec fn endpoint(self, port: u16) -> EndpointView {
        EndpointView {
            host: self.ip,
            port,
            kind: if self.vpn() {
                "vpn"@
            } else {
                "lan"@
            },
        }
    }
}

/// The endpoints of the interfaces at which others can reach us.
pub open spec fn interface_endpoints(v: Seq<InterfaceView>, port: u16) -> Seq<EndpointView>
    decreases v.len(),
{
    if v.len() == 0 {
        Seq::empty()
    } else if v.last().reachable() {
        interface_endpoints(v.drop_last(), port).push(v.last().endpoint(port))
    } else {
        interface_endpoints(v.drop_last(), port)
    }
}

/// Whether one of the endpoints is at `host`.
pub open spec fn has_host(v: Seq<EndpointView>, host: Seq<char>) -> bool {
    exists|i: int| 0 <= i < v.len() && (#[trigger] v[i]).host == host
}

/// The endpoints whose host does not occur before them.
pub open spec fn first_of_each(v: Seq<EndpointView>) -> Seq<EndpointView>
    decreases v.len(),
{
    if v.len() == 0 {
        Seq::empty()
    } else if has_host(v.drop_last(), v.last().host) {
        first_of_each(v.drop_last())
    } else {
        first_of_each(v.drop_last()).push(v.last())
    }
}

/// All endpoints that might be advertised, in order of preference.
pub open spec fn endpoint_candidates(
    cfg: ConfigView,
    interfaces: Seq<InterfaceView>,
    observed: Option<Seq<char>>,
) -> Seq<EndpointView> {
    let lan = if cfg.advertise_lan_ips {
        interface_endpoints(interfaces, cfg.gamestream_port)
    } else {
        Seq::empty()
    };
    let public = match observed {
        Some(o) => if cfg.advertise_public_ip {
            seq![EndpointView { host: o, port: cfg.gamestream_port, kind: "public"@ }]
        } else {
            Seq::empty()
        },
        None => Seq::empty(),
    };
    lan + cfg.extra_endpoints + public
}

/// The first `n` of `v`, or all.
pub open spec fn at_most<T>(v: Seq<T>, n: int) -> Seq<T> {
    if v.len() <= n {
        v
    } else {
        v.take(n)
    }
}

/// The endpoints that are advertised.
pub open spec fn endpoints_of(
    cfg: ConfigView,
    interfaces: Seq<InterfaceView>,
    observed: Option<Seq<char>>,
) -> Seq<EndpointView> {
    at_most(first_of_each(endpoint_candidates(cfg, interfaces, observed)), MAX_ENDPOINTS as int)
}

/// Appends an endpoint unless its host was seen before.
fn push_new(eps: &mut Vec<Endpoint>, e: Endpoint, seen: &mut Vec<String>, Ghost(all): Ghost<Seq<EndpointView>>)
    requires
        endpoint_views(old(eps)@) == first_of_each(all),
        forall|h: Seq<char>| #[trigger] texts(old(seen)@).contains(h) <==> has_host(all, h),
    ensures
        endpoint_views(final(eps)@) == first_of_each(all.push(e@)),
        forall|h: Seq<char>| #[trigger]
            texts(final(seen)@).contains(h) <==> has_host(all.push(e@), h),
{
    proof {
        assert(all.push(e@).drop_last() =~= all);
        assert forall|h: Seq<char>| has_host(all.push(e@), h) <==> has_host(all, h) || h
            == e@.host by {
            if has_host(all, h) {
                let i = choose|i: int| 0 <= i < all.len() && (#[trigger] all[i]).host == h;
                assert(all.push(e@)[i].host == h);
            }
            if h == e@.host {
                assert(all.push(e@)[all.len() as int].host == h);
            }
            if has_host(all.push(e@), h) {
                let i = choose|i: int|
                    0 <= i < all.push(e@).len() && (#[trigger] all.push(e@)[i]).host == h;
                if i < all.len() {
                    assert(all[i].host == h);
                }
            }
        }
    }
    if has_text(seen, e.host.as_str()) {
        return ;
    }
    let ghost before = texts(seen@);
    seen.push(e.host.clone());
    proof {
        assert(texts(seen@) =~= before.push(e@.host));
        assert forall|h: Seq<char>| #[trigger] texts(seen@).contains(h) <==> has_host(
            all.push(e@),
            h,
        ) by {
            if before.contains(h) {
                let i = choose|i: int| 0 <= i < before.len() && before[i] == h;
                assert(texts(seen@)[i] == h);
            }
            if h == e@.host {
                assert(texts(seen@)[before.len() as int] == h);
            }
            if texts(seen@).contains(h) {
                let i = choose|i: int| 0 <= i < texts(seen@).len() && texts(seen@)[i] == h;
                if i < before.len() {
                    assert(before[i] == h);
                }
            }
        }
    }
    let ghost list = endpoint_views(eps@);
    let ghost added = e@;
    eps.push(e);
    assert(endpoint_views(eps@) =~= list.push(added));
}

/// The agent of one host.
pub struct Agent {
    pub cfg: Config,
    /// Consecutive wrong-password attempts; used for backoff.
    pub failures: u32,
}

/// What an [`Agent`] holds.
#[verifier::ext_equal]
pub struct AgentView {
    pub cfg: ConfigView,
    pub failures: u32,
}

impl View for Agent {
    type V = AgentView;

    open spec fn view(&self) -> AgentView {
        AgentView { cfg: self.cfg@, failures: self.failures }
    }
}

/// The URL of a path at the rendezvous server.
pub open spec fn rendezvous_path(base: Seq<char>, path: Seq<char>) -> Seq<char> {
    without_last(base, '/') + "/"@ + API_VERSION@ + path
}

/// The URL of a path at the rendezvous server.
pub fn rendezvous_url(base: &str, path: &str) -> (r: String)
    ensures
        r@ == rendezvous_path(base@, path@),
{
    let b = trim_end_matches(base, '/');
    let mut s = cat3(b.as_str(), "/", API_VERSION);
    s.append(path);
    s
}

impl Agent {
    pub fn new(cfg: Config) -> (r: Self)
        ensures
            r@ == (AgentView { cfg: cfg@, failures: 0 }),
    {
        Agent { cfg, failures: 0 }
    }

    pub fn rv(&self, path: &str) -> (r: String)
        ensures
            r@ == rendezvous_path(self@.cfg.rendezvous_url, path@),
    {
        rendezvous_url(self.cfg.rendezvous_url.as_str(), path)
    }

    /// The endpoints to advertise, given this machine's interfaces and the address
    /// that the rendezvous server sees us from.
    pub fn endpoints(&self, interfaces: &Vec<Interface>, observed: Option<&str>) -> (r: Vec<Endpoint>)
        ensures
            endpoint_views(r@) == endpoints_of(
                self@.cfg,
                interface_views(interfaces@),
                str_view(observed),
            ),
    {
        let mut eps: Vec<Endpoint> = Vec::new();
        let mut seen: Vec<String> = Vec::new();
        let port: u16 = self.cfg.gamestream_port;
        let ghost mut all: Seq<EndpointView> = Seq::empty();
        let ghost views = interface_views(interfaces@);
        assert(endpoint_views(eps@) =~= Seq::empty());
        assert(texts(seen@) =~= Seq::empty());
        if self.cfg.advertise_lan_ips {
            let mut i: usize = 0;
            assert(views.take(0) =~= Seq::empty());
            while i < interfaces.len()
                invariant
                    i <= interfaces@.len(),
                    views == interface_views(interfaces@),
                    all == interface_endpoints(views.take(i as int), port),
                    endpoint_views(eps@) == first_of_each(all),
                    forall|h: Seq<char>| #[trigger]
                        texts(seen@).contains(h) <==> has_host(all, h),
                decreases interfaces.len() - i,
            {
                let f = &interfaces[i];
                proof {
                    assert(views.take(i + 1).drop_last() =~= views.take(i as int));
                    assert(views.take(i + 1).last() == f@);
                }
                let link_local = match f.v6_head {
                    Some(head) => head & 0xffc0 == 0xfe80,
                    None => false,
                };
                if !f.loopback && !link_local {
                    let name = f.name.as_str();
                    let vpn = starts_with(name, "tailscale") || starts_with(name, "utun")
                        || starts_with(name, "wg") || starts_with(name, "zt");
                    let kind = if vpn {
                        "vpn".to_owned()
                    } else {
                        "lan".to_owned()
                    };
                    let e = Endpoint { host: f.ip.clone(), port, kind };
                    assert(e@ == f@.endpoint(port));
                    push_new(&mut eps, e, &mut seen, Ghost(all));
                    proof {
                        all = all.push(f@.endpoint(port));
                    }
                }
                i += 1;
            }
            assert(views.take(i as int) =~= views);
        }
        let ghost lan = all;
        let ghost extra = self@.cfg.extra_endpoints;
        let mut j: usize = 0;
        assert(lan + extra.take(0) =~= lan);
        while j < self.cfg.extra_endpoints.len()
            invariant
                j <= self.cfg.extra_endpoints@.len(),
                extra == endpoint_views(self.cfg.extra_endpoints@),
                all == lan + extra.take(j as int),
                endpoint_views(eps@) == first_of_each(all),
                forall|h: Seq<char>| #[trigger] texts(seen@).contains(h) <==> has_host(all, h),
            decreases self.cfg.extra_endpoints.len() - j,
        {
            let e = self.cfg.extra_endpoints[j].clone();
            let ghost added = e@;
            push_new(&mut eps, e, &mut seen, Ghost(all));
            proof {
                all = all.push(added);
                assert(all =~= lan + extra.take(j + 1));
            }
            j += 1;
        }
        assert(all =~= lan + extra);
        if self.cfg.advertise_public_ip {
            if let Some(o) = observed {
                let e = Endpoint { host: o.to_owned(), port, kind: "public".to_owned() };
                let ghost added = e@;
                push_new(&mut eps, e, &mut seen, Ghost(all));
                proof {
                    all = all.push(added);
                }
            }
        }
        proof {
            assert(all =~= endpoint_candidates(
                self@.cfg,
                views,
                str_view(observed),
            ));
            assert(endpoint_views(eps@).len() == eps@.len());
        }
        let ghost full = endpoint_views(eps@);
        eps.truncate(MAX_ENDPOINTS);
        assert(endpoint_views(eps@) =~= at_most(full, MAX_ENDPOINTS as int));
        eps
    }

    /// The registration to send.
    pub fn register_request(
        &self,
        interfaces: &Vec<Interface>,
        platform: &str,
        agent_version: &str,
    ) -> (r: RegisterRequest)
        ensures
            r@ == (RegisterRequestView {
                id: self@.cfg.id,
                token: self@.cfg.token,
                name: self@.cfg.name,
                platform: platform@,
                endpoints: endpoints_of(self@.cfg, interface_views(interfaces@), None),
                password_salt: self@.cfg.password_salt,
                agent_version: agent_version@,
            }),
    {
        RegisterRequest {
            id: clone_text(&self.cfg.id),
            token: self.cfg.token.clone(),
            name: self.cfg.name.clone(),
            platform: platform.to_owned(),
            endpoints: self.endpoints(interfaces, None),
            password_salt: self.cfg.password_salt.clone(),
            agent_version: agent_version.to_owned(),
        }
    }

    /// Whether the agent may take requests: only with a password to check them with.
    pub fn ready(&self) -> (r: Result<(), String>)
        ensures
            match r {
                Ok(_) => self@.cfg.password_h1 is Some,
                Err(e) => self@.cfg.password_h1 is None && e@
                    == "no password set; run `ra-host set-password` first"@,
            },
    {
        match &self.cfg.password_h1 {
            Some(_) => Ok(()),
            None => Err("no password set; run `ra-host set-password` first".to_owned()),
        }
    }

    /// The endpoints of the second pass after a registration, which advertises the
    /// address that the server saw us from; none where it saw none.
    pub fn second_pass(&self, interfaces: &Vec<Interface>, resp: &RegisterResponse) -> (r: Option<
        Vec<Endpoint>,
    >)
        ensures
            match r {
                Some(v) => {
                    &&& resp@.observed_addr is Some
                    &&& endpoint_views(v@) == endpoints_of(
                        self@.cfg,
                        interface_views(interfaces@),
                        resp@.observed_addr,
                    )
                },
                None => resp@.observed_addr is None,
            },
    {
        match &resp.observed_addr {
            Some(a) => Some(self.endpoints(interfaces, Some(a.as_str()))),
            None => None,
        }
    }

    /// Takes over the id that the server assigned; tells whether the settings have
    /// changed and must be saved.
    pub fn adopt_id(&mut self, id: &str) -> (r: bool)
        ensures
            r == (old(self)@.cfg.id != Some(id@)),
            final(self)@ == (AgentView {
                cfg: ConfigView { id: Some(id@), ..old(self)@.cfg },
                ..old(self)@
            }),
    {
        let same = match &self.cfg.id {
            Some(known) => str_eq(known.as_str(), id),
            None => false,
        };
        if !same {
            self.cfg.id = Some(id.to_owned());
        }
        !same
    }
}

/// Seconds between heartbeats, within sensible bounds.
pub fn ra_proto_heartbeat_secs(r: &RegisterResponse) -> (secs: u64)
    ensures
        secs == heartbeat_of(r.heartbeat_secs),
{
    if r.heartbeat_secs < 10 {
        10
    } else if r.heartbeat_secs > 300 {
        300
    } else {
        r.heartbeat_secs
    }
}

/// A number of seconds brought between ten and three hundred.
pub open spec fn heartbeat_of(secs: u64) -> u64 {
    if secs < 10 {
        10
    } else if secs > 300 {
        300
    } else {
        secs
    }
}

/// A letter or a digit, of ASCII or of the rest of Unicode.
pub open spec fn letter_or_digit(c: char) -> bool {
    if (c as u32) < 128 {
        ('A' <= c && c <= 'Z') || ('a' <= c && c <= 'z') || ('0' <= c && c <= '9')
    } else {
        is_alphanumeric(c)
    }
}

/// A character that a device name may hold.
pub open spec fn in_device_name(c: char) -> bool {
    letter_or_digit(c) || c == ' ' || c == '-' || c == '_' || c == '.' || c == '[' || c == ']'
}

/// A device name for Apollo.
pub open spec fn sanitized(n: Seq<char>) -> Seq<char> {
    let s = at_most(n.filter(|c: char| in_device_name(c)), 48);
    if trimmed(s).len() == 0 {
        "Remote client"@
    } else {
        s
    }
}

/// Whether a device name may hold `c`.
fn name_char(c: char) -> (r: bool)
    ensures
        r == in_device_name(c),
{
    char_is_alphanumeric(c) || c == ' ' || c == '-' || c == '_' || c == '.' || c == '[' || c == ']'
}

/// A device name that is simple already is kept.
pub proof fn lemma_sanitized_is_kept(n: Seq<char>)
    ensures
        1 <= sanitized(n).len() <= 48,
        trimmed(sanitized(n)).len() > 0,
        forall|i: int|
            0 <= i < sanitized(n).len() ==> in_device_name(#[trigger] sanitized(n)[i]),
        sanitized(sanitized(n)) == sanitized(n),
{
    let pred = |c: char| in_device_name(c);
    let kept = n.filter(pred);
    let s = at_most(kept, 48);
    let r = sanitized(n);
    if trimmed(s).len() == 0 {
        reveal_strlit("Remote client");
        assert(!is_space(r[0]));
        assert(!is_space(r.last()));
    } else {
        assert forall|i: int| 0 <= i < r.len() implies in_device_name(#[trigger] r[i]) by {
            n.lemma_filter_pred(pred, i);
            assert(s[i] == kept[i]);
        }
    }
    lemma_filter_keeps(r, pred);
}

/// A filter that lets everything through keeps everything.
proof fn lemma_filter_keeps(s: Seq<char>, pred: spec_fn(char) -> bool)
    requires
        forall|i: int| 0 <= i < s.len() ==> pred(#[trigger] s[i]),
    ensures
        s.filter(pred) == s,
    decreases s.len(),
{
    reveal(Seq::filter);
    if s.len() > 0 {
        let front = s.drop_last();
        assert forall|i: int| 0 <= i < front.len() implies pred(#[trigger] front[i]) by {
            assert(front[i] == s[i]);
        }
        lemma_filter_keeps(front, pred);
        assert(pred(s[s.len() - 1]));
        assert(front.push(s.last()) =~= s);
    }
}

/// Apollo rewrites `(`/`)` to `[`/`]`; keep names simple.
pub fn sanitize_name(n: &str) -> (r: String)
    ensures
        r@ == sanitized(n@),
        sanitized(r@) == r@,
{
    proof {
        lemma_sanitized_is_kept(n@);
    }
    let v = chars(n);
    let ghost pred = |c: char| in_device_name(c);
    let mut kept: Vec<char> = Vec::new();
    let mut i: usize = 0;
    assert(v@.take(0).filter(pred) =~= Seq::empty()) by {
        reveal(Seq::filter);
    }
    while i < v.len()
        invariant
            i <= v@.len(),
            pred == (|c: char| in_device_name(c)),
            kept@ == v@.take(i as int).filter(pred),
        decreases v.len() - i,
    {
        let c = v[i];
        proof {
            reveal(Seq::filter);
            assert(v@.take(i + 1).drop_last() =~= v@.take(i as int));
        }
        if name_char(c) {
            kept.push(c);
        }
        i += 1;
    }
    assert(v@.take(i as int) =~= v@);
    let ghost full = kept@;
    kept.truncate(48);
    assert(kept@ =~= at_most(full, 48));
    let s = crate::text::from_chars(kept.as_slice());
    let t = trim(s.as_str());
    if is_empty(t.as_str()) {
        return "Remote client".to_owned();
    }
    s
}

/// The `i`-th group of three bytes, as text; empty where it is no text.
pub open spec fn id_group(b: Seq<u8>, i: int) -> Seq<char> {
    let to = if 3 * i + 3 <= b.len() {
        3 * i + 3
    } else {
        b.len() as int
    };
    let g = b.subrange(3 * i, to);
    if valid_utf8(g) {
        decode_utf8(g)
    } else {
        ""@
    }
}

/// The first `n` groups of three bytes, with spaces between them.
pub open spec fn grouped(b: Seq<u8>, n: int) -> Seq<char>
    decreases n,
{
    if n <= 0 {
        Seq::empty()
    } else if n == 1 {
        id_group(b, 0)
    } else {
        grouped(b, n - 1) + " "@ + id_group(b, n - 1)
    }
}

/// An id in groups of three.
pub open spec fn pretty(id: Seq<char>) -> Seq<char> {
    grouped(utf8(id), (utf8(id).len() as int + 2) / 3)
}

/// `123456789` -> `123 456 789`.
pub fn pretty_id(id: &str) -> (r: String)
    ensures
        r@ == pretty(id@),
{
    let b = id.as_bytes();
    let mut out = String::new();
    let mut at: usize = 0;
    let ghost mut n: int = 0;
    proof {
        reveal_strlit("");
        assert(out@ =~= Seq::empty());
    }
    while at < b.len()
        invariant
            at <= b@.len(),
            b@ == utf8(id@),
            n >= 0,
            at == 3 * n || (at == b@.len() && 3 * n - 3 < at < 3 * n),
            out@ == grouped(b@, n),
        decreases b.len() - at,
    {
        let to: usize = if b.len() - at >= 3 {
            at + 3
        } else {
            b.len()
        };
        let mut g: Vec<u8> = Vec::new();
        g.extend_from_slice(vstd::slice::slice_subrange(b, at, to));
        assert(g@ =~= b@.subrange(3 * n, to as int));
        let word = match text_from_utf8(g) {
            Ok(w) => w,
            Err(_) => "".to_owned(),
        };
        proof {
            if valid_utf8(g@) {
                vstd::utf8::encode_utf8_decode_utf8(word@);
            }
            assert(word@ == id_group(b@, n));
            reveal_strlit("");
        }
        if at > 0 {
            out.append(" ");
        }
        let ghost before = out@;
        out.append(word.as_str());
        proof {
            if n == 0 {
                assert(out@ =~= word@);
            }
            n = n + 1;
        }
        at = to;
    }
    proof {
        assert(n == (b@.len() as int + 2) / 3);
    }
    out
}

} // verus!
