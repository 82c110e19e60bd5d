//! What the host agent's decisions guarantee together.

use vstd::prelude::*;
use crate::agent::{
    endpoint_candidates, endpoints_of, first_of_each, has_host, in_device_name,
    interface_endpoints, lemma_sanitized_is_kept, pretty, rendezvous_path, sanitized,
    MAX_ENDPOINTS, InterfaceView,
};
use crate::agent::{grouped, id_group};
use crate::agent_loop::{
    backoff_of, checked, new_client, two_to, AgentRunView, JobEventView, JobPhase, PairJobView,
    RequestCheckView, RunActionView, RunEventView, RunPhase,
};
use crate::apollo::ApolloClientView;
use crate::foreign::is_alphanumeric;
use crate::host_config::ConfigView;
use crate::proto::{
    fingerprint_of, h1_of, h2_of, opened_pin, pair_key, valid_id, valid_pin, CryptoError, EndpointView,
    PairRequestView, PairStatus,
};
use crate::proto_laws::hashes_are_of_the_joined_texts;
use crate::text::{has_prefix, is_digit, trimmed, utf8};

verus! {

/// No two of the endpoints are at the same host.
pub open spec fn distinct_hosts(v: Seq<EndpointView>) -> bool {
    forall|i: int, j: int|
        0 <= i < j < v.len() ==> (#[trigger] v[i]).host != (#[trigger] v[j]).host
}

/// Keeping the first of each host keeps every host, and each once.
proof fn lemma_first_of_each(v: Seq<EndpointView>)
    ensures
        distinct_hosts(first_of_each(v)),
        forall|h: Seq<char>| has_host(first_of_each(v), h) <==> has_host(v, h),
    decreases v.len(),
{
    if v.len() > 0 {
        let p = v.drop_last();
        let f = first_of_each(p);
        lemma_first_of_each(p);
        assert forall|h: Seq<char>| has_host(v, h) <==> has_host(p, h) || h == v.last().host by {
            if has_host(p, h) {
                let i = choose|i: int| 0 <= i < p.len() && (#[trigger] p[i]).host == h;
                assert(v[i].host == h);
            }
            if h == v.last().host {
                assert(v[v.len() - 1].host == h);
            }
            if has_host(v, h) {
                let i = choose|i: int| 0 <= i < v.len() && (#[trigger] v[i]).host == h;
                if i < p.len() {
                    assert(p[i].host == h);
                }
            }
        }
        if !has_host(p, v.last().host) {
            let g = f.push(v.last());
            assert(first_of_each(v) == g);
            assert(!has_host(f, v.last().host));
            assert forall|h: Seq<char>| has_host(g, h) <==> has_host(f, h) || h == v.last().host by {
                if has_host(f, h) {
                    let i = choose|i: int| 0 <= i < f.len() && (#[trigger] f[i]).host == h;
                    assert(g[i].host == h);
                }
                if h == v.last().host {
                    assert(g[f.len() as int].host == h);
                }
                if has_host(g, h) {
                    let i = choose|i: int| 0 <= i < g.len() && (#[trigger] g[i]).host == h;
                    if i < f.len() {
                        assert(f[i].host == h);
                    }
                }
            }
            assert forall|i: int, j: int| 0 <= i < j < g.len() implies (#[trigger] g[i]).host != (
            #[trigger] g[j]).host by {
                assert(g[i] == f[i]);
                if j == f.len() {
                    assert(f[i].host != v.last().host);
                }
            }
        }
    }
}

/// What an agent advertises is never more than the server accepts, names no host
/// twice, and names only hosts that it was given.
pub proof fn advertised_endpoints_are_sound(
    cfg: ConfigView,
    interfaces: Seq<InterfaceView>,
    observed: Option<Seq<char>>,
)
    ensures
        endpoints_of(cfg, interfaces, observed).len() <= MAX_ENDPOINTS,
        distinct_hosts(endpoints_of(cfg, interfaces, observed)),
        forall|h: Seq<char>|
            has_host(endpoints_of(cfg, interfaces, observed), h) ==> has_host(
                endpoint_candidates(cfg, interfaces, observed),
                h,
            ),
{
    let all = endpoint_candidates(cfg, interfaces, observed);
    let full = first_of_each(all);
    let cut = endpoints_of(cfg, interfaces, observed);
    lemma_first_of_each(all);
    assert forall|i: int| 0 <= i < cut.len() implies #[trigger] cut[i] == full[i] by {}
    assert forall|h: Seq<char>| has_host(cut, h) implies has_host(all, h) by {
        let i = choose|i: int| 0 <= i < cut.len() && (#[trigger] cut[i]).host == h;
        assert(full[i].host == h);
        assert(has_host(full, h));
    }
}

/// A client that knows the password gets its PIN through: what it seals under the
/// shared key the host opens, and nothing else of the request matters.
pub proof fn right_password_is_accepted(
    password: Seq<char>,
    salt: Seq<char>,
    pr: PairRequestView,
    pin: Seq<char>,
)
    requires
        pr.response == h2_of(h1_of(password, salt), pr.challenge),
        opened_pin(pair_key(h1_of(password, salt), pr.challenge), pr.sealed_pin) == Ok::<
            Seq<char>,
            CryptoError,
        >(pin),
    ensures
        checked(h1_of(password, salt), pr) == (RequestCheckView::Accepted {
            pin,
            name: sanitized(pr.device_name),
        }),
{
}

/// Nothing but an answer that shows the password gets a request accepted, and the
/// PIN of an accepted request is a PIN.
pub proof fn accepted_requests_show_the_password(h1: Seq<char>, pr: PairRequestView)
    requires
        checked(h1, pr) is Accepted,
    ensures
        pr.response == h2_of(h1, pr.challenge),
        valid_pin(checked(h1, pr)->pin),
{
}

/// Guessing is slowed down: each wrong password in a row costs a longer pause than
/// the one before, from two seconds up to a minute.
pub proof fn backoff_grows(failures: u32)
    ensures
        1 <= failures ==> 2 <= backoff_of(failures) <= 60,
        1 <= failures < 6 ==> backoff_of(failures) < backoff_of((failures + 1) as u32),
        6 <= failures ==> backoff_of(failures) == 60,
{
    reveal_with_fuel(two_to, 7);
}

/// A wrong password is answered, after the pause, with a rejection of the very
/// request that it came with, and counted.
pub proof fn wrong_passwords_are_rejected(run: AgentRunView, now: u64, later: u64)
    requires
        run.phase == RunPhase::Handling,
    ensures
        ({
            let (paused, sleep) = run.step(RunEventView::Handled(Err("wrong password"@)), now);
            let (posting, post) = paused.step(RunEventView::Slept, later);
            &&& sleep == RunActionView::SleepSecs(backoff_of(paused.agent.failures) as u64)
            &&& paused.agent.failures >= 1
            &&& run.agent.failures < u32::MAX ==> paused.agent.failures == run.agent.failures + 1
            &&& post is Post
            &&& post->Post_0.request_id == run.current
            &&& post->Post_0.status == PairStatus::Rejected
        }),
{
}

/// Every request that a poll brings is handled in its turn, and each is reported
/// under its own id before the next is taken up.
pub proof fn requests_are_reported_in_turn(
    run: AgentRunView,
    v: Seq<PairRequestView>,
    done: Result<(), Seq<char>>,
    now: u64,
    after: u64,
    later: u64,
)
    requires
        run.phase == RunPhase::Polling,
        v.len() > 0,
        done != Err::<(), Seq<char>>("wrong password"@),
    ensures
        ({
            let (handling, first) = run.step(RunEventView::Requests(v), now);
            let (posting, report) = handling.step(RunEventView::Handled(done), after);
            let (next, second) = posting.step(RunEventView::Posted, later);
            &&& first == RunActionView::Handle(v[0])
            &&& report is Post
            &&& report->Post_0.request_id == v[0].request_id
            &&& report->Post_0.status == (if done is Ok {
                PairStatus::Paired
            } else {
                PairStatus::Failed
            })
            &&& v.len() > 1 ==> second == RunActionView::Handle(v[1])
        }),
{
}

/// Permissions go only to a client that was not there before the PIN was given.
pub proof fn only_new_clients_are_updated(job: PairJobView, ev: JobEventView, now: u64)
    requires
        job.fits(ev),
        job.step(ev, now).1 is UpdateClient,
    ensures
        job.phase == JobPhase::ListAfter,
        !job.before.contains(job.step(ev, now).1->UpdateClient_0.uuid),
        job.step(ev, now).1->UpdateClient_0.perm == job.perm,
{
    if let JobEventView::Clients(Ok(clients)) = ev {
        lemma_new_client(clients, job.before);
    }
}

/// A client that counts as new was not known.
proof fn lemma_new_client(clients: Seq<ApolloClientView>, before: Seq<Seq<char>>)
    ensures
        new_client(clients, before) is Some ==> !before.contains(
            new_client(clients, before)->0.uuid,
        ),
    decreases clients.len(),
{
    if clients.len() > 0 && before.contains(clients[0].uuid) {
        lemma_new_client(clients.drop_first(), before);
    }
}

/// A device name is never blank, nor longer than Apollo takes, holds only characters
/// that are let through, and is not changed any more.
pub proof fn device_names_are_simple(n: Seq<char>)
    ensures
        trimmed(sanitized(n)).len() > 0,
        sanitized(n).len() <= 48,
        forall|i: int|
            0 <= i < sanitized(n).len() ==> in_device_name(#[trigger] sanitized(n)[i]),
        sanitized(sanitized(n)) == sanitized(n),
{
    lemma_sanitized_is_kept(n);
}

/// An ID is shown as its nine digits in three groups.
pub proof fn ids_are_shown_in_groups(id: Seq<char>)
    requires
        valid_id(id),
    ensures
        pretty(id) == id.take(3) + " "@ + id.subrange(3, 6) + " "@ + id.subrange(6, 9),
{
    assert forall|i: int| 0 <= i < id.len() implies '\0' <= #[trigger] id[i] <= '\u{7f}' by {
        assert(is_digit(id[i]));
    }
    vstd::utf8::is_ascii_chars_encode_utf8(id);
    let b = utf8(id);
    assert forall|k: int| 0 <= k < 3 implies #[trigger] id_group(b, k) == id.subrange(
        3 * k,
        3 * k + 3,
    ) by {
        let part = id.subrange(3 * k, 3 * k + 3);
        assert(vstd::utf8::is_ascii_chars(part));
        vstd::utf8::is_ascii_chars_encode_utf8(part);
        assert(utf8(part) =~= b.subrange(3 * k, 3 * k + 3));
        vstd::utf8::encode_utf8_valid_utf8(part);
        vstd::utf8::encode_utf8_decode_utf8(part);
    }
    assert(id.subrange(0, 3) =~= id.take(3));
    assert(id_group(b, 0) == id.subrange(0, 3));
    assert(id_group(b, 1) == id.subrange(3, 6));
    assert(id_group(b, 2) == id.subrange(6, 9));
    assert(grouped(b, 1) == id_group(b, 0));
    assert(grouped(b, 2) == grouped(b, 1) + " "@ + id_group(b, 1));
    assert(grouped(b, 3) == grouped(b, 2) + " "@ + id_group(b, 2));
}

/// A host advertises neither the loopback interface nor a link-local address, of
/// `fe80` to `febf`; every other interface it does.
pub proof fn interfaces_are_advertised_where_others_reach_them(i: InterfaceView)
    ensures
        i.loopback ==> !i.reachable(),
        !i.loopback && i.v6_head is None ==> i.reachable(),
        !i.loopback && i.v6_head is Some ==> (i.reachable() <==> i.v6_head->0 < 0xfe80
            || i.v6_head->0 > 0xfebf),
{
    if let Some(h) = i.v6_head {
        assert((h & 0xffc0 == 0xfe80) <==> (0xfe80 <= h && h <= 0xfebf)) by (bit_vector);
    }
}

/// A text starts with another exactly if it is that one and something behind it.
proof fn lemma_starts(s: Seq<char>, p: Seq<char>)
    ensures
        has_prefix(s, p) <==> exists|rest: Seq<char>| s == #[trigger] (p + rest),
{
    if has_prefix(s, p) {
        let rest = s.skip(p.len() as int);
        assert(s =~= p + rest);
    }
    if exists|rest: Seq<char>| s == #[trigger] (p + rest) {
        let rest = choose|rest: Seq<char>| s == #[trigger] (p + rest);
        assert((p + rest).take(p.len() as int) =~= p);
    }
}

/// An interface is that of a VPN exactly if its name starts as the names of Tailscale,
/// of the tunnels of macOS, of WireGuard or of ZeroTier do. Its endpoint is its
/// address, at the given port.
pub proof fn interfaces_of_a_vpn_are_named_so(i: InterfaceView, rest: Seq<char>, port: u16)
    ensures
        i.name == "tailscale"@ + rest || i.name == "utun"@ + rest || i.name == "wg"@ + rest || i.name
            == "zt"@ + rest ==> i.endpoint(port).kind == "vpn"@,
        (forall|r: Seq<char>| i.name != #[trigger] ("tailscale"@ + r)) && (forall|r: Seq<char>|
            i.name != #[trigger] ("utun"@ + r)) && (forall|r: Seq<char>|
            i.name != #[trigger] ("wg"@ + r)) && (forall|r: Seq<char>|
            i.name != #[trigger] ("zt"@ + r)) ==> i.endpoint(port).kind == "lan"@,
        i.endpoint(port).host == i.ip,
        i.endpoint(port).port == port,
{
    lemma_starts(i.name, "tailscale"@);
    lemma_starts(i.name, "utun"@);
    lemma_starts(i.name, "wg"@);
    lemma_starts(i.name, "zt"@);
}

/// The endpoints of a list of interfaces are those of its parts, in order; one
/// interface has one endpoint if it can be reached, and else none.
pub proof fn each_interface_has_its_endpoint(
    a: Seq<InterfaceView>,
    b: Seq<InterfaceView>,
    i: InterfaceView,
    port: u16,
)
    ensures
        interface_endpoints(a + b, port) == interface_endpoints(a, port) + interface_endpoints(b, port),
        interface_endpoints(seq![i], port) == (if i.reachable() {
            seq![i.endpoint(port)]
        } else {
            Seq::empty()
        }),
    decreases b.len(),
{
    if b.len() == 0 {
        assert(a + b =~= a);
        assert(interface_endpoints(a, port) + interface_endpoints(b, port)
            =~= interface_endpoints(a, port));
    } else {
        each_interface_has_its_endpoint(a, b.drop_last(), i, port);
        assert((a + b).drop_last() =~= a + b.drop_last());
        assert((a + b).last() == b.last());
        assert(interface_endpoints(a + b, port) =~= interface_endpoints(a, port)
            + interface_endpoints(b, port));
    }
    assert(seq![i].drop_last() =~= Seq::<InterfaceView>::empty());
    assert(interface_endpoints(seq![i].drop_last(), port) =~= Seq::<EndpointView>::empty());
    assert(interface_endpoints(seq![i], port) =~= (if i.reachable() {
        seq![i.endpoint(port)]
    } else {
        Seq::empty()
    }));
}

/// Of two endpoints at one host only the first is advertised; otherwise all are, in
/// their order.
pub proof fn the_first_endpoint_of_a_host_counts(v: Seq<EndpointView>, e: EndpointView)
    ensures
        distinct_hosts(v) ==> first_of_each(v) == v,
        has_host(v, e.host) ==> first_of_each(v.push(e)) == first_of_each(v),
        !has_host(v, e.host) ==> first_of_each(v.push(e)) == first_of_each(v).push(e),
    decreases v.len(),
{
    assert(v.push(e).drop_last() =~= v);
    if v.len() > 0 && distinct_hosts(v) {
        let p = v.drop_last();
        assert forall|i: int, j: int| 0 <= i < j < p.len() implies (#[trigger] p[i]).host != (
        #[trigger] p[j]).host by {
            assert(p[i] == v[i] && p[j] == v[j]);
        }
        the_first_endpoint_of_a_host_counts(p, e);
        if has_host(p, v.last().host) {
            let i = choose|i: int| 0 <= i < p.len() && (#[trigger] p[i]).host == v.last().host;
            assert(v[i].host != v[v.len() - 1].host);
        }
        assert(p.push(v.last()) =~= v);
    }
}

/// A host advertises the endpoints of its interfaces, if it may, then those of its
/// settings, then its public address, if it is known and may be told: without repeated
/// hosts, and up to sixteen, in this order.
pub proof fn endpoints_are_advertised_in_order(
    cfg: ConfigView,
    interfaces: Seq<InterfaceView>,
    observed: Seq<char>,
)
    ensures
        ({
            let port = cfg.gamestream_port;
            let quiet = ConfigView { advertise_lan_ips: false, advertise_public_ip: false, ..cfg };
            let lan = ConfigView { advertise_lan_ips: true, ..quiet };
            let both = ConfigView { advertise_public_ip: true, ..lan };
            let own = interface_endpoints(interfaces, port) + cfg.extra_endpoints;
            let public = EndpointView { host: observed, port, kind: "public"@ };
            &&& distinct_hosts(cfg.extra_endpoints) && cfg.extra_endpoints.len() <= 16
                ==> endpoints_of(quiet, interfaces, Some(observed)) == cfg.extra_endpoints
            &&& distinct_hosts(own) && own.len() <= 16 ==> endpoints_of(
                lan,
                interfaces,
                Some(observed),
            ) == own && endpoints_of(both, interfaces, None) == own
            &&& distinct_hosts(own.push(public)) && own.len() < 16 ==> endpoints_of(
                both,
                interfaces,
                Some(observed),
            ) == own.push(public)
            &&& distinct_hosts(own) && own.len() > 16 ==> endpoints_of(both, interfaces, None)
                == own.take(16)
        }),
{
    let port = cfg.gamestream_port;
    let own = interface_endpoints(interfaces, port) + cfg.extra_endpoints;
    let public = EndpointView { host: observed, port, kind: "public"@ };
    the_first_endpoint_of_a_host_counts(cfg.extra_endpoints, public);
    the_first_endpoint_of_a_host_counts(own, public);
    the_first_endpoint_of_a_host_counts(own.push(public), public);
    assert(Seq::<EndpointView>::empty() + cfg.extra_endpoints + Seq::<EndpointView>::empty()
        =~= cfg.extra_endpoints);
    assert(own + Seq::<EndpointView>::empty() =~= own);
    assert(own + seq![public] =~= own.push(public));
}

/// A character may stand in a device name if it is a letter or a digit, a blank, or
/// one of `-`, `_`, `.`, `[` and `]`; of the ASCII characters, none but these.
pub proof fn device_names_hold_simple_characters(c: char)
    ensures
        (c as u32) < 128 ==> (in_device_name(c) <==> {
            let u = c as u32;
            (48 <= u <= 57) || (65 <= u <= 90) || (97 <= u <= 122) || u == 32 || u == 45 || u == 95
                || u == 46 || u == 91 || u == 93
        }),
        (c as u32) >= 128 ==> (in_device_name(c) <==> is_alphanumeric(c)),
{
}

/// Filtering keeps a text all of whose characters may stay.
proof fn lemma_name_kept(n: Seq<char>)
    requires
        forall|i: int| 0 <= i < n.len() ==> in_device_name(#[trigger] n[i]),
    ensures
        n.filter(|c: char| in_device_name(c)) == n,
    decreases n.len(),
{
    reveal(Seq::filter);
    if n.len() > 0 {
        let p = n.drop_last();
        assert forall|i: int| 0 <= i < p.len() implies in_device_name(#[trigger] p[i]) by {
            assert(p[i] == n[i]);
        }
        lemma_name_kept(p);
        assert(in_device_name(n[n.len() - 1]));
        assert(p.push(n.last()) =~= n);
    }
}

/// Filtering goes part by part.
proof fn lemma_name_parts(a: Seq<char>, b: Seq<char>)
    ensures
        (a + b).filter(|c: char| in_device_name(c)) == a.filter(|c: char| in_device_name(c))
            + b.filter(|c: char| in_device_name(c)),
    decreases b.len(),
{
    reveal(Seq::filter);
    if b.len() == 0 {
        assert(a + b =~= a);
        assert(a.filter(|c: char| in_device_name(c)) + b.filter(|c: char| in_device_name(c))
            =~= a.filter(|c: char| in_device_name(c)));
    } else {
        lemma_name_parts(a, b.drop_last());
        assert((a + b).drop_last() =~= a + b.drop_last());
        assert((a + b).last() == b.last());
        assert((a + b).filter(|c: char| in_device_name(c)) =~= a.filter(
            |c: char| in_device_name(c),
        ) + b.filter(|c: char| in_device_name(c)));
    }
}

/// A simple device name is kept as it is, and cut behind 48 characters. A character
/// that may not stand in one is left out wherever it stands. Where nothing is left
/// there is a name for everybody.
pub proof fn simple_device_names_are_kept(a: Seq<char>, c: char, b: Seq<char>)
    ensures
        ({
            let simple = forall|i: int| 0 <= i < a.len() ==> in_device_name(#[trigger] a[i]);
            &&& simple && trimmed(a).len() > 0 && a.len() <= 48 ==> sanitized(a) == a
            &&& simple && a.len() > 48 && trimmed(a.take(48)).len() > 0 ==> sanitized(a) == a.take(
                48,
            )
            &&& simple && trimmed(a).len() == 0 && a.len() <= 48 ==> sanitized(a)
                == "Remote client"@
        }),
        !in_device_name(c) ==> sanitized(a + seq![c] + b) == sanitized(a + b),
{
    if forall|i: int| 0 <= i < a.len() ==> in_device_name(#[trigger] a[i]) {
        lemma_name_kept(a);
    }
    lemma_name_parts(a + seq![c], b);
    lemma_name_parts(a, seq![c]);
    lemma_name_parts(a, b);
    if !in_device_name(c) {
        assert(seq![c].filter(|x: char| in_device_name(x)) =~= Seq::<char>::empty()) by {
            reveal_with_fuel(Seq::filter, 2);
        }
        assert(a.filter(|x: char| in_device_name(x)) + Seq::<char>::empty() =~= a.filter(
            |x: char| in_device_name(x),
        ));
    }
}

/// The resources of a rendezvous server are found under the version of its interface,
/// whether or not its address ends in a slash.
pub proof fn resources_are_found_under_the_version(base: Seq<char>, path: Seq<char>)
    ensures
        base.len() > 0 && base.last() != '/' ==> rendezvous_path(base, path) == base + "/v1"@ + path,
        rendezvous_path(base + "/"@, path) == rendezvous_path(base, path),
{
    reveal_strlit("/");
    reveal_strlit("v1");
    reveal_strlit("/v1");
    assert((base + "/"@).drop_last() =~= base);
    if base.len() > 0 && base.last() != '/' {
        assert(rendezvous_path(base, path) =~= base + "/v1"@ + path);
    }
}

/// A request is turned away exactly if its answer to the challenge is not the digest
/// of the password's hash and the challenge.
pub proof fn answers_are_held_against_the_challenge(h1: Seq<char>, pr: PairRequestView)
    ensures
        checked(h1, pr) is WrongPassword <==> pr.response != fingerprint_of(h1 + pr.challenge),
        checked(h1, pr) is Accepted ==> checked(h1, pr)->Accepted_name == sanitized(pr.device_name),
        pr.response == fingerprint_of(h1 + pr.challenge) && opened_pin(
            pair_key(h1, pr.challenge),
            pr.sealed_pin,
        ) is Err ==> checked(h1, pr) is BadSeal,
{
    hashes_are_of_the_joined_texts(h1, pr.challenge);
}

} // verus!
