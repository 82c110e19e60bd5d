//! What the client's decisions guarantee together, and with those of the other
//! parties.

use vstd::prelude::*;
use crate::agent::{pretty, sanitized};
use crate::agent_laws::ids_are_shown_in_groups;
use crate::agent_loop::{checked, RequestCheckView};
use crate::client_config::{ClientConfigView, RememberedHostView};
use crate::proto::{
    fingerprint_of, h1_of, opened_pin, pair_key, valid_id, ChallengeResponseView, CryptoError,
    EndpointView, HostInfoView, PairResultView, PairStatus, SubmitPairRequestView,
};
use crate::proto_laws::hashes_are_of_the_joined_texts;
use crate::rendezvous::{elapsed_secs, CHALLENGE_TTL_SECS, StoreView};
use crate::rendezvous_laws::pair_requests_reach_the_host;
use crate::session::{
    by_rank, digits_of, endpoint_words, is_best, known_h1, moonlight_host_of, of_rank, rank_of,
    request_made, unreachable_words, ANSWER_WAIT_SECS, EventView, PairWatchView, Probe,
};
use crate::text::{decimal, is_digit, utf8};

verus! {

/// Filtering digits out of a run of digits keeps it.
proof fn lemma_digits_of_digits(s: Seq<char>)
    requires
        forall|i: int| 0 <= i < s.len() ==> is_digit(#[trigger] s[i]),
    ensures
        digits_of(s) == s,
    decreases s.len(),
{
    reveal(Seq::filter);
    if s.len() > 0 {
        let p = s.drop_last();
        assert forall|i: int| 0 <= i < p.len() implies is_digit(#[trigger] p[i]) by {
            assert(p[i] == s[i]);
        }
        lemma_digits_of_digits(p);
        assert(is_digit(s[s.len() - 1]));
        assert(p.push(s.last()) =~= s);
    }
}

/// The digits of two texts in a row are the digits of each.
proof fn lemma_digits_of_concat(a: Seq<char>, b: Seq<char>)
    ensures
        digits_of(a + b) == digits_of(a) + digits_of(b),
    decreases b.len(),
{
    reveal(Seq::filter);
    if b.len() == 0 {
        assert(a + b =~= a);
        assert(digits_of(a) + digits_of(b) =~= digits_of(a));
    } else {
        lemma_digits_of_concat(a, b.drop_last());
        assert((a + b).drop_last() =~= a + b.drop_last());
        assert((a + b).last() == b.last());
        if is_digit(b.last()) {
            assert(digits_of(a) + digits_of(b.drop_last()).push(b.last()) =~= (digits_of(a)
                + digits_of(b.drop_last())).push(b.last()));
        }
    }
}

/// An ID may be typed as it is shown: the groups read back as the ID.
pub proof fn shown_ids_can_be_typed(id: Seq<char>)
    requires
        valid_id(id),
    ensures
        digits_of(pretty(id)) == id,
{
    ids_are_shown_in_groups(id);
    reveal_strlit(" ");
    let a = id.take(3);
    let b = id.subrange(3, 6);
    let c = id.subrange(6, 9);
    let sp = " "@;
    assert(digits_of(sp) =~= Seq::<char>::empty()) by {
        reveal(Seq::filter);
        assert(sp.drop_last() =~= Seq::empty());
        assert(sp.last() == ' ');
        reveal_with_fuel(Seq::filter, 2);
    }
    lemma_digits_of_digits(a);
    lemma_digits_of_digits(b);
    lemma_digits_of_digits(c);
    lemma_digits_of_concat(a, sp);
    lemma_digits_of_concat(a + sp, b);
    lemma_digits_of_concat(a + sp + b, sp);
    lemma_digits_of_concat(a + sp + b + sp, c);
    assert(a + Seq::<char>::empty() + b + Seq::<char>::empty() + c =~= id);
}

/// A password that was remembered is not asked for again, as long as the host uses
/// the same salt; once the host has changed its password, and with it the salt, it
/// is.
pub proof fn remembered_passwords_serve_until_they_change(
    cfg: ClientConfigView,
    id: Seq<char>,
    h1: Seq<char>,
    salt: Seq<char>,
    other: Seq<char>,
)
    ensures
        ({
            let after = cfg.with_host(
                id,
                RememberedHostView {
                    password_h1: Some(h1),
                    password_salt: Some(salt),
                    ..cfg.host(id)
                },
            );
            &&& known_h1(after, id, salt, None) == Some(h1)
            &&& other != salt ==> known_h1(after, id, other, None) is None
        }),
{
}

/// A password that is given counts, whatever is remembered.
pub proof fn given_passwords_count(
    cfg: ClientConfigView,
    id: Seq<char>,
    salt: Seq<char>,
    password: Seq<char>,
)
    ensures
        known_h1(cfg, id, salt, Some(password)) == Some(h1_of(password, salt)),
{
}

/// Two different probes are never both the best.
pub proof fn the_best_probe_is_unique(probes: Seq<Probe>, i: int, j: int)
    requires
        is_best(probes, i),
        is_best(probes, j),
    ensures
        i == j,
{
}

/// Of probes in the order of their ranks the best is the first that was answered.
pub proof fn the_first_answer_wins(probes: Seq<Probe>, i: int)
    requires
        0 <= i < probes.len(),
        probes[i].server_info is Some,
        forall|j: int| 0 <= j < i ==> (#[trigger] probes[j]).server_info is None,
        forall|a: int, b: int|
            0 <= a < b < probes.len() ==> rank_of((#[trigger] probes[a]).endpoint.kind@) <= rank_of(
                (#[trigger] probes[b]).endpoint.kind@,
            ),
    ensures
        is_best(probes, i),
{
}

/// Endpoints are probed from the best kind to the worst.
pub proof fn probes_go_from_best_to_worst(v: Seq<EndpointView>, i: int, j: int)
    requires
        0 <= i < j < by_rank(v).len(),
    ensures
        rank_of(by_rank(v)[i].kind) <= rank_of(by_rank(v)[j].kind),
{
    let r0 = of_rank(v, 0);
    let r1 = of_rank(v, 1);
    let r2 = of_rank(v, 2);
    let r3 = of_rank(v, 3);
    let r4 = of_rank(v, 4);
    lemma_of_rank(v, 0);
    lemma_of_rank(v, 1);
    lemma_of_rank(v, 2);
    lemma_of_rank(v, 3);
    lemma_of_rank(v, 4);
    lemma_ranked_at(v, i);
    lemma_ranked_at(v, j);
}

/// All endpoints of one rank have that rank.
proof fn lemma_of_rank(v: Seq<EndpointView>, k: u8)
    ensures
        forall|i: int| 0 <= i < of_rank(v, k).len() ==> rank_of((#[trigger] of_rank(v, k)[i]).kind) == k,
{
    let pred = |e: EndpointView| rank_of(e.kind) == k;
    assert forall|i: int| 0 <= i < of_rank(v, k).len() implies rank_of(
        (#[trigger] of_rank(v, k)[i]).kind,
    ) == k by {
        v.lemma_filter_pred(pred, i);
    }
}

/// The rank of the endpoint at a position follows from the position.
proof fn lemma_ranked_at(v: Seq<EndpointView>, i: int)
    requires
        0 <= i < by_rank(v).len(),
    ensures
        ({
            let n0 = of_rank(v, 0).len();
            let n1 = n0 + of_rank(v, 1).len();
            let n2 = n1 + of_rank(v, 2).len();
            let n3 = n2 + of_rank(v, 3).len();
            rank_of(by_rank(v)[i].kind) == (if i < n0 {
                0u8
            } else if i < n1 {
                1u8
            } else if i < n2 {
                2u8
            } else if i < n3 {
                3u8
            } else {
                4u8
            })
        }),
{
    lemma_of_rank(v, 0);
    lemma_of_rank(v, 1);
    lemma_of_rank(v, 2);
    lemma_of_rank(v, 3);
    lemma_of_rank(v, 4);
    let n0 = of_rank(v, 0).len();
    let n1 = n0 + of_rank(v, 1).len();
    let n2 = n1 + of_rank(v, 2).len();
    let n3 = n2 + of_rank(v, 3).len();
    if i < n0 {
        assert(by_rank(v)[i] == of_rank(v, 0)[i]);
    } else if i < n1 {
        assert(by_rank(v)[i] == of_rank(v, 1)[i - n0]);
    } else if i < n2 {
        assert(by_rank(v)[i] == of_rank(v, 2)[i - n1]);
    } else if i < n3 {
        assert(by_rank(v)[i] == of_rank(v, 3)[i - n2]);
    } else {
        assert(by_rank(v)[i] == of_rank(v, 4)[i - n3]);
    }
}

/// Every endpoint that a host advertises is probed, and no other.
pub proof fn every_endpoint_is_probed(v: Seq<EndpointView>, e: EndpointView)
    ensures
        by_rank(v).contains(e) <==> v.contains(e),
{
    lemma_in_rank(v, 0, e);
    lemma_in_rank(v, 1, e);
    lemma_in_rank(v, 2, e);
    lemma_in_rank(v, 3, e);
    lemma_in_rank(v, 4, e);
    let r0 = of_rank(v, 0);
    let r01 = r0 + of_rank(v, 1);
    let r02 = r01 + of_rank(v, 2);
    let r03 = r02 + of_rank(v, 3);
    lemma_in_concat(r0, of_rank(v, 1), e);
    lemma_in_concat(r01, of_rank(v, 2), e);
    lemma_in_concat(r02, of_rank(v, 3), e);
    lemma_in_concat(r03, of_rank(v, 4), e);
}

/// What is in two lists in a row is in one of them.
proof fn lemma_in_concat(a: Seq<EndpointView>, b: Seq<EndpointView>, e: EndpointView)
    ensures
        (a + b).contains(e) <==> a.contains(e) || b.contains(e),
{
    if a.contains(e) {
        let i = choose|i: int| 0 <= i < a.len() && a[i] == e;
        assert((a + b)[i] == e);
    }
    if b.contains(e) {
        let i = choose|i: int| 0 <= i < b.len() && b[i] == e;
        assert((a + b)[a.len() + i] == e);
    }
    if (a + b).contains(e) {
        let i = choose|i: int| 0 <= i < (a + b).len() && (a + b)[i] == e;
        if i < a.len() {
            assert(a[i] == e);
        } else {
            assert(b[i - a.len()] == e);
        }
    }
}

/// The endpoints of a rank are those that have it.
proof fn lemma_in_rank(v: Seq<EndpointView>, k: u8, e: EndpointView)
    ensures
        of_rank(v, k).contains(e) <==> v.contains(e) && rank_of(e.kind) == k,
{
    let pred = |x: EndpointView| rank_of(x.kind) == k;
    if v.contains(e) && rank_of(e.kind) == k {
        let i = choose|i: int| 0 <= i < v.len() && v[i] == e;
        v.lemma_filter_contains(pred, i);
    }
    if of_rank(v, k).contains(e) {
        let i = choose|i: int| 0 <= i < of_rank(v, k).len() && of_rank(v, k)[i] == e;
        v.lemma_filter_pred(pred, i);
        v.lemma_filter_contains_rev(pred, e);
    }
}

/// The whole way of a password: the request that a client which knows it makes of a
/// challenge goes through the rendezvous server to the host, and the host finds the
/// password right and the client's PIN in it, although the server never sees either.
pub proof fn the_right_password_reaches_the_host(
    s: StoreView,
    id: Seq<char>,
    h1: Seq<char>,
    ch: ChallengeResponseView,
    device_name: Seq<char>,
    req: SubmitPairRequestView,
    pin: Seq<char>,
    header: Option<Seq<char>>,
    asked: u64,
    answered: u64,
    deadline: u64,
    polled: u64,
    unix: u64,
)
    requires
        s.challenged(id, asked, ch.request_id, ch.challenge).1 is Ok,
        request_made(req, h1, ch, device_name, pin),
        1 <= device_name.len() && utf8(device_name).len() <= 64,
        elapsed_secs(answered, asked) < CHALLENGE_TTL_SECS,
        s.online(id, answered),
        s.authorized(id, header) is Ok,
    ensures
        ({
            let s1 = s.challenged(id, asked, ch.request_id, ch.challenge).0;
            let (s2, answer) = s1.submitted(id, req, answered);
            let got = s2.polled(id, header, deadline, polled, unix).1;
            &&& answer is Ok
            &&& got is Ok
            &&& got->Ok_0 is Ready
            &&& got->Ok_0->Ready_0.len() > 0
            &&& checked(h1, got->Ok_0->Ready_0.last()) == (RequestCheckView::Accepted {
                pin,
                name: sanitized(device_name),
            })
        }),
{
    pair_requests_reach_the_host(
        s,
        id,
        ch.request_id,
        ch.challenge,
        req,
        header,
        asked,
        answered,
        deadline,
        polled,
        unix,
    );
}

/// A host that found the password wrong is reported to the user in these words,
/// whatever the local side came to.
pub proof fn wrong_passwords_are_reported(w: PairWatchView, r: PairResultView, now: u64)
    requires
        r.status == PairStatus::Rejected,
    ensures
        w.polled(Ok(Some(r)), now) is Finish,
        w.polled(Ok(Some(r)), now)->Finish_0.result == Err::<Seq<char>, Seq<char>>(
            "wrong password"@,
        ),
{
}

/// A pairing that succeeds gives back the PIN that was used, whatever the local side
/// came to.
pub proof fn pairings_give_back_the_pin(
    w: PairWatchView,
    r: Result<Option<PairResultView>, Seq<char>>,
    now: u64,
)
    requires
        w.polled(r, now) is Finish,
        w.polled(r, now)->Finish_0.result is Ok,
    ensures
        w.polled(r, now)->Finish_0.result == Ok::<Seq<char>, Seq<char>>(w.pin),
{
}

/// An endpoint in the same network is better than one over a VPN, that better than one
/// that was set by hand, that better than a public one, and that better than any other.
pub proof fn kinds_of_endpoints_are_ranked(kind: Seq<char>)
    requires
        kind != "lan"@,
        kind != "vpn"@,
        kind != "manual"@,
        kind != "public"@,
    ensures
        rank_of("lan"@) < rank_of("vpn"@) < rank_of("manual"@) < rank_of("public"@) < rank_of(kind),
{
    reveal_strlit("lan");
    reveal_strlit("vpn");
    reveal_strlit("manual");
    reveal_strlit("public");
    assert("lan"@[0] != "vpn"@[0]);
    assert("manual"@[0] != "public"@[0]);
    assert("lan"@.len() != "manual"@.len() && "vpn"@.len() != "manual"@.len());
    assert("lan"@.len() != "public"@.len() && "vpn"@.len() != "public"@.len());
}

/// Endpoints of one kind are probed in the order in which the host advertised them,
/// each as often as it did.
pub proof fn endpoints_of_one_kind_keep_their_order(v: Seq<EndpointView>, kind: Seq<char>)
    ensures
        by_rank(v).filter(|e: EndpointView| e.kind == kind) == v.filter(
            |e: EndpointView| e.kind == kind,
        ),
        by_rank(v).len() == v.len(),
{
    let pred = |e: EndpointView| e.kind == kind;
    let r0 = of_rank(v, 0);
    let r1 = of_rank(v, 1);
    let r2 = of_rank(v, 2);
    let r3 = of_rank(v, 3);
    let r4 = of_rank(v, 4);
    Seq::filter_distributes_over_add(r0, r1, pred);
    Seq::filter_distributes_over_add(r0 + r1, r2, pred);
    Seq::filter_distributes_over_add(r0 + r1 + r2, r3, pred);
    Seq::filter_distributes_over_add(r0 + r1 + r2 + r3, r4, pred);
    lemma_kind_of_rank(v, 0, kind);
    lemma_kind_of_rank(v, 1, kind);
    lemma_kind_of_rank(v, 2, kind);
    lemma_kind_of_rank(v, 3, kind);
    lemma_kind_of_rank(v, 4, kind);
    assert(by_rank(v).filter(pred) =~= v.filter(pred));
    lemma_ranks_len(v);
}

/// Of the endpoints of a rank, those of a kind are all of that kind, or none.
proof fn lemma_kind_of_rank(v: Seq<EndpointView>, k: u8, kind: Seq<char>)
    ensures
        of_rank(v, k).filter(|e: EndpointView| e.kind == kind) == (if rank_of(kind) == k {
            v.filter(|e: EndpointView| e.kind == kind)
        } else {
            Seq::empty()
        }),
    decreases v.len(),
{
    reveal(Seq::filter);
    if v.len() > 0 {
        let p = v.drop_last();
        lemma_kind_of_rank(p, k, kind);
        let r = of_rank(p, k);
        if rank_of(v.last().kind) == k {
            assert(of_rank(v, k) == r.push(v.last()));
            assert(r.push(v.last()).drop_last() =~= r);
        }
    }
}

/// The ranks together hold each endpoint once.
proof fn lemma_ranks_len(v: Seq<EndpointView>)
    ensures
        of_rank(v, 0).len() + of_rank(v, 1).len() + of_rank(v, 2).len() + of_rank(v, 3).len()
            + of_rank(v, 4).len() == v.len(),
    decreases v.len(),
{
    reveal(Seq::filter);
    if v.len() > 0 {
        lemma_ranks_len(v.drop_last());
    }
}

/// Of what is typed as an ID the ASCII digits count, in their order, and nothing else.
pub proof fn only_digits_count(a: Seq<char>, b: Seq<char>, c: char)
    ensures
        digits_of(a + b) == digits_of(a) + digits_of(b),
        48 <= c as u32 <= 57 ==> digits_of(seq![c]) == seq![c],
        (c as u32) < 48 || c as u32 > 57 ==> digits_of(seq![c]) == Seq::<char>::empty(),
{
    lemma_digits_of_concat(a, b);
    reveal_with_fuel(Seq::filter, 2);
    assert(seq![c].drop_last() =~= Seq::<char>::empty());
    assert(digits_of(seq![c]) =~= (if is_digit(c) {
        seq![c]
    } else {
        Seq::<char>::empty()
    }));
}

/// How each answer to a client that waits for its host ends the waiting: only a
/// pairing that is complete counts as paired, and brings a failure of the local side as
/// a warning; one that was only accepted gives the PIN without it; a failure is told
/// with the host's words.
pub proof fn answers_end_the_waiting(w: PairWatchView, r: PairResultView, now: u64)
    ensures
        ({
            let end = w.polled(Ok(Some(r)), now)->Finish_0;
            &&& w.polled(Ok(Some(r)), now) is Finish
            &&& end.paired <==> r.status == PairStatus::Paired
            &&& end.result is Ok <==> r.status == PairStatus::Paired || r.status
                == PairStatus::Accepted
            &&& end.warning is Some <==> r.status == PairStatus::Paired && w.local is Some
                && w.local->0 is Err
            &&& end.warning is Some ==> w.local == Some(Err::<(), Seq<char>>(end.warning->0))
            &&& r.status == PairStatus::Failed && r.message is Some ==> end.result == Err::<
                Seq<char>,
                Seq<char>,
            >("host failed to pair: "@ + r.message->0)
            &&& r.status == PairStatus::Failed && r.message is None ==> end.result == Err::<
                Seq<char>,
                Seq<char>,
            >("host failed to pair: "@)
        }),
{
    assert("host failed to pair: "@ + Seq::<char>::empty() =~= "host failed to pair: "@);
}

/// Without an answer the client asks again until its time is up, and then gives up; an
/// error of the rendezvous server ends the waiting at once.
pub proof fn waiting_ends_at_the_deadline(w: PairWatchView, now: u64, e: Seq<char>)
    ensures
        now <= w.deadline <==> w.polled(Ok(None), now) is PollAgain,
        now > w.deadline ==> {
            &&& w.polled(Ok(None), now)->Finish_0.result == Err::<Seq<char>, Seq<char>>(
                "timed out waiting for the host to answer"@,
            )
            &&& !w.polled(Ok(None), now)->Finish_0.paired
        },
        w.polled(Err(e), now) is Finish,
        w.polled(Err(e), now)->Finish_0.result == Err::<Seq<char>, Seq<char>>(e),
        !w.polled(Err(e), now)->Finish_0.paired,
        ANSWER_WAIT_SECS == 150,
{
}

/// A password that is not given is taken from what is remembered of this host alone.
pub proof fn passwords_of_other_hosts_do_not_serve(
    cfg: ClientConfigView,
    id: Seq<char>,
    other: Seq<char>,
    h: RememberedHostView,
    salt: Seq<char>,
)
    ensures
        other != id ==> known_h1(cfg.with_host(other, h), id, salt, None) == known_h1(
            cfg,
            id,
            salt,
            None,
        ),
        !cfg.hosts.contains_key(id) ==> known_h1(cfg, id, salt, None) is None,
        known_h1(cfg, id, salt, None) matches Some(h1) ==> cfg.host(id).password_h1 == Some(h1)
            && cfg.host(id).password_salt == Some(salt),
{
}

/// What a client sends for a challenge answers that challenge, and holds the PIN under
/// the key of the password and the challenge.
pub proof fn requests_answer_their_challenge(
    req: SubmitPairRequestView,
    h1: Seq<char>,
    ch: ChallengeResponseView,
    name: Seq<char>,
    pin: Seq<char>,
)
    requires
        request_made(req, h1, ch, name, pin),
    ensures
        req.request_id == ch.request_id,
        req.device_name == name,
        req.response == fingerprint_of(h1 + ch.challenge),
        opened_pin(pair_key(h1, ch.challenge), req.sealed_pin) == Ok::<Seq<char>, CryptoError>(pin),
{
    hashes_are_of_the_joined_texts(h1, ch.challenge);
}

/// Moonlight is given a host with its port, an IPv6 address in brackets.
pub proof fn moonlight_is_given_host_and_port(host: Seq<char>, port: u16)
    ensures
        !host.contains(':') ==> moonlight_host_of(host, port) == host + ":"@ + decimal(port as nat),
        host.contains(':') ==> moonlight_host_of(host, port) == "["@ + host + "]:"@ + decimal(
            port as nat,
        ),
{
    reveal_strlit("]");
    reveal_strlit(":");
    reveal_strlit("]:");
    assert("["@ + host + "]"@ + ":"@ + decimal(port as nat) =~= "["@ + host + "]:"@ + decimal(
        port as nat,
    ));
}

/// An endpoint is shown with its host, its port and its kind, and every step of a
/// connection is told with what it is about.
pub proof fn steps_are_told(e: EndpointView, s: Seq<char>)
    ensures
        endpoint_words(e) == e.host + ":"@ + decimal(e.port as nat) + " ("@ + e.kind + ")"@,
        EventView::Resolving(s).cli_words() == "→ looking up "@ + s,
        EventView::Resolving(s).desk_words() == "→ looking up "@ + pretty(s),
        EventView::Probing(e).cli_words() == "  probing "@ + endpoint_words(e),
        EventView::Reachable(e).cli_words() == "✓ reachable at "@ + endpoint_words(e),
        EventView::Probing(e).desk_words() == EventView::Probing(e).cli_words(),
        EventView::Reachable(e).desk_words() == EventView::Reachable(e).cli_words(),
        EventView::Paired.desk_words() == EventView::Paired.cli_words(),
        EventView::AlreadyPaired.desk_words() == EventView::AlreadyPaired.cli_words(),
        EventView::Info(s).cli_words() == s,
        EventView::Info(s).desk_words() == s,
        EventView::Streaming(s).desk_words() == "→ streaming "@ + s,
        EventView::Streaming(s).cli_words() == "→ streaming \""@ + s + "\""@,
{
}

/// A host that cannot be reached is named with its ID, with whether it is online, and
/// with how many endpoints were tried; behind it stands what helps.
pub proof fn unreachable_hosts_are_described(info: HostInfoView, id: Seq<char>)
    ensures
        ({
            let start = "host "@ + info.name + " ("@ + id + ") is "@;
            let n = decimal(info.endpoints.len());
            let advice = " endpoint(s) answered on the GameStream port. Over the internet this needs a VPN (Tailscale, WireGuard) or port forwarding of TCP/UDP 47984-48010."@;
            &&& info.online ==> unreachable_words(info, id) == start + "online but none of its "@ + n
                + advice
            &&& !info.online ==> unreachable_words(info, id) == start
                + "OFFLINE but none of its "@ + n + advice
        }),
{
    reveal_strlit("online");
    reveal_strlit("OFFLINE");
    reveal_strlit(" but none of its ");
    reveal_strlit("online but none of its ");
    reveal_strlit("OFFLINE but none of its ");
    let start = "host "@ + info.name + " ("@ + id + ") is "@;
    assert(start + "online"@ + " but none of its "@ =~= start + "online but none of its "@);
    assert(start + "OFFLINE"@ + " but none of its "@ =~= start + "OFFLINE but none of its "@);
}

} // verus!
