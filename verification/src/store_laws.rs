//! What the rendezvous store answers, and what it keeps of what it is told.

use vstd::prelude::*;
use crate::proto::{
    fingerprint_of, valid_id, ChallengeResponseView, EndpointView, HostInfoView, PairRequestView,
    PairResultView, RegisterRequestView, SubmitPairRequestView,
};
use crate::rendezvous::{
    api_err, bearer_of, deadline_of, elapsed_secs, hosts_by_id, observed_of, ApiErrorView,
    HostRecordView, Poll, StoreView,
};
use crate::text::{before_first, trimmed, utf8};

verus! {

/// Time is counted in whole seconds, and a time that has not come yet is no time ago.
pub proof fn seconds_are_whole(now: u64, t: u64)
    ensures
        now < t ==> elapsed_secs(now, t) == 0,
        now >= t ==> elapsed_secs(now, t) * 1_000_000_000 <= now - t < (elapsed_secs(now, t) + 1)
            * 1_000_000_000,
{
}

/// After a heartbeat of the host's own a lookup gives the endpoints that it brought,
/// and the host online; whether they differ from those known before is told, so that
/// they are kept.
pub proof fn heartbeats_bring_the_endpoints(
    s: StoreView,
    id: Seq<char>,
    header: Option<Seq<char>>,
    eps: Seq<EndpointView>,
    now: u64,
    unix: u64,
    observed: Option<Seq<char>>,
)
    requires
        s.wf(),
        s.heartbeat(id, header, Some(eps), now, unix, observed).1 is Ok,
        eps.len() <= 16,
    ensures
        ({
            let (after, answer) = s.heartbeat(id, header, Some(eps), now, unix, observed);
            let before = s.info(id, now);
            let found = after.info(id, now);
            &&& before is Ok && found is Ok
            &&& found->Ok_0.endpoints == eps
            &&& found->Ok_0.online
            &&& found->Ok_0.last_seen_secs == 0
            &&& (answer->Ok_0).1 <==> before->Ok_0.endpoints != eps
            &&& (answer->Ok_0).0.id == id
            &&& (answer->Ok_0).0.observed_addr == observed
            &&& (answer->Ok_0).0.heartbeat_secs == 30
        }),
{
}

/// A heartbeat without endpoints, or with more than the store takes, shows only that
/// the host is there; all else that is known of it stays, and so does all that is
/// known of others.
pub proof fn heartbeats_keep_the_rest(
    s: StoreView,
    id: Seq<char>,
    header: Option<Seq<char>>,
    eps: Option<Seq<EndpointView>>,
    now: u64,
    unix: u64,
    observed: Option<Seq<char>>,
    other: Seq<char>,
)
    requires
        s.heartbeat(id, header, eps, now, unix, observed).1 is Ok,
    ensures
        ({
            let (after, answer) = s.heartbeat(id, header, eps, now, unix, observed);
            &&& eps is None || eps->0.len() > 16 ==> after.hosts[id].endpoints
                == s.hosts[id].endpoints && !(answer->Ok_0).1
            &&& after.hosts[id].name == s.hosts[id].name
            &&& after.hosts[id].token_fp == s.hosts[id].token_fp
            &&& after.hosts[id].platform == s.hosts[id].platform
            &&& after.hosts[id].password_salt == s.hosts[id].password_salt
            &&& after.hosts[id].agent_version == s.hosts[id].agent_version
            &&& after.hosts[id].last_seen == Some(now)
            &&& after.hosts[id].last_seen_unix == unix
            &&& other != id ==> after.info(other, now) == s.info(other, now)
            &&& after.runtime == s.runtime && after.challenges == s.challenges && after.results
                == s.results
        }),
{
}

/// A lookup gives what the host registered; it is online for a minute and a half
/// after it was last heard of, and a host that was not heard of since the start is not.
pub proof fn lookups_tell_who_is_there(s: StoreView, id: Seq<char>, now: u64)
    requires
        s.wf(),
    ensures
        !s.hosts.contains_key(id) ==> s.info(id, now) == api_err::<HostInfoView>(
            404,
            "unknown host id"@,
        ),
        s.hosts.contains_key(id) ==> {
            let h = s.hosts[id];
            let found = s.info(id, now);
            &&& found is Ok
            &&& found->Ok_0.id == id
            &&& found->Ok_0.name == h.name
            &&& found->Ok_0.platform == h.platform
            &&& found->Ok_0.endpoints == h.endpoints
            &&& found->Ok_0.password_salt == h.password_salt
            &&& h.last_seen is None ==> !found->Ok_0.online && found->Ok_0.last_seen_secs
                == 0xFFFF_FFFF_FFFF_FFFF
            &&& h.last_seen matches Some(t) ==> {
                &&& found->Ok_0.online <==> now - t < 90_000_000_000
                &&& found->Ok_0.last_seen_secs == elapsed_secs(now, t)
            }
        },
{
    if s.hosts.contains_key(id) && s.hosts[id].last_seen is Some {
        seconds_are_whole(now, s.hosts[id].last_seen->0);
    }
}

/// Only the bearer of the host's token may act for it; without a token, for an unknown
/// host and with a wrong token the refusals differ.
pub proof fn only_the_token_opens(s: StoreView, id: Seq<char>, header: Option<Seq<char>>)
    ensures
        s.authorized(id, header) is Ok <==> bearer_of(header) is Some && s.hosts.contains_key(id)
            && s.hosts[id].token_fp == fingerprint_of(bearer_of(header)->0),
        bearer_of(header) is None ==> s.authorized(id, header) == api_err::<()>(
            401,
            "missing bearer token"@,
        ),
        bearer_of(header) is Some && !s.hosts.contains_key(id) ==> s.authorized(id, header)
            == api_err::<()>(404, "unknown host id"@),
        bearer_of(header) is Some && s.hosts.contains_key(id) && s.hosts[id].token_fp
            != fingerprint_of(bearer_of(header)->0) ==> s.authorized(id, header) == api_err::<()>(
            403,
            "bad token"@,
        ),
{
}

/// The token stands behind the word `Bearer` and a blank; any other header brings none.
pub proof fn tokens_follow_the_word(token: Seq<char>, h: Seq<char>)
    ensures
        bearer_of(Some("Bearer "@ + token)) == Some(trimmed(token)),
        bearer_of(None) is None,
        bearer_of(Some(h)) is Some ==> exists|t: Seq<char>| h == #[trigger] ("Bearer "@ + t),
{
    let s = "Bearer "@ + token;
    let n = "Bearer "@.len() as int;
    assert(s.take(n) =~= "Bearer "@);
    assert(s.skip(n) =~= token);
    if bearer_of(Some(h)) is Some {
        assert(h =~= h.take(n) + h.skip(n));
        assert(h == "Bearer "@ + h.skip(n));
    }
}

/// The address that a proxy saw first counts; without a proxy, that of the peer.
pub proof fn the_first_forwarded_address_counts(
    first: Seq<char>,
    rest: Seq<char>,
    peer: Option<Seq<char>>,
)
    requires
        !first.contains(','),
    ensures
        observed_of(Some(first), peer) == Some(trimmed(first)),
        observed_of(Some(first + ","@ + rest), peer) == Some(trimmed(first)),
        observed_of(None, peer) == peer,
{
    reveal_strlit(",");
    let s = first + ","@ + rest;
    lemma_cut(first, first);
    assert(first + Seq::<char>::empty() =~= first);
    lemma_cut_before(first, rest);
}

proof fn lemma_cut(all: Seq<char>, part: Seq<char>)
    requires
        !part.contains(','),
    ensures
        before_first(part, ',') == part,
    decreases part.len(),
{
    if part.len() > 0 {
        assert(part.contains(part[0]));
        let rest = part.drop_first();
        assert(!rest.contains(',')) by {
            if rest.contains(',') {
                let i = choose|i: int| 0 <= i < rest.len() && rest[i] == ',';
                assert(part[i + 1] == ',');
            }
        }
        lemma_cut(all, rest);
        assert(seq![part[0]] + rest =~= part);
    }
}

proof fn lemma_cut_before(first: Seq<char>, rest: Seq<char>)
    requires
        !first.contains(','),
    ensures
        before_first(first + ","@ + rest, ',') == first,
    decreases first.len(),
{
    reveal_strlit(",");
    let s = first + ","@ + rest;
    if first.len() == 0 {
        assert(s[0] == ',');
        assert(before_first(s, ',') =~= first);
    } else {
        assert(first.contains(first[0]));
        let f = first.drop_first();
        assert(!f.contains(',')) by {
            if f.contains(',') {
                let i = choose|i: int| 0 <= i < f.len() && f[i] == ',';
                assert(first[i + 1] == ',');
            }
        }
        lemma_cut_before(f, rest);
        assert(s.drop_first() =~= f + ","@ + rest);
        assert(seq![first[0]] + f =~= first);
    }
}

/// A long poll lasts as long as it asks for, at most half a minute, and not at all
/// where it asks for nothing.
pub proof fn long_polls_last_half_a_minute(wait: u64, now: u64)
    requires
        now <= 0x7FFF_FFFF_FFFF_FFFF,
    ensures
        deadline_of(None, now) == now,
        wait <= 30 ==> deadline_of(Some(wait), now) == now + wait * 1_000_000_000,
        wait > 30 ==> deadline_of(Some(wait), now) == now + 30_000_000_000,
{
}

/// A registration needs a token of 32 bytes, a name of 1 to 64 and at most 16
/// endpoints; nothing else is asked of it.
pub proof fn registrations_are_measured(req: RegisterRequestView)
    ensures
        StoreView::register_fault(req) is None <==> utf8(req.token).len() >= 32 && req.name.len()
            > 0 && utf8(req.name).len() <= 64 && req.endpoints.len() <= 16,
        StoreView::register_fault(req) is Some ==> StoreView::register_fault(req)->0.code == 400,
{
}

/// A registration that is taken is answered with its id, the address it was seen from
/// and the interval of heartbeats, is found with all that it told, may act with its
/// token from then on, and touches no other host. What waits for the host goes on
/// waiting.
pub proof fn registrations_are_kept(
    s: StoreView,
    req: RegisterRequestView,
    fresh: Option<Seq<char>>,
    now: u64,
    unix: u64,
    observed: Option<Seq<char>>,
    other: Seq<char>,
)
    requires
        s.registered(req, fresh, now, unix, observed).1 is Ok,
    ensures
        ({
            let (after, answer) = s.registered(req, fresh, now, unix, observed);
            let id = answer->Ok_0.id;
            &&& req.id is Some ==> id == req.id->0
            &&& req.id is None ==> Some(id) == fresh
            &&& answer->Ok_0.observed_addr == observed
            &&& answer->Ok_0.heartbeat_secs == 30
            &&& after.hosts.contains_key(id)
            &&& after.hosts[id].id == id
            &&& after.hosts[id].token_fp == fingerprint_of(req.token)
            &&& after.hosts[id].name == req.name
            &&& after.hosts[id].platform == req.platform
            &&& after.hosts[id].endpoints == req.endpoints
            &&& after.hosts[id].password_salt == req.password_salt
            &&& after.hosts[id].agent_version == req.agent_version
            &&& after.hosts[id].last_seen == Some(now)
            &&& after.hosts[id].last_seen_unix == unix
            &&& other != id ==> after.hosts.contains_key(other) == s.hosts.contains_key(other)
                && after.info(other, now) == s.info(other, now)
            &&& s.runtime.contains_key(id) ==> after.runtime == s.runtime
            &&& !s.runtime.contains_key(id) ==> after.runtime[id].pending.len() == 0
                && after.runtime[id].challenge_times.len() == 0
            &&& after.challenges == s.challenges && after.results == s.results
        }),
{
}

/// A refused registration changes nothing, and says why: it is out of measure, or names
/// an id that is none, or one that is another's.
pub proof fn refused_registrations_change_nothing(
    s: StoreView,
    req: RegisterRequestView,
    fresh: Option<Seq<char>>,
    now: u64,
    unix: u64,
    observed: Option<Seq<char>>,
)
    ensures
        ({
            let (after, answer) = s.registered(req, fresh, now, unix, observed);
            let measured = StoreView::register_fault(req) is None;
            &&& answer is Err ==> after == s
            &&& measured && req.id is Some && !valid_id(req.id->0) ==> answer is Err
                && answer->Err_0.code == 400
            &&& measured && req.id is None && fresh is Some ==> answer is Ok
            &&& answer is Ok ==> measured && (req.id matches Some(id) ==> valid_id(id) && (
            s.hosts.contains_key(id) ==> s.hosts[id].token_fp == fingerprint_of(req.token)))
        }),
{
}

/// A challenge is given out for a host that is known: with the id and the challenge
/// that were drawn for it, for two minutes. The store then has it, for that host, from
/// that time; other hosts and their challenges are not concerned.
pub proof fn challenges_are_given_out(
    s: StoreView,
    id: Seq<char>,
    now: u64,
    request_id: Seq<char>,
    challenge: Seq<char>,
    other: Seq<char>,
)
    ensures
        ({
            let (after, answer) = s.challenged(id, now, request_id, challenge);
            &&& !s.hosts.contains_key(id) ==> answer == api_err::<ChallengeResponseView>(
                404,
                "unknown host id"@,
            )
            &&& answer is Ok ==> {
                &&& answer->Ok_0.request_id == request_id
                &&& answer->Ok_0.challenge == challenge
                &&& answer->Ok_0.ttl_secs == 120
                &&& after.challenges.contains_key(request_id)
                &&& after.challenges[request_id].host_id == id
                &&& after.challenges[request_id].challenge == challenge
                &&& after.challenges[request_id].created == now
            }
            &&& answer is Err ==> !after.challenges.contains_key(request_id) || (
            s.challenges.contains_key(request_id) && after.challenges[request_id]
                == s.challenges[request_id])
            &&& after.hosts == s.hosts
            &&& other != id ==> (after.runtime.contains_key(other) <==> s.runtime.contains_key(
                other,
            )) && (s.runtime.contains_key(other) ==> after.runtime[other] == s.runtime[other])
            &&& s.runtime.contains_key(id) && after.runtime.contains_key(id)
                ==> after.runtime[id].pending == s.runtime[id].pending
        }),
{
}

/// A pair request is taken in exactly where it is in measure, answers a challenge of
/// this very host, less than two minutes old, and the host is there; otherwise it is
/// refused, by a code that tells which of these fails.
pub proof fn pair_requests_are_checked(
    s: StoreView,
    id: Seq<char>,
    req: SubmitPairRequestView,
    now: u64,
)
    requires
        s.wf(),
    ensures
        ({
            let answer = s.submitted(id, req, now).1;
            let measured = req.device_name.len() > 0 && utf8(req.device_name).len() <= 64 && utf8(
                req.response,
            ).len() == 64 && utf8(req.sealed_pin).len() <= 256;
            let known = s.challenges.contains_key(req.request_id);
            let ch = s.challenges[req.request_id];
            let own = ch.host_id == id;
            let young = now - ch.created < 120_000_000_000;
            let there = s.hosts.contains_key(id) && (s.hosts[id].last_seen matches Some(t) && now
                - t < 90_000_000_000);
            &&& answer == Ok::<u16, ApiErrorView>(202) <==> measured && known
                && own && young && there
            &&& answer is Ok ==> answer->Ok_0 == 202
            &&& !measured ==> answer is Err && answer->Err_0.code == 400
            &&& measured && !known ==> answer is Err && answer->Err_0.code == 404
            &&& measured && known && !own ==> answer is Err && answer->Err_0.code == 400
            &&& measured && known && own && !young ==> answer is Err && answer->Err_0.code == 410
            &&& measured && known && own && young && !there ==> answer is Err
                && answer->Err_0.code == 503
        }),
{
    if s.challenges.contains_key(req.request_id) {
        seconds_are_whole(now, s.challenges[req.request_id].created);
    }
    if s.hosts.contains_key(id) && s.hosts[id].last_seen is Some {
        seconds_are_whole(now, s.hosts[id].last_seen->0);
    }
}

/// A pair request that is taken in waits for its host behind those that came before,
/// as it was sent, with the challenge that it answers; nothing waits for another host
/// on its account, and the client can ask for its result.
pub proof fn pair_requests_wait_for_their_host(
    s: StoreView,
    id: Seq<char>,
    req: SubmitPairRequestView,
    now: u64,
    other: Seq<char>,
    deadline: u64,
)
    requires
        s.submitted(id, req, now).1 is Ok,
    ensures
        ({
            let after = s.submitted(id, req, now).0;
            let before = if s.runtime.contains_key(id) {
                s.runtime[id].pending
            } else {
                Seq::empty()
            };
            let waiting = after.runtime[id].pending;
            &&& after.runtime.contains_key(id)
            &&& waiting.len() == before.len() + 1
            &&& waiting.drop_last() == before
            &&& waiting.last() == (PairRequestView {
                request_id: req.request_id,
                challenge: s.challenges[req.request_id].challenge,
                response: req.response,
                device_name: req.device_name,
                client_uid: req.client_uid,
                sealed_pin: req.sealed_pin,
                remember: req.remember,
            })
            &&& other != id && s.runtime.contains_key(other) ==> after.runtime[other]
                == s.runtime[other]
            &&& after.hosts == s.hosts
            &&& !after.challenges.contains_key(req.request_id)
            &&& deadline <= now ==> after.result(req.request_id, deadline, now) == Ok::<
                Poll<Option<PairResultView>>,
                ApiErrorView,
            >(Poll::Ready(None))
            &&& deadline > now ==> after.result(req.request_id, deadline, now) == Ok::<
                Poll<Option<PairResultView>>,
                ApiErrorView,
            >(Poll::Wait((deadline - now) as u64))
        }),
{
    let after = s.submitted(id, req, now).0;
    let before = if s.runtime.contains_key(id) {
        s.runtime[id].pending
    } else {
        Seq::empty()
    };
    assert(after.runtime[id].pending.drop_last() =~= before);
}

/// A host gets what waits for it once and in order: the poll takes it away, so that
/// the next one finds nothing; an empty queue is waited on until the deadline. The host
/// counts as heard of.
pub proof fn requests_are_delivered_once(
    s: StoreView,
    id: Seq<char>,
    header: Option<Seq<char>>,
    deadline: u64,
    now: u64,
    unix: u64,
    later: u64,
    other: Seq<char>,
)
    requires
        s.authorized(id, header) is Ok,
        deadline <= later,
    ensures
        ({
            let waiting = if s.runtime.contains_key(id) {
                s.runtime[id].pending
            } else {
                Seq::empty()
            };
            let (after, answer) = s.polled(id, header, deadline, now, unix);
            let again = after.polled(id, header, deadline, later, unix).1;
            &&& waiting.len() > 0 ==> answer == Ok::<
                Poll<Seq<PairRequestView>>,
                ApiErrorView,
            >(Poll::Ready(waiting))
            &&& waiting.len() == 0 && deadline > now ==> answer == Ok::<
                Poll<Seq<PairRequestView>>,
                ApiErrorView,
            >(Poll::Wait((deadline - now) as u64))
            &&& waiting.len() == 0 && deadline <= now ==> answer is Ok && answer->Ok_0 is Ready
                && answer->Ok_0->Ready_0.len() == 0
            &&& again is Ok && again->Ok_0 is Ready && again->Ok_0->Ready_0.len() == 0
            &&& after.hosts[id].last_seen == Some(now)
            &&& after.hosts[id].last_seen_unix == unix
            &&& after.hosts[id].endpoints == s.hosts[id].endpoints
            &&& after.hosts[id].token_fp == s.hosts[id].token_fp
            &&& other != id && s.runtime.contains_key(other) ==> after.runtime[other]
                == s.runtime[other]
            &&& after.challenges == s.challenges && after.results == s.results
        }),
{
    let waiting = if s.runtime.contains_key(id) {
        s.runtime[id].pending
    } else {
        Seq::empty()
    };
    let t = s.seen(id, now, unix).with_runtime(id);
    assert(t.runtime[id].pending =~= waiting);
}

/// A result is taken from the host for a request that is known, and unknown requests
/// are told apart from those that have no result yet.
pub proof fn results_are_for_known_requests(
    s: StoreView,
    id: Seq<char>,
    header: Option<Seq<char>>,
    res: PairResultView,
    other: Seq<char>,
    deadline: u64,
    now: u64,
)
    requires
        s.authorized(id, header) is Ok,
    ensures
        ({
            let (after, answer) = s.with_result(id, header, res);
            &&& s.results.contains_key(res.request_id) ==> answer == Ok::<
                u16,
                ApiErrorView,
            >(204)
            &&& !s.results.contains_key(res.request_id) ==> answer == api_err::<u16>(
                404,
                "unknown request id"@,
            ) && after == s
            &&& other != res.request_id ==> after.result(other, deadline, now) == s.result(
                other,
                deadline,
                now,
            )
            &&& after.hosts == s.hosts && after.runtime == s.runtime && after.challenges
                == s.challenges
        }),
        !s.results.contains_key(other) ==> s.result(other, deadline, now) == api_err::<
            Poll<Option<PairResultView>>,
        >(
            404,
            "unknown request id"@,
        ),
{
}

/// Challenges are kept for two minutes and results for five.
pub proof fn what_expires_is_counted_from_its_making(s: StoreView, now: u64, k: Seq<char>)
    requires
        s.challenges.contains_key(k),
        s.results.contains_key(k),
    ensures
        s.collected(now).challenges.contains_key(k) <==> now - s.challenges[k].created
            < 120_000_000_000,
        s.collected(now).results.contains_key(k) <==> now - s.results[k].created
            < 300_000_000_000,
{
    seconds_are_whole(now, s.challenges[k].created);
    seconds_are_whole(now, s.results[k].created);
}

/// Twenty challenges are given out to the minute: with fewer on the books in the last
/// minute one more is, with twenty it is not, and the refusal says so.
pub proof fn twenty_challenges_to_the_minute(
    s: StoreView,
    id: Seq<char>,
    now: u64,
    request_id: Seq<char>,
    challenge: Seq<char>,
)
    requires
        s.hosts.contains_key(id),
        s.runtime.contains_key(id),
        forall|i: int|
            0 <= i < s.runtime[id].challenge_times.len() ==> now
                - #[trigger] s.runtime[id].challenge_times[i] <= 60_000_000_000,
    ensures
        s.challenged(id, now, request_id, challenge).1 is Ok <==> s.runtime[id].challenge_times.len()
            < 20,
        s.runtime[id].challenge_times.len() >= 20 ==> s.challenged(
            id,
            now,
            request_id,
            challenge,
        ).1 == api_err::<ChallengeResponseView>(429, "too many pairing attempts, slow down"@),
{
    if s.runtime[id].challenge_times.len() > 0 {
        assert(now - s.runtime[id].challenge_times[0] <= 60_000_000_000);
    }
}

/// A store that is loaded knows the records that it was given, each under its id; of
/// two with one id the last counts.
pub proof fn the_last_record_of_an_id_counts(
    v: Seq<HostRecordView>,
    r: HostRecordView,
    other: Seq<char>,
)
    ensures
        hosts_by_id(v.push(r)).contains_key(r.id),
        hosts_by_id(v.push(r))[r.id] == r,
        other != r.id ==> (hosts_by_id(v.push(r)).contains_key(other) <==> hosts_by_id(
            v,
        ).contains_key(other)),
        other != r.id && hosts_by_id(v).contains_key(other) ==> hosts_by_id(v.push(r))[other]
            == hosts_by_id(v)[other],
        !hosts_by_id(Seq::<HostRecordView>::empty()).contains_key(other),
{
    assert(v.push(r).drop_last() =~= v);
}

} // verus!
