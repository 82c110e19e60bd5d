//! What the operations of the rendezvous store guarantee together.

use vstd::prelude::*;
use crate::agent::MAX_ENDPOINTS;
use crate::proto::{
    fingerprint_of, valid_id, EndpointView, PairRequestView, PairResultView, RegisterRequestView,
    RegisterResponseView, SubmitPairRequestView,
};
use crate::rendezvous::{
    api_err, bearer_of, elapsed_secs, recent_times, ApiErrorView, CHALLENGES_PER_MINUTE,
    CHALLENGE_TTL_SECS, HEARTBEAT_SECS, MINUTE_NANOS, OFFLINE_AFTER_SECS, Poll, RESULT_TTL_SECS,
    StoreView,
};
use crate::text::utf8;

verus! {

/// Without the token of a host nobody can act for it, and the attempt changes
/// nothing.
pub proof fn strangers_change_nothing(
    s: StoreView,
    id: Seq<char>,
    header: Option<Seq<char>>,
    eps: Option<Seq<EndpointView>>,
    res: PairResultView,
    deadline: u64,
    now: u64,
    unix: u64,
    observed: Option<Seq<char>>,
)
    requires
        match bearer_of(header) {
            None => true,
            Some(token) => !s.hosts.contains_key(id) || s.hosts[id].token_fp != fingerprint_of(
                token,
            ),
        },
    ensures
        s.heartbeat(id, header, eps, now, unix, observed).0 == s,
        s.heartbeat(id, header, eps, now, unix, observed).1 is Err,
        s.polled(id, header, deadline, now, unix).0 == s,
        s.polled(id, header, deadline, now, unix).1 is Err,
        s.with_result(id, header, res).0 == s,
        s.with_result(id, header, res).1 is Err,
{
}

/// An id stays with the token that claimed it: a registration of a known id with
/// another token is refused and changes nothing.
pub proof fn ids_are_not_taken_over(
    s: StoreView,
    req: RegisterRequestView,
    id: Seq<char>,
    fresh: Option<Seq<char>>,
    now: u64,
    unix: u64,
    observed: Option<Seq<char>>,
)
    requires
        req.id == Some(id),
        s.hosts.contains_key(id),
        s.hosts[id].token_fp != fingerprint_of(req.token),
    ensures
        s.registered(req, fresh, now, unix, observed).0 == s,
        s.registered(req, fresh, now, unix, observed).1 is Err,
        StoreView::register_fault(req) is None && valid_id(id) ==> s.registered(
            req,
            fresh,
            now,
            unix,
            observed,
        ).1 == api_err::<RegisterResponseView>(403, "id is owned by a different token"@),
{
}

/// A registration can be looked up: clients get the name, the endpoints and the
/// salt that the host registered, and see it online.
pub proof fn registered_hosts_are_found(
    s: StoreView,
    req: RegisterRequestView,
    fresh: Option<Seq<char>>,
    now: u64,
    unix: u64,
    observed: Option<Seq<char>>,
)
    requires
        s.registered(req, fresh, now, unix, observed).1 is Ok,
    ensures
        ({
            let (after, resp) = s.registered(req, fresh, now, unix, observed);
            let info = after.info(resp->Ok_0.id, now);
            &&& info is Ok
            &&& info->Ok_0.id == resp->Ok_0.id
            &&& info->Ok_0.name == req.name
            &&& info->Ok_0.endpoints == req.endpoints
            &&& info->Ok_0.password_salt == req.password_salt
            &&& info->Ok_0.online
            &&& info->Ok_0.last_seen_secs == 0
        }),
{
}

/// The owner of an id may register it again, whatever happened to others.
pub proof fn owners_may_register_again(
    s: StoreView,
    req: RegisterRequestView,
    id: Seq<char>,
    fresh: Option<Seq<char>>,
    now: u64,
    unix: u64,
    observed: Option<Seq<char>>,
)
    requires
        req.id == Some(id),
        valid_id(id),
        s.hosts.contains_key(id) ==> s.hosts[id].token_fp == fingerprint_of(req.token),
        StoreView::register_fault(req) is None,
    ensures
        s.registered(req, fresh, now, unix, observed).1 is Ok,
        (s.registered(req, fresh, now, unix, observed).1->Ok_0).id == id,
{
}

/// A challenge is good for one pair request: once a well-formed request has named
/// it, another that names it is refused, whoever sends it and whatever became of
/// the first.
pub proof fn challenges_are_used_once(
    s: StoreView,
    id: Seq<char>,
    req: SubmitPairRequestView,
    now: u64,
    id2: Seq<char>,
    req2: SubmitPairRequestView,
    later: u64,
)
    requires
        StoreView::submit_fault(req) is None,
        req2.request_id == req.request_id,
    ensures
        ({
            let after = s.submitted(id, req, now).0;
            let (end, result) = after.submitted(id2, req2, later);
            &&& result is Err
            &&& end == after
            &&& StoreView::submit_fault(req2) is None ==> result == api_err::<u16>(
                404,
                "unknown or expired challenge"@,
            )
        }),
{
}

/// An operation on the store, with what was drawn for it and the times it took place.
pub enum StoreOp {
    Register {
        req: RegisterRequestView,
        fresh: Option<Seq<char>>,
        now: u64,
        unix: u64,
        observed: Option<Seq<char>>,
    },
    Heartbeat {
        id: Seq<char>,
        header: Option<Seq<char>>,
        eps: Option<Seq<EndpointView>>,
        now: u64,
        unix: u64,
        observed: Option<Seq<char>>,
    },
    PollRequests { id: Seq<char>, header: Option<Seq<char>>, deadline: u64, now: u64, unix: u64 },
    PostResult { id: Seq<char>, header: Option<Seq<char>>, res: PairResultView },
    Challenge { id: Seq<char>, now: u64, request_id: Seq<char>, challenge: Seq<char> },
    Submit { id: Seq<char>, answer: SubmitPairRequestView, now: u64 },
    Collect { now: u64 },
}

/// The store after an operation.
pub open spec fn after(s: StoreView, op: StoreOp) -> StoreView {
    match op {
        StoreOp::Register { req, fresh, now, unix, observed } => s.registered(
            req,
            fresh,
            now,
            unix,
            observed,
        ).0,
        StoreOp::Heartbeat { id, header, eps, now, unix, observed } => s.heartbeat(
            id,
            header,
            eps,
            now,
            unix,
            observed,
        ).0,
        StoreOp::PollRequests { id, header, deadline, now, unix } => s.polled(
            id,
            header,
            deadline,
            now,
            unix,
        ).0,
        StoreOp::PostResult { id, header, res } => s.with_result(id, header, res).0,
        StoreOp::Challenge { id, now, request_id, challenge } => s.challenged(
            id,
            now,
            request_id,
            challenge,
        ).0,
        StoreOp::Submit { id, answer, now } => s.submitted(id, answer, now).0,
        StoreOp::Collect { now } => s.collected(now),
    }
}

/// The store after operations in a row.
pub open spec fn after_all(s: StoreView, ops: Seq<StoreOp>) -> StoreView
    decreases ops.len(),
{
    if ops.len() == 0 {
        s
    } else {
        after(after_all(s, ops.drop_last()), ops.last())
    }
}

/// Whether an operation draws this request id for a challenge.
pub open spec fn draws(op: StoreOp, request_id: Seq<char>) -> bool {
    op matches StoreOp::Challenge { request_id: drawn, .. } && drawn == request_id
}

/// No operation makes a challenge but the one that draws its id.
proof fn lemma_no_challenge_appears(s: StoreView, ops: Seq<StoreOp>, request_id: Seq<char>)
    requires
        !s.challenges.contains_key(request_id),
        forall|i: int| 0 <= i < ops.len() ==> !draws(#[trigger] ops[i], request_id),
    ensures
        !after_all(s, ops).challenges.contains_key(request_id),
    decreases ops.len(),
{
    if ops.len() > 0 {
        let front = ops.drop_last();
        assert forall|i: int| 0 <= i < front.len() implies !draws(
            #[trigger] front[i],
            request_id,
        ) by {
            assert(front[i] == ops[i]);
        }
        lemma_no_challenge_appears(s, front, request_id);
        assert(!draws(ops[ops.len() - 1], request_id));
    }
}

/// A used challenge stays used: once a well-formed request has named it, any other
/// that names it is refused and queues nothing, whatever was done in between, unless
/// its id was drawn again.
pub proof fn used_challenges_stay_used(
    s: StoreView,
    id: Seq<char>,
    req: SubmitPairRequestView,
    now: u64,
    ops: Seq<StoreOp>,
    id2: Seq<char>,
    req2: SubmitPairRequestView,
    later: u64,
)
    requires
        StoreView::submit_fault(req) is None,
        forall|i: int| 0 <= i < ops.len() ==> !draws(#[trigger] ops[i], req.request_id),
        req2.request_id == req.request_id,
    ensures
        ({
            let then = after_all(s.submitted(id, req, now).0, ops);
            let (end, result) = then.submitted(id2, req2, later);
            &&& result is Err
            &&& end == then
            &&& StoreView::submit_fault(req2) is None ==> result == api_err::<u16>(
                404,
                "unknown or expired challenge"@,
            )
        }),
{
    lemma_no_challenge_appears(s.submitted(id, req, now).0, ops, req.request_id);
}

/// A challenge answered in time reaches the host: the host's next poll brings the
/// requests that waited before, in order, and this one last, with the challenge
/// that the server had minted for it.
pub proof fn pair_requests_reach_the_host(
    s: StoreView,
    id: Seq<char>,
    request_id: Seq<char>,
    challenge: Seq<char>,
    req: SubmitPairRequestView,
    header: Option<Seq<char>>,
    asked: u64,
    answered: u64,
    deadline: u64,
    polled: u64,
    unix: u64,
)
    requires
        s.challenged(id, asked, request_id, challenge).1 is Ok,
        req.request_id == request_id,
        StoreView::submit_fault(req) is None,
        elapsed_secs(answered, asked) < CHALLENGE_TTL_SECS,
        s.online(id, answered),
        s.authorized(id, header) is Ok,
    ensures
        ({
            let s1 = s.challenged(id, asked, request_id, challenge).0;
            let (s2, accepted) = s1.submitted(id, req, answered);
            let (s3, got) = s2.polled(id, header, deadline, polled, unix);
            let before = if s.runtime.contains_key(id) {
                s.runtime[id].pending
            } else {
                Seq::empty()
            };
            &&& accepted == Ok::<u16, ApiErrorView>(202)
            &&& got == Ok::<Poll<Seq<PairRequestView>>, ApiErrorView>(
                Poll::Ready(before.push(StoreView::request_of(req, challenge))),
            )
            &&& s3.runtime[id].pending.len() == 0
        }),
{
}

/// What a host reports is what the client reads: after an accepted report every
/// poll for the request gives that report.
pub proof fn results_reach_the_client(
    s: StoreView,
    id: Seq<char>,
    header: Option<Seq<char>>,
    res: PairResultView,
    deadline: u64,
    now: u64,
)
    requires
        s.with_result(id, header, res).1 is Ok,
    ensures
        s.with_result(id, header, res).0.result(res.request_id, deadline, now) == Ok::<
            Poll<Option<PairResultView>>,
            ApiErrorView,
        >(Poll::Ready(Some(res))),
{
}

/// Collecting garbage drops exactly what has expired.
pub proof fn only_the_expired_is_collected(s: StoreView, now: u64, k: Seq<char>)
    ensures
        s.collected(now).hosts == s.hosts,
        s.collected(now).runtime == s.runtime,
        s.collected(now).challenges.contains_key(k) <==> s.challenges.contains_key(k)
            && elapsed_secs(now, s.challenges[k].created) < CHALLENGE_TTL_SECS,
        s.collected(now).challenges.contains_key(k) ==> s.collected(now).challenges[k]
            == s.challenges[k],
        s.collected(now).results.contains_key(k) <==> s.results.contains_key(k) && elapsed_secs(
            now,
            s.results[k].created,
        ) < RESULT_TTL_SECS,
        s.collected(now).results.contains_key(k) ==> s.collected(now).results[k] == s.results[k],
{
}

/// Times that never go back.
pub open spec fn ordered(times: Seq<u64>) -> bool {
    forall|i: int, j: int| 0 <= i <= j < times.len() ==> times[i] <= times[j]
}

/// No minute holds more challenges than the limit: of any more than that in a row
/// the last came over a minute after the first.
pub open spec fn rate_limited(times: Seq<u64>) -> bool {
    forall|i: int|
        0 <= i && i + CHALLENGES_PER_MINUTE < times.len() ==> times[i + CHALLENGES_PER_MINUTE]
            - #[trigger] times[i] > MINUTE_NANOS
}

/// The times on the books are the latest of all times at which a challenge was
/// given out; the others are more than a minute before the latest look at the
/// books.
pub open spec fn on_the_books(all: Seq<u64>, books: Seq<u64>, looked: u64) -> bool {
    &&& books.len() <= all.len()
    &&& books == all.skip(all.len() - books.len())
    &&& forall|i: int|
        0 <= i < all.len() - books.len() ==> looked - (#[trigger] all[i]) > MINUTE_NANOS
    &&& forall|i: int| 0 <= i < all.len() ==> (#[trigger] all[i]) <= looked
}

/// Dropping old times keeps the books right.
proof fn lemma_books_after_drop(all: Seq<u64>, books: Seq<u64>, looked: u64, now: u64)
    requires
        on_the_books(all, books, looked),
        looked <= now,
    ensures
        on_the_books(all, recent_times(books, now), now),
    decreases books.len(),
{
    if books.len() > 0 && now - books[0] > MINUTE_NANOS {
        let rest = books.drop_first();
        let cut = all.len() - books.len();
        assert(books[0] == all[cut]);
        assert(rest =~= all.skip(all.len() - rest.len()));
        assert(on_the_books(all, rest, now)) by {
            assert forall|i: int| 0 <= i < all.len() - rest.len() implies now - (#[trigger] all[i])
                > MINUTE_NANOS by {
                if i < cut {
                    assert(looked - all[i] > MINUTE_NANOS);
                }
            }
        }
        lemma_books_after_drop(all, rest, now, now);
    }
}

/// Of one host, no minute ever sees more challenges given out than the limit. `all`
/// are the times of those given out so far; a request at `now` adds one exactly
/// where it is granted, and keeps the limit.
pub proof fn challenges_are_rate_limited(
    s: StoreView,
    id: Seq<char>,
    all: Seq<u64>,
    looked: u64,
    now: u64,
    request_id: Seq<char>,
    challenge: Seq<char>,
)
    requires
        s.hosts.contains_key(id),
        on_the_books(all, s.with_runtime(id).runtime[id].challenge_times, looked),
        ordered(all),
        rate_limited(all),
        looked <= now,
    ensures
        ({
            let (after, result) = s.challenged(id, now, request_id, challenge);
            let then = if result is Ok {
                all.push(now)
            } else {
                all
            };
            &&& on_the_books(then, after.runtime[id].challenge_times, now)
            &&& ordered(then)
            &&& rate_limited(then)
            &&& result is Err ==> result->Err_0.code == 429
        }),
{
    let books = s.with_runtime(id).runtime[id].challenge_times;
    let recent = recent_times(books, now);
    lemma_books_after_drop(all, books, looked, now);
    let (after, result) = s.challenged(id, now, request_id, challenge);
    if result is Ok {
        let then = all.push(now);
        assert(after.runtime[id].challenge_times == recent.push(now));
        assert(recent.push(now) =~= then.skip(then.len() - recent.push(now).len()));
        assert forall|i: int|
            0 <= i && i + CHALLENGES_PER_MINUTE < then.len() implies then[i + CHALLENGES_PER_MINUTE]
            - #[trigger] then[i] > MINUTE_NANOS by {
            assert(then[i] == all[i]);
            if i + CHALLENGES_PER_MINUTE < all.len() {
                assert(all[i + CHALLENGES_PER_MINUTE] - all[i] > MINUTE_NANOS);
            }
        }
        assert forall|i: int| 0 <= i < then.len() implies (#[trigger] then[i]) <= now by {
            if i < all.len() {
                assert(all[i] <= looked);
            }
        }
        assert forall|i: int|
            0 <= i < then.len() - recent.push(now).len() implies now - (#[trigger] then[i])
            > MINUTE_NANOS by {
            assert(then[i] == all[i]);
        }
    }
}

/// A request that comes more than a minute after all others is granted: the limit
/// slows guessing down and locks nobody out.
pub proof fn the_limit_wears_off(
    s: StoreView,
    id: Seq<char>,
    now: u64,
    request_id: Seq<char>,
    challenge: Seq<char>,
)
    requires
        s.hosts.contains_key(id),
        forall|i: int|
            0 <= i < s.with_runtime(id).runtime[id].challenge_times.len() ==> now
                - #[trigger] s.with_runtime(id).runtime[id].challenge_times[i] > MINUTE_NANOS,
    ensures
        s.challenged(id, now, request_id, challenge).1 is Ok,
{
    lemma_all_old(s.with_runtime(id).runtime[id].challenge_times, now);
}

/// Of times that are all old none is left.
proof fn lemma_all_old(times: Seq<u64>, now: u64)
    requires
        forall|i: int| 0 <= i < times.len() ==> now - #[trigger] times[i] > MINUTE_NANOS,
    ensures
        recent_times(times, now).len() == 0,
    decreases times.len(),
{
    if times.len() > 0 {
        assert(now - times[0] > MINUTE_NANOS);
        assert forall|i: int| 0 <= i < times.len() - 1 implies now - #[trigger] times.drop_first()[i]
            > MINUTE_NANOS by {
            assert(times.drop_first()[i] == times[i + 1]);
        }
        lemma_all_old(times.drop_first(), now);
    }
}

/// A host that sends its heartbeats may miss two of them and is still online, and its
/// agent never advertises more endpoints than the server takes.
pub proof fn hosts_may_miss_two_heartbeats(req: RegisterRequestView)
    ensures
        OFFLINE_AFTER_SECS == 3 * HEARTBEAT_SECS,
        HEARTBEAT_SECS == 30,
        utf8(req.token).len() >= 32 && 1 <= req.name.len() && utf8(req.name).len() <= 64
            && req.endpoints.len() <= MAX_ENDPOINTS ==> StoreView::register_fault(req) is None,
        req.endpoints.len() > MAX_ENDPOINTS ==> StoreView::register_fault(req) is Some,
{
}

} // verus!
