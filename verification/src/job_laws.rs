//! How the pairing of an accepted request with Apollo goes, from the PIN to the
//! permissions, and how the agent's loop goes on around it.

use vstd::prelude::*;
use crate::agent::heartbeat_of;
use crate::agent_loop::{
    backoff_of, new_client, two_to, AgentRunView, JobActionView, JobEventView, JobPhase, PairJobView,
    RunActionView, RunEventView, RunPhase,
};
use crate::apollo::ApolloClientView;
use crate::proto::{PairRequestView, PairStatus, RegisterResponseView};

verus! {

/// Whatever happens, Apollo is only ever given the PIN and the device name that the
/// job was started with, and these and the permissions never change.
pub proof fn the_same_pin_is_posted_again(job: PairJobView, ev: JobEventView, now: u64)
    ensures
        ({
            let (next, action) = job.step(ev, now);
            &&& next.pin == job.pin && next.name == job.name && next.perm == job.perm
            &&& action matches JobActionView::SubmitPin { pin, name } ==> pin == job.pin && name
                == job.name
        }),
{
}

/// The PIN is posted once Apollo has told which clients it knows, and these are the
/// ones that do not count as new later on.
pub proof fn the_pin_follows_the_first_list(
    job: PairJobView,
    clients: Seq<ApolloClientView>,
    uuid: Seq<char>,
    now: u64,
)
    requires
        job.phase == JobPhase::ListBefore,
    ensures
        ({
            let (next, action) = job.step(JobEventView::Clients(Ok(clients)), now);
            &&& action == (JobActionView::SubmitPin { pin: job.pin, name: job.name })
            &&& next.fits(JobEventView::PinTaken(Ok(true)))
            &&& next.start == now
            &&& next.before.contains(uuid) <==> exists|i: int|
                0 <= i < clients.len() && (#[trigger] clients[i]).uuid == uuid
        }),
{
    let (next, action) = job.step(JobEventView::Clients(Ok(clients)), now);
    if next.before.contains(uuid) {
        let i = choose|i: int| 0 <= i < next.before.len() && next.before[i] == uuid;
        assert(clients[i].uuid == uuid);
    }
    if exists|i: int| 0 <= i < clients.len() && (#[trigger] clients[i]).uuid == uuid {
        let i = choose|i: int| 0 <= i < clients.len() && (#[trigger] clients[i]).uuid == uuid;
        assert(next.before[i] == uuid);
    }
}

/// A PIN that Apollo does not take yet is posted again half a second later, for a
/// minute and a half from the first time; after that the request has failed.
pub proof fn an_early_pin_is_posted_again(job: PairJobView, now: u64, later: u64)
    requires
        job.phase == JobPhase::SubmitPin,
    ensures
        ({
            let (paused, action) = job.step(JobEventView::PinTaken(Ok(false)), now);
            let (again, retry) = paused.step(JobEventView::Slept, later);
            &&& now - job.start <= 90_000_000_000 ==> {
                &&& action == JobActionView::SleepMillis(500)
                &&& paused.fits(JobEventView::Slept)
                &&& retry == (JobActionView::SubmitPin { pin: job.pin, name: job.name })
                &&& again == job
            }
            &&& now - job.start > 90_000_000_000 ==> action == JobActionView::Finish(
                Err(
                    "timed out waiting for the client's pairing request to reach Apollo"@,
                ),
            )
        }),
{
}

/// Once Apollo has taken the PIN, its clients are listed until a new one is there,
/// every half second, for a minute; after that the request has failed.
pub proof fn the_new_client_is_waited_for(
    job: PairJobView,
    clients: Seq<ApolloClientView>,
    now: u64,
    looked: u64,
    later: u64,
)
    requires
        job.phase == JobPhase::SubmitPin,
        forall|i: int|
            0 <= i < clients.len() ==> job.before.contains((#[trigger] clients[i]).uuid),
    ensures
        ({
            let (listing, list) = job.step(JobEventView::PinTaken(Ok(true)), now);
            let (pause, action) = listing.step(JobEventView::Clients(Ok(clients)), looked);
            let (again, relist) = pause.step(JobEventView::Slept, later);
            &&& list == JobActionView::ListClients
            &&& listing.fits(JobEventView::Clients(Ok(clients)))
            &&& looked - now <= 60_000_000_000 ==> {
                &&& action == JobActionView::SleepMillis(500)
                &&& relist == JobActionView::ListClients
                &&& again == listing
            }
            &&& looked - now > 60_000_000_000 ==> action == JobActionView::Finish(
                Err("client never completed pairing with Apollo (wrong PIN or aborted)"@),
            )
        }),
{
    lemma_none_new(clients, job.before);
}

proof fn lemma_none_new(clients: Seq<ApolloClientView>, before: Seq<Seq<char>>)
    requires
        forall|i: int| 0 <= i < clients.len() ==> before.contains((#[trigger] clients[i]).uuid),
    ensures
        new_client(clients, before) is None,
    decreases clients.len(),
{
    if clients.len() > 0 {
        let rest = clients.drop_first();
        assert(before.contains(clients[0].uuid));
        assert forall|i: int| 0 <= i < rest.len() implies before.contains(
            (#[trigger] rest[i]).uuid,
        ) by {
            assert(rest[i] == clients[i + 1]);
        }
        lemma_none_new(rest, before);
    }
}

proof fn lemma_first_new(clients: Seq<ApolloClientView>, before: Seq<Seq<char>>, i: int)
    requires
        0 <= i < clients.len(),
        !before.contains(clients[i].uuid),
        forall|j: int| 0 <= j < i ==> before.contains((#[trigger] clients[j]).uuid),
    ensures
        new_client(clients, before) == Some(clients[i]),
    decreases clients.len(),
{
    if i > 0 {
        assert(before.contains(clients[0].uuid));
        let rest = clients.drop_first();
        assert(rest[i - 1] == clients[i]);
        assert forall|j: int| 0 <= j < i - 1 implies before.contains((#[trigger] rest[j]).uuid) by {
            assert(rest[j] == clients[j + 1]);
        }
        lemma_first_new(rest, before, i - 1);
    }
}

/// The first client that was not there before gets the permissions of the job, and a
/// name where it came without one; all else of it is left as Apollo had it. With
/// Apollo's answer the job is done.
pub proof fn the_new_client_gets_its_permissions(
    job: PairJobView,
    clients: Seq<ApolloClientView>,
    i: int,
    answer: Result<(), Seq<char>>,
    now: u64,
    later: u64,
)
    requires
        job.phase == JobPhase::ListAfter,
        0 <= i < clients.len(),
        !job.before.contains(clients[i].uuid),
        forall|j: int| 0 <= j < i ==> job.before.contains((#[trigger] clients[j]).uuid),
    ensures
        ({
            let (updating, action) = job.step(JobEventView::Clients(Ok(clients)), now);
            let (done, end) = updating.step(JobEventView::Updated(answer), later);
            &&& action is UpdateClient
            &&& ({
                let c = action->UpdateClient_0;
                &&& c.uuid == clients[i].uuid
                &&& c.perm == job.perm
                &&& clients[i].name.len() > 0 ==> c.name == clients[i].name
                &&& clients[i].name.len() == 0 ==> c.name == job.name
                &&& c == (ApolloClientView { perm: c.perm, name: c.name, ..clients[i] })
            })
            &&& updating.fits(JobEventView::Updated(answer))
            &&& end == JobActionView::Finish(answer)
        }),
{
    lemma_first_new(clients, job.before, i);
}

/// Trouble with Apollo ends the job with Apollo's own words, and a job that has ended
/// waits for nothing.
pub proof fn trouble_ends_the_job(job: PairJobView, ev: JobEventView, e: Seq<char>, now: u64)
    ensures
        job.step(JobEventView::Clients(Err(e)), now).1 == JobActionView::Finish(Err(e)),
        job.step(JobEventView::PinTaken(Err(e)), now).1 == JobActionView::Finish(Err(e)),
        job.step(JobEventView::Updated(Err(e)), now).1 == JobActionView::Finish(Err(e)),
        job.step(ev, now).1 is Finish ==> forall|other: JobEventView|
            !#[trigger] job.step(ev, now).0.fits(other),
        job.fits(ev) && job.step(ev, now).1 == JobActionView::Finish(Ok(())) ==> job.phase
            == JobPhase::Update,
{
}

/// The pause after wrong passwords in a row doubles from two seconds, up to a minute.
pub proof fn the_pause_doubles(failures: u32)
    ensures
        backoff_of(1) == 2,
        1 <= failures < 5 ==> backoff_of((failures + 1) as u32) == 2 * backoff_of(failures),
        failures >= 6 ==> backoff_of(failures) == 60,
{
    reveal_with_fuel(two_to, 7);
}

/// The loop of an agent keeps its id, and what it does with an answer of the
/// rendezvous server: a lost registration is renewed, other trouble is waited out,
/// five seconds where the server answered and ten where it did not, and then the loop
/// goes on.
pub proof fn trouble_is_waited_out(run: AgentRunView, status: u16, now: u64, later: u64)
    requires
        run.phase == RunPhase::Polling,
    ensures
        ({
            let (next, action) = run.step(RunEventView::Status(status), now);
            let (then, on) = next.step(RunEventView::Slept, later);
            &&& status == 403 || status == 404 ==> action == RunActionView::Register && next.fits(
                RunEventView::Registered(None),
            )
            &&& status != 403 && status != 404 ==> action == RunActionView::SleepSecs(5)
                && next.fits(RunEventView::Slept) && (on == RunActionView::Poll || on
                == RunActionView::Heartbeat)
        }),
        ({
            let (next, action) = run.step(RunEventView::Unreachable, now);
            let (then, on) = next.step(RunEventView::Slept, later);
            &&& action == RunActionView::SleepSecs(10)
            &&& next.fits(RunEventView::Slept)
            &&& on == RunActionView::Poll || on == RunActionView::Heartbeat
        }),
{
}

/// After a registration was renewed the loop pauses for five seconds; the address that
/// the server saw is kept from it, as it is from a heartbeat, and an answer that did
/// not come changes nothing.
pub proof fn the_observed_address_is_kept(
    run: AgentRunView,
    r: RegisterResponseView,
    now: u64,
)
    ensures
        run.step(RunEventView::Registered(Some(r)), now).0.observed == r.observed_addr,
        run.step(RunEventView::Registered(Some(r)), now).1 == RunActionView::SleepSecs(5),
        run.step(RunEventView::Registered(None), now).0.observed == run.observed,
        run.step(RunEventView::Beaten(Some(r)), now).0.observed == r.observed_addr,
        run.step(RunEventView::Beaten(None), now).0.observed == run.observed,
        run.step(RunEventView::Beaten(Some(r)), now).0.last_heartbeat == now,
        run.step(RunEventView::Beaten(None), now).0.last_heartbeat == now,
        run.step(RunEventView::Beaten(Some(r)), now).1 == RunActionView::Poll,
        run.step(RunEventView::Beaten(None), now).1 == RunActionView::Poll,
{
}

/// A heartbeat is sent at the end of a round exactly where the interval since the last
/// one has passed; otherwise the next poll starts.
pub proof fn heartbeats_are_sent_in_time(run: AgentRunView, now: u64)
    requires
        run.queue.len() == 0,
    ensures
        ({
            let due = now - run.last_heartbeat >= run.heartbeat_secs * 1_000_000_000;
            let after_post = run.step(RunEventView::Posted, now).1;
            let after_poll = run.step(RunEventView::Requests(Seq::empty()), now).1;
            &&& after_post == (if due {
                RunActionView::Heartbeat
            } else {
                RunActionView::Poll
            })
            &&& after_poll == after_post
        }),
{
    assert((AgentRunView { queue: Seq::empty(), ..run }) =~= run);
}

/// The interval of heartbeats is the server's, brought between ten seconds and five
/// minutes.
pub proof fn heartbeats_are_neither_rare_nor_frequent(secs: u64)
    ensures
        10 <= heartbeat_of(secs) <= 300,
        10 <= secs <= 300 ==> heartbeat_of(secs) == secs,
        secs < 10 ==> heartbeat_of(secs) == 10,
        secs > 300 ==> heartbeat_of(secs) == 300,
{
}

/// Every step of the loop keeps the agent's settings, the id and the interval; the row
/// of wrong passwords grows by a wrong password only.
pub proof fn the_loop_keeps_the_settings(run: AgentRunView, ev: RunEventView, now: u64)
    ensures
        ({
            let next = run.step(ev, now).0;
            &&& next.id == run.id
            &&& next.agent.cfg == run.agent.cfg
            &&& next.heartbeat_secs == run.heartbeat_secs
            &&& ev != RunEventView::Handled(Err("wrong password"@)) ==> next.agent.failures
                == run.agent.failures
            &&& !(ev is Beaten) ==> next.last_heartbeat == run.last_heartbeat
            &&& !(ev is Beaten || ev is Registered) ==> next.observed == run.observed
        }),
{
}

/// What a request came to is reported under its own id: success without words, any
/// failure but a wrong password with its own words, and a wrong password with these,
/// after its pause.
pub proof fn results_are_reported_in_words(run: AgentRunView, e: Seq<char>, now: u64, later: u64)
    requires
        run.phase == RunPhase::Handling,
    ensures
        ({
            let ok = run.step(RunEventView::Handled(Ok(())), now).1;
            let failed = run.step(RunEventView::Handled(Err(e)), now);
            let rejected = failed.0.step(RunEventView::Slept, later).1;
            &&& ok is Post && ok->Post_0.request_id == run.current && ok->Post_0.status
                == PairStatus::Paired && ok->Post_0.message is None
            &&& e != "wrong password"@ ==> failed.1 is Post && failed.1->Post_0.request_id
                == run.current && failed.1->Post_0.status == PairStatus::Failed
                && failed.1->Post_0.message == Some(e)
            &&& e == "wrong password"@ ==> rejected is Post && rejected->Post_0.request_id
                == run.current && rejected->Post_0.status == PairStatus::Rejected
                && rejected->Post_0.message == Some("wrong password"@)
        }),
{
}

/// Requests are taken up in the order in which a poll brought them, and the one that
/// is being handled is known by its id.
pub proof fn requests_wait_in_line(run: AgentRunView, v: Seq<PairRequestView>, now: u64)
    requires
        v.len() > 0,
    ensures
        ({
            let (next, action) = run.step(RunEventView::Requests(v), now);
            &&& action == RunActionView::Handle(v[0])
            &&& next.current == v[0].request_id
            &&& next.fits(RunEventView::Handled(Ok(())))
            &&& next.queue.len() == v.len() - 1
            &&& forall|i: int| 0 <= i < next.queue.len() ==> next.queue[i] == v[i + 1]
        }),
        run.queue == v ==> run.step(RunEventView::Posted, now).1 == RunActionView::Handle(v[0]),
{
}

} // verus!
