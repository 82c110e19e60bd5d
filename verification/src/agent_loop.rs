//! The decisions of the host agent's loop: what to do next after each answer of
//! the rendezvous server and of Apollo. Times count nanoseconds.

use vstd::prelude::*;
use crate::agent::{
    heartbeat_of, ra_proto_heartbeat_secs, sanitize_name, sanitized, APOLLO_PAUSE_MILLIS, Agent,
    AgentView, CLIENT_APPEAR_WAIT_SECS, PIN_WAIT_SECS,
};
use crate::apollo::{client_views, ApolloClient, ApolloClientView};
use crate::proto::{
    challenge_response, clone_text, ct_eq, h2_of, opened_pin, pair_key, PairRequest,
    PairRequestView, PairResult, PairResultView, PairSecret, PairStatus, RegisterResponse,
    RegisterResponseView,
};
use crate::rendezvous::{request_views, NANOS_PER_SEC};
use crate::text::{has_text, is_empty, str_eq, str_view, text_view, texts};

verus! {

/// What a pair request shows of its sender.
#[derive(Debug)]
pub enum RequestCheck {
    /// The sender does not know the password.
    WrongPassword,
    /// The sender knows the password, but the PIN cannot be read.
    BadSeal,
    /// The sender knows the password and presents this PIN.
    Accepted { pin: String, name: String },
}

/// What a [`RequestCheck`] holds.
pub enum RequestCheckView {
    WrongPassword,
    BadSeal,
    Accepted { pin: Seq<char>, name: Seq<char> },
}

impl View for RequestCheck {
    type V = RequestCheckView;

    open spec fn view(&self) -> RequestCheckView {
        match *self {
            RequestCheck::WrongPassword => RequestCheckView::WrongPassword,
            RequestCheck::BadSeal => RequestCheckView::BadSeal,
            RequestCheck::Accepted { pin, name } => RequestCheckView::Accepted {
                pin: pin@,
                name: name@,
            },
        }
    }
}

/// What a pair request shows, for a host whose password hash is `h1`.
pub open spec fn checked(h1: Seq<char>, pr: PairRequestView) -> RequestCheckView {
    if pr.response != h2_of(h1, pr.challenge) {
        RequestCheckView::WrongPassword
    } else {
        match opened_pin(pair_key(h1, pr.challenge), pr.sealed_pin) {
            Ok(pin) => RequestCheckView::Accepted { pin, name: sanitized(pr.device_name) },
            Err(_) => RequestCheckView::BadSeal,
        }
    }
}

impl Agent {
    /// Verify the password of a pair request. An answer that shows the password
    /// ends a row of failures.
    pub fn check_request(&mut self, pr: &PairRequest) -> (r: RequestCheck)
        requires
            old(self)@.cfg.password_h1 is Some,
        ensures
            r@ == checked(old(self)@.cfg.password_h1->0, pr@),
            final(self)@ == (AgentView {
                failures: if r@ is WrongPassword {
                    old(self)@.failures
                } else {
                    0
                },
                ..old(self)@
            }),
    {
        let h1 = match &self.cfg.password_h1 {
            Some(h) => h.clone(),
            None => String::new(),
        };
        let expected = challenge_response(h1.as_str(), pr.challenge.as_str());
        if !ct_eq(pr.response.as_str(), expected.as_str()) {
            return RequestCheck::WrongPassword;
        }
        self.failures = 0;
        let secret = PairSecret::derive(h1.as_str(), pr.challenge.as_str());
        match secret.open_pin(pr.sealed_pin.as_str()) {
            Ok(pin) => RequestCheck::Accepted { pin, name: sanitize_name(pr.device_name.as_str()) },
            Err(_) => RequestCheck::BadSeal,
        }
    }
}

/// Where the pairing of an accepted request stands.
#[derive(Debug, Clone, Copy, PartialEq, Eq, Structural)]
pub enum JobPhase {
    /// Apollo was asked for the clients that it knows already.
    ListBefore,
    /// Apollo was given the PIN.
    SubmitPin,
    /// A pause before the PIN is given again.
    PinPause,
    /// Apollo was asked for its clients again.
    ListAfter,
    /// A pause before Apollo is asked again.
    ListPause,
    /// Apollo was told the new client's permissions.
    Update,
    Finished,
}

/// What happened.
#[derive(Debug)]
pub enum JobEvent {
    Clients(Result<Vec<ApolloClient>, String>),
    PinTaken(Result<bool, String>),
    Slept,
    Updated(Result<(), String>),
}

/// What to do next.
#[derive(Debug)]
pub enum JobAction {
    ListClients,
    SubmitPin { pin: String, name: String },
    SleepMillis(u64),
    UpdateClient(ApolloClient),
    Finish(Result<(), String>),
}

/// What a [`JobEvent`] holds.
pub enum JobEventView {
    Clients(Result<Seq<ApolloClientView>, Seq<char>>),
    PinTaken(Result<bool, Seq<char>>),
    Slept,
    Updated(Result<(), Seq<char>>),
}

/// What a [`JobAction`] holds.
pub enum JobActionView {
    ListClients,
    SubmitPin { pin: Seq<char>, name: Seq<char> },
    SleepMillis(u64),
    UpdateClient(ApolloClientView),
    Finish(Result<(), Seq<char>>),
}

impl View for JobEvent {
    type V = JobEventView;

    open spec fn view(&self) -> JobEventView {
        match *self {
            JobEvent::Clients(Ok(v)) => JobEventView::Clients(Ok(client_views(v@))),
            JobEvent::Clients(Err(e)) => JobEventView::Clients(Err(e@)),
            JobEvent::PinTaken(Ok(b)) => JobEventView::PinTaken(Ok(b)),
            JobEvent::PinTaken(Err(e)) => JobEventView::PinTaken(Err(e@)),
            JobEvent::Slept => JobEventView::Slept,
            JobEvent::Updated(Ok(_)) => JobEventView::Updated(Ok(())),
            JobEvent::Updated(Err(e)) => JobEventView::Updated(Err(e@)),
        }
    }
}

impl View for JobAction {
    type V = JobActionView;

    open spec fn view(&self) -> JobActionView {
        match *self {
            JobAction::ListClients => JobActionView::ListClients,
            JobAction::SubmitPin { pin, name } => JobActionView::SubmitPin { pin: pin@, name: name@ },
            JobAction::SleepMillis(n) => JobActionView::SleepMillis(n),
            JobAction::UpdateClient(c) => JobActionView::UpdateClient(c@),
            JobAction::Finish(Ok(_)) => JobActionView::Finish(Ok(())),
            JobAction::Finish(Err(e)) => JobActionView::Finish(Err(e@)),
        }
    }
}

/// The pairing of one accepted request with Apollo.
pub struct PairJob {
    pin: String,
    name: String,
    /// The permissions that the new client gets.
    perm: u32,
    /// The clients that Apollo knew before.
    before: Vec<String>,
    phase: JobPhase,
    /// When the present wait began.
    start: u64,
}

/// What a [`PairJob`] holds.
#[verifier::ext_equal]
pub struct PairJobView {
    pub pin: Seq<char>,
    pub name: Seq<char>,
    pub perm: u32,
    pub before: Seq<Seq<char>>,
    pub phase: JobPhase,
    pub start: u64,
}

impl View for PairJob {
    type V = PairJobView;

    closed spec fn view(&self) -> PairJobView {
        PairJobView {
            pin: self.pin@,
            name: self.name@,
            perm: self.perm,
            before: texts(self.before@),
            phase: self.phase,
            start: self.start,
        }
    }
}

/// A pairing that has just been started.
pub open spec fn started_job(pin: Seq<char>, name: Seq<char>, perm: u32) -> PairJobView {
    PairJobView {
        pin,
        name,
        perm,
        before: Seq::empty(),
        phase: JobPhase::ListBefore,
        start: 0,
    }
}

/// Whether more than `secs` seconds have passed.
pub open spec fn waited_longer(now: u64, start: u64, secs: u64) -> bool {
    now - start > secs * NANOS_PER_SEC
}

/// The uuids of clients.
pub open spec fn uuids(clients: Seq<ApolloClientView>) -> Seq<Seq<char>> {
    Seq::new(clients.len(), |i: int| clients[i].uuid)
}

/// The first client that was not known before.
pub open spec fn new_client(clients: Seq<ApolloClientView>, before: Seq<Seq<char>>) -> Option<
    ApolloClientView,
>
    decreases clients.len(),
{
    if clients.len() == 0 {
        None
    } else if !before.contains(clients[0].uuid) {
        Some(clients[0])
    } else {
        new_client(clients.drop_first(), before)
    }
}

impl PairJobView {
    /// Whether this event can come in this phase.
    pub open spec fn fits(self, ev: JobEventView) -> bool {
        match self.phase {
            JobPhase::ListBefore => ev is Clients,
            JobPhase::SubmitPin => ev is PinTaken,
            JobPhase::PinPause => ev is Slept,
            JobPhase::ListAfter => ev is Clients,
            JobPhase::ListPause => ev is Slept,
            JobPhase::Update => ev is Updated,
            JobPhase::Finished => false,
        }
    }

    /// The job's end.
    pub open spec fn finish(self, r: Result<(), Seq<char>>) -> (PairJobView, JobActionView) {
        (PairJobView { phase: JobPhase::Finished, ..self }, JobActionView::Finish(r))
    }

    /// Giving Apollo the PIN.
    pub open spec fn submit(self) -> (PairJobView, JobActionView) {
        (
            PairJobView { phase: JobPhase::SubmitPin, ..self },
            JobActionView::SubmitPin { pin: self.pin, name: self.name },
        )
    }

    /// The new client with its permissions, and a name where it has none.
    pub open spec fn updated(self, c: ApolloClientView) -> ApolloClientView {
        ApolloClientView {
            perm: self.perm,
            name: if c.name.len() == 0 {
                self.name
            } else {
                c.name
            },
            ..c
        }
    }

    /// What follows an event.
    pub open spec fn step(self, ev: JobEventView, now: u64) -> (PairJobView, JobActionView) {
        match ev {
            JobEventView::Clients(Err(e)) => self.finish(Err(e)),
            JobEventView::PinTaken(Err(e)) => self.finish(Err(e)),
            JobEventView::Updated(r) => self.finish(r),
            JobEventView::Clients(Ok(clients)) => if self.phase == JobPhase::ListBefore {
                (PairJobView { before: uuids(clients), start: now, ..self }).submit()
            } else {
                match new_client(clients, self.before) {
                    Some(c) => (
                        PairJobView { phase: JobPhase::Update, ..self },
                        JobActionView::UpdateClient(self.updated(c)),
                    ),
                    None => if waited_longer(now, self.start, CLIENT_APPEAR_WAIT_SECS) {
                        self.finish(
                            Err(
                                "client never completed pairing with Apollo (wrong PIN or aborted)"@,
                            ),
                        )
                    } else {
                        (
                            PairJobView { phase: JobPhase::ListPause, ..self },
                            JobActionView::SleepMillis(APOLLO_PAUSE_MILLIS),
                        )
                    },
                }
            },
            JobEventView::PinTaken(Ok(taken)) => if taken {
                (
                    PairJobView { phase: JobPhase::ListAfter, start: now, ..self },
                    JobActionView::ListClients,
                )
            } else if waited_longer(now, self.start, PIN_WAIT_SECS) {
                self.finish(
                    Err("timed out waiting for the client's pairing request to reach Apollo"@),
                )
            } else {
                (
                    PairJobView { phase: JobPhase::PinPause, ..self },
                    JobActionView::SleepMillis(APOLLO_PAUSE_MILLIS),
                )
            },
            JobEventView::Slept => if self.phase == JobPhase::PinPause {
                self.submit()
            } else {
                (PairJobView { phase: JobPhase::ListAfter, ..self }, JobActionView::ListClients)
            },
        }
    }
}

/// Whether more than `secs` seconds have passed.
fn longer_than(now: u64, start: u64, secs: u64) -> (r: bool)
    requires
        secs <= 1000,
    ensures
        r == waited_longer(now, start, secs),
{
    now >= start && now - start > secs * NANOS_PER_SEC
}

/// The uuids of clients.
fn client_uuids(clients: &Vec<ApolloClient>) -> (r: Vec<String>)
    ensures
        texts(r@) == uuids(client_views(clients@)),
{
    let mut out: Vec<String> = Vec::new();
    let mut i: usize = 0;
    while i < clients.len()
        invariant
            i <= clients@.len(),
            out@.len() == i,
            forall|j: int| 0 <= j < i ==> (#[trigger] out@[j])@ == clients@[j].uuid@,
        decreases clients.len() - i,
    {
        out.push(clients[i].uuid.clone());
        i += 1;
    }
    assert(texts(out@) =~= uuids(client_views(clients@)));
    out
}

/// The first client that was not known before.
fn find_new(clients: &Vec<ApolloClient>, before: &Vec<String>) -> (r: Option<ApolloClient>)
    ensures
        match r {
            Some(c) => new_client(client_views(clients@), texts(before@)) == Some(c@),
            None => new_client(client_views(clients@), texts(before@)) is None,
        },
{
    let ghost all = client_views(clients@);
    let ghost known = texts(before@);
    let mut i: usize = 0;
    assert(all.skip(0) =~= all);
    while i < clients.len()
        invariant
            all == client_views(clients@),
            known == texts(before@),
            i <= clients@.len(),
            new_client(all, known) == new_client(all.skip(i as int), known),
        decreases clients.len() - i,
    {
        assert(all.skip(i as int)[0] == clients@[i as int]@);
        assert(all.skip(i as int).drop_first() =~= all.skip(i + 1));
        if !has_text(before, clients[i].uuid.as_str()) {
            return Some(clients[i].clone());
        }
        i += 1;
    }
    None
}

impl PairJob {
    /// The pairing of an accepted request: Apollo is asked for its clients first.
    pub fn new(pin: String, name: String, perm: u32) -> (r: (Self, JobAction))
        ensures
            r.0@ == started_job(pin@, name@, perm),
            r.1@ == JobActionView::ListClients,
    {
        let job = PairJob {
            pin,
            name,
            perm,
            before: Vec::new(),
            phase: JobPhase::ListBefore,
            start: 0,
        };
        assert(job@.before =~= Seq::empty());
        (job, JobAction::ListClients)
    }

    /// The job's end.
    fn finish(&mut self, r: Result<(), String>) -> (a: JobAction)
        ensures
            (final(self)@, a@) == old(self)@.finish(
                match r {
                    Ok(_) => Ok(()),
                    Err(e) => Err(e@),
                },
            ),
    {
        self.phase = JobPhase::Finished;
        JobAction::Finish(r)
    }

    /// What follows an event.
    pub fn step(&mut self, ev: JobEvent, now: u64) -> (a: JobAction)
        requires
            old(self)@.fits(ev@),
        ensures
            (final(self)@, a@) == old(self)@.step(ev@, now),
    {
        match ev {
            JobEvent::Clients(Err(e)) => self.finish(Err(e)),
            JobEvent::PinTaken(Err(e)) => self.finish(Err(e)),
            JobEvent::Updated(r) => self.finish(r),
            JobEvent::Clients(Ok(clients)) => {
                if self.phase == JobPhase::ListBefore {
                    self.before = client_uuids(&clients);
                    self.start = now;
                    self.phase = JobPhase::SubmitPin;
                    return JobAction::SubmitPin { pin: self.pin.clone(), name: self.name.clone() };
                }
                match find_new(&clients, &self.before) {
                    Some(mut c) => {
                        self.phase = JobPhase::Update;
                        c.perm = self.perm;
                        if is_empty(c.name.as_str()) {
                            c.name = self.name.clone();
                        }
                        JobAction::UpdateClient(c)
                    },
                    None => {
                        if longer_than(now, self.start, CLIENT_APPEAR_WAIT_SECS) {
                            return self.finish(
                                Err(
                                    "client never completed pairing with Apollo (wrong PIN or aborted)".to_owned(),
                                ),
                            );
                        }
                        self.phase = JobPhase::ListPause;
                        JobAction::SleepMillis(APOLLO_PAUSE_MILLIS)
                    },
                }
            },
            JobEvent::PinTaken(Ok(taken)) => {
                if taken {
                    self.phase = JobPhase::ListAfter;
                    self.start = now;
                    return JobAction::ListClients;
                }
                if longer_than(now, self.start, PIN_WAIT_SECS) {
                    return self.finish(
                        Err(
                            "timed out waiting for the client's pairing request to reach Apollo".to_owned(),
                        ),
                    );
                }
                self.phase = JobPhase::PinPause;
                JobAction::SleepMillis(APOLLO_PAUSE_MILLIS)
            },
            JobEvent::Slept => {
                if self.phase == JobPhase::PinPause {
                    self.phase = JobPhase::SubmitPin;
                    return JobAction::SubmitPin { pin: self.pin.clone(), name: self.name.clone() };
                }
                self.phase = JobPhase::ListAfter;
                JobAction::ListClients
            },
        }
    }
}

// ---------------------------------------------------------------------------
// The loop around it
// ---------------------------------------------------------------------------

/// What the long poll brought.
#[derive(Debug)]
pub enum PollAnswer {
    /// Success, with the requests that could be read.
    Requests(Vec<PairRequest>),
    /// Another status.
    Status(u16),
    Unreachable,
}

/// Where the loop stands.
#[derive(Debug, Clone, Copy, PartialEq, Eq, Structural)]
pub enum RunPhase {
    /// The long poll is on its way.
    Polling,
    /// A request is being handled.
    Handling,
    /// A pause after a wrong password.
    BackingOff,
    /// A result is being reported.
    Posting,
    /// The registration is being renewed.
    Registering,
    /// A pause after trouble with the rendezvous server.
    Pausing,
    /// A heartbeat is on its way.
    Beating,
}

/// What happened.
#[derive(Debug)]
pub enum RunEvent {
    Polled(PollAnswer),
    Handled(Result<(), String>),
    Slept,
    Posted,
    Registered(Option<RegisterResponse>),
    Beaten(Option<RegisterResponse>),
}

/// What to do next.
#[derive(Debug)]
pub enum RunAction {
    Poll,
    Handle(PairRequest),
    SleepSecs(u64),
    Post(PairResult),
    Register,
    Heartbeat,
}

/// What a [`RunEvent`] holds.
pub enum RunEventView {
    Requests(Seq<PairRequestView>),
    Status(u16),
    Unreachable,
    Handled(Result<(), Seq<char>>),
    Slept,
    Posted,
    Registered(Option<RegisterResponseView>),
    Beaten(Option<RegisterResponseView>),
}

/// What a [`RunAction`] holds.
pub enum RunActionView {
    Poll,
    Handle(PairRequestView),
    SleepSecs(u64),
    Post(PairResultView),
    Register,
    Heartbeat,
}

/// What an optional response holds.
pub open spec fn response_view(r: Option<RegisterResponse>) -> Option<RegisterResponseView> {
    match r {
        Some(x) => Some(x@),
        None => None,
    }
}

impl View for RunEvent {
    type V = RunEventView;

    open spec fn view(&self) -> RunEventView {
        match *self {
            RunEvent::Polled(PollAnswer::Requests(v)) => RunEventView::Requests(request_views(v@)),
            RunEvent::Polled(PollAnswer::Status(s)) => RunEventView::Status(s),
            RunEvent::Polled(PollAnswer::Unreachable) => RunEventView::Unreachable,
            RunEvent::Handled(Ok(_)) => RunEventView::Handled(Ok(())),
            RunEvent::Handled(Err(e)) => RunEventView::Handled(Err(e@)),
            RunEvent::Slept => RunEventView::Slept,
            RunEvent::Posted => RunEventView::Posted,
            RunEvent::Registered(r) => RunEventView::Registered(response_view(r)),
            RunEvent::Beaten(r) => RunEventView::Beaten(response_view(r)),
        }
    }
}

impl View for RunAction {
    type V = RunActionView;

    open spec fn view(&self) -> RunActionView {
        match *self {
            RunAction::Poll => RunActionView::Poll,
            RunAction::Handle(p) => RunActionView::Handle(p@),
            RunAction::SleepSecs(n) => RunActionView::SleepSecs(n),
            RunAction::Post(r) => RunActionView::Post(r@),
            RunAction::Register => RunActionView::Register,
            RunAction::Heartbeat => RunActionView::Heartbeat,
        }
    }
}

/// Two to the power of `n`.
pub open spec fn two_to(n: nat) -> nat
    decreases n,
{
    if n == 0 {
        1
    } else {
        2 * two_to((n - 1) as nat)
    }
}

/// The pause, in seconds, after so many wrong passwords in a row: doubling from
/// two seconds, at most a minute.
pub open spec fn backoff_of(failures: u32) -> nat {
    let doubled = two_to(
        (if failures < 6 {
            failures
        } else {
            6
        }) as nat,
    );
    if doubled < 60 {
        doubled
    } else {
        60
    }
}

/// The pause, in seconds, after so many wrong passwords in a row.
pub fn backoff_secs(failures: u32) -> (r: u64)
    ensures
        r == backoff_of(failures),
{
    proof {
        reveal_with_fuel(two_to, 7);
    }
    if failures == 0 {
        1
    } else if failures == 1 {
        2
    } else if failures == 2 {
        4
    } else if failures == 3 {
        8
    } else if failures == 4 {
        16
    } else if failures == 5 {
        32
    } else {
        60
    }
}

/// The run of an agent.
pub struct AgentRun {
    pub agent: Agent,
    /// The id that the run was registered under.
    id: String,
    queue: Vec<PairRequest>,
    /// The request that is being handled.
    current: String,
    observed: Option<String>,
    heartbeat_secs: u64,
    last_heartbeat: u64,
    phase: RunPhase,
}

/// What an [`AgentRun`] holds.
#[verifier::ext_equal]
pub struct AgentRunView {
    pub agent: AgentView,
    pub id: Seq<char>,
    pub queue: Seq<PairRequestView>,
    pub current: Seq<char>,
    pub observed: Option<Seq<char>>,
    pub heartbeat_secs: u64,
    pub last_heartbeat: u64,
    pub phase: RunPhase,
}

impl View for AgentRun {
    type V = AgentRunView;

    closed spec fn view(&self) -> AgentRunView {
        AgentRunView {
            agent: self.agent@,
            id: self.id@,
            queue: request_views(self.queue@),
            current: self.current@,
            observed: text_view(self.observed),
            heartbeat_secs: self.heartbeat_secs,
            last_heartbeat: self.last_heartbeat,
            phase: self.phase,
        }
    }
}

/// One more than `n`, as long as there is such a number.
pub open spec fn one_more(n: u32) -> u32 {
    if n < u32::MAX {
        (n + 1) as u32
    } else {
        n
    }
}

impl AgentRunView {
    /// Heartbeats are sent at sensible intervals.
    pub open spec fn wf(self) -> bool {
        10 <= self.heartbeat_secs <= 300
    }

    /// Whether this event can come in this phase.
    pub open spec fn fits(self, ev: RunEventView) -> bool {
        match self.phase {
            RunPhase::Polling => ev is Requests || ev is Status || ev is Unreachable,
            RunPhase::Handling => ev is Handled,
            RunPhase::BackingOff => ev is Slept,
            RunPhase::Posting => ev is Posted,
            RunPhase::Registering => ev is Registered,
            RunPhase::Pausing => ev is Slept,
            RunPhase::Beating => ev is Beaten,
        }
    }

    /// The end of a round: a heartbeat where one is due, then the next poll.
    pub open spec fn end_round(self, now: u64) -> (AgentRunView, RunActionView) {
        if now - self.last_heartbeat >= self.heartbeat_secs * NANOS_PER_SEC {
            (AgentRunView { phase: RunPhase::Beating, ..self }, RunActionView::Heartbeat)
        } else {
            (AgentRunView { phase: RunPhase::Polling, ..self }, RunActionView::Poll)
        }
    }

    /// The next request, or the end of the round.
    pub open spec fn next_request(self, now: u64) -> (AgentRunView, RunActionView) {
        if self.queue.len() == 0 {
            self.end_round(now)
        } else {
            (
                AgentRunView {
                    queue: self.queue.drop_first(),
                    current: self.queue[0].request_id,
                    phase: RunPhase::Handling,
                    ..self
                },
                RunActionView::Handle(self.queue[0]),
            )
        }
    }

    /// Reporting a result.
    pub open spec fn post(self, status: PairStatus, message: Option<Seq<char>>) -> (
        AgentRunView,
        RunActionView,
    ) {
        (
            AgentRunView { phase: RunPhase::Posting, ..self },
            RunActionView::Post(PairResultView { request_id: self.current, status, message }),
        )
    }

    /// A pause.
    pub open spec fn pause(self, secs: u64) -> (AgentRunView, RunActionView) {
        (AgentRunView { phase: RunPhase::Pausing, ..self }, RunActionView::SleepSecs(secs))
    }

    /// The address that the server sees, after a response.
    pub open spec fn observed_after(self, r: Option<RegisterResponseView>) -> Option<Seq<char>> {
        match r {
            Some(x) => x.observed_addr,
            None => self.observed,
        }
    }

    /// What follows an event.
    pub open spec fn step(self, ev: RunEventView, now: u64) -> (AgentRunView, RunActionView) {
        match ev {
            RunEventView::Requests(v) => (AgentRunView { queue: v, ..self }).next_request(now),
            RunEventView::Status(s) => if s == 404 || s == 403 {
                (AgentRunView { phase: RunPhase::Registering, ..self }, RunActionView::Register)
            } else {
                self.pause(5)
            },
            RunEventView::Unreachable => self.pause(10),
            RunEventView::Handled(Ok(_)) => self.post(PairStatus::Paired, None),
            RunEventView::Handled(Err(e)) => if e == "wrong password"@ {
                let failures = one_more(self.agent.failures);
                (
                    AgentRunView {
                        agent: AgentView { failures, ..self.agent },
                        phase: RunPhase::BackingOff,
                        ..self
                    },
                    RunActionView::SleepSecs(backoff_of(failures) as u64),
                )
            } else {
                self.post(PairStatus::Failed, Some(e))
            },
            RunEventView::Slept => if self.phase == RunPhase::BackingOff {
                self.post(PairStatus::Rejected, Some("wrong password"@))
            } else {
                self.end_round(now)
            },
            RunEventView::Posted => self.next_request(now),
            RunEventView::Registered(r) => (AgentRunView {
                observed: self.observed_after(r),
                ..self
            }).pause(5),
            RunEventView::Beaten(r) => (
                AgentRunView {
                    observed: self.observed_after(r),
                    last_heartbeat: now,
                    phase: RunPhase::Polling,
                    ..self
                },
                RunActionView::Poll,
            ),
        }
    }
}

impl AgentRun {
    /// Starts the loop of a registered agent with a poll.
    pub fn new(agent: Agent, reg: &RegisterResponse, now: u64) -> (r: (Self, RunAction))
        ensures
            r.0@ == (AgentRunView {
                agent: agent@,
                id: reg@.id,
                queue: Seq::empty(),
                current: Seq::empty(),
                observed: reg@.observed_addr,
                heartbeat_secs: heartbeat_of(reg.heartbeat_secs),
                last_heartbeat: now,
                phase: RunPhase::Polling,
            }),
            r.0@.wf(),
            r.1@ == RunActionView::Poll,
    {
        let run = AgentRun {
            agent,
            id: reg.id.clone(),
            queue: Vec::new(),
            current: String::new(),
            observed: clone_text(&reg.observed_addr),
            heartbeat_secs: ra_proto_heartbeat_secs(reg),
            last_heartbeat: now,
            phase: RunPhase::Polling,
        };
        proof {
            reveal_strlit("");
            assert(run@.queue =~= Seq::empty());
            assert(run@.current =~= Seq::empty());
        }
        (run, RunAction::Poll)
    }

    /// The id that the run was registered under.
    pub fn id(&self) -> (r: &str)
        ensures
            r@ == self@.id,
    {
        self.id.as_str()
    }

    /// The address that the rendezvous server sees us from.
    pub fn observed(&self) -> (r: Option<&str>)
        ensures
            str_view(r) == self@.observed,
    {
        match &self.observed {
            Some(o) => Some(o.as_str()),
            None => None,
        }
    }

    /// The agent of the run.
    pub fn agent(&self) -> (r: &Agent)
        ensures
            r@ == self@.agent,
    {
        &self.agent
    }

    /// Verify the password of a pair request.
    pub fn check_request(&mut self, pr: &PairRequest) -> (r: RequestCheck)
        requires
            old(self)@.agent.cfg.password_h1 is Some,
        ensures
            r@ == checked(old(self)@.agent.cfg.password_h1->0, pr@),
            final(self)@ == (AgentRunView {
                agent: AgentView {
                    failures: if r@ is WrongPassword {
                        old(self)@.agent.failures
                    } else {
                        0
                    },
                    ..old(self)@.agent
                },
                ..old(self)@
            }),
    {
        self.agent.check_request(pr)
    }

    /// Verify the password of a pair request and start its pairing with Apollo.
    pub fn begin_pair(&mut self, pr: &PairRequest) -> (r: Result<(PairJob, JobAction), String>)
        requires
            old(self)@.agent.cfg.password_h1 is Some,
        ensures
            ({
                let shown = checked(old(self)@.agent.cfg.password_h1->0, pr@);
                &&& match r {
                    Ok((job, a)) => {
                        &&& shown is Accepted
                        &&& job@ == started_job(
                            shown->pin,
                            shown->name,
                            old(self)@.agent.cfg.client_permissions,
                        )
                        &&& a@ == JobActionView::ListClients
                    },
                    Err(e) => !(shown is Accepted) && e@ == "wrong password"@,
                }
                &&& final(self)@ == (AgentRunView {
                    agent: AgentView {
                        failures: if shown is WrongPassword {
                            old(self)@.agent.failures
                        } else {
                            0
                        },
                        ..old(self)@.agent
                    },
                    ..old(self)@
                })
            }),
    {
        match self.check_request(pr) {
            RequestCheck::Accepted { pin, name } => Ok(
                PairJob::new(pin, name, self.agent.cfg.client_permissions),
            ),
            _ => Err("wrong password".to_owned()),
        }
    }

    /// The end of a round.
    fn end_round(&mut self, now: u64) -> (a: RunAction)
        requires
            old(self)@.wf(),
        ensures
            (final(self)@, a@) == old(self)@.end_round(now),
    {
        if now >= self.last_heartbeat && now - self.last_heartbeat >= self.heartbeat_secs
            * NANOS_PER_SEC {
            self.phase = RunPhase::Beating;
            RunAction::Heartbeat
        } else {
            self.phase = RunPhase::Polling;
            RunAction::Poll
        }
    }

    /// The next request, or the end of the round.
    fn next_request(&mut self, now: u64) -> (a: RunAction)
        requires
            old(self)@.wf(),
        ensures
            (final(self)@, a@) == old(self)@.next_request(now),
    {
        assert(self@.queue.len() == self.queue@.len());
        if self.queue.len() == 0 {
            return self.end_round(now);
        }
        let ghost before = self@.queue;
        let pr = self.queue.remove(0);
        assert(self@.queue =~= before.drop_first());
        assert(pr@ == before[0]);
        self.current = pr.request_id.clone();
        self.phase = RunPhase::Handling;
        RunAction::Handle(pr)
    }

    /// Reporting a result.
    fn post(&mut self, status: PairStatus, message: Option<String>) -> (a: RunAction)
        ensures
            (final(self)@, a@) == old(self)@.post(status, text_view(message)),
    {
        self.phase = RunPhase::Posting;
        RunAction::Post(PairResult { request_id: self.current.clone(), status, message })
    }

    /// What follows an event.
    pub fn step(&mut self, ev: RunEvent, now: u64) -> (a: RunAction)
        requires
            old(self)@.fits(ev@),
            old(self)@.wf(),
        ensures
            (final(self)@, a@) == old(self)@.step(ev@, now),
            final(self)@.wf(),
    {
        match ev {
            RunEvent::Polled(PollAnswer::Requests(v)) => {
                self.queue = v;
                self.next_request(now)
            },
            RunEvent::Polled(PollAnswer::Status(s)) => {
                if s == 404 || s == 403 {
                    self.phase = RunPhase::Registering;
                    return RunAction::Register;
                }
                self.phase = RunPhase::Pausing;
                RunAction::SleepSecs(5)
            },
            RunEvent::Polled(PollAnswer::Unreachable) => {
                self.phase = RunPhase::Pausing;
                RunAction::SleepSecs(10)
            },
            RunEvent::Handled(Ok(_)) => self.post(PairStatus::Paired, None),
            RunEvent::Handled(Err(e)) => {
                if str_eq(e.as_str(), "wrong password") {
                    if self.agent.failures < u32::MAX {
                        self.agent.failures = self.agent.failures + 1;
                    }
                    self.phase = RunPhase::BackingOff;
                    return RunAction::SleepSecs(backoff_secs(self.agent.failures));
                }
                self.post(PairStatus::Failed, Some(e))
            },
            RunEvent::Slept => {
                if self.phase == RunPhase::BackingOff {
                    return self.post(PairStatus::Rejected, Some("wrong password".to_owned()));
                }
                self.end_round(now)
            },
            RunEvent::Posted => self.next_request(now),
            RunEvent::Registered(r) => {
                if let Some(x) = r {
                    self.observed = x.observed_addr;
                }
                self.phase = RunPhase::Pausing;
                RunAction::SleepSecs(5)
            },
            RunEvent::Beaten(r) => {
                if let Some(x) = r {
                    self.observed = x.observed_addr;
                }
                self.last_heartbeat = now;
                self.phase = RunPhase::Polling;
                RunAction::Poll
            },
        }
    }
}

} // verus!
