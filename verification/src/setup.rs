//! First-run wizard for turning this machine into a host, without a
//! terminal: find Apollo, check its web credentials, choose a password,
//! register, done. And the runner of the host agent inside the desktop process.

use vstd::prelude::*;
use crate::host_config::{is_salt, Config, ConfigView, MIN_PASSWORD_LEN};
use crate::proto::{clone_text, h1_of};
use crate::text::{
    byte_len, cat2, chars, ends_with, first_chars, has_prefix, has_suffix, is_empty, slice_text,
    starts_with, take_chars, text_view, trim, trim_end_matches, trimmed, utf8, without_last,
};

verus! {

#[derive(Debug, PartialEq, Eq)]
pub enum ApolloProbe {
    Unknown,
    Checking,
    /// Web UI answered; `first_run` means it still wants /welcome credentials.
    Found { first_run: bool },
    NotFound(String),
}

/// What an [`ApolloProbe`] holds.
pub enum ApolloProbeView {
    Unknown,
    Checking,
    Found { first_run: bool },
    NotFound(Seq<char>),
}

impl View for ApolloProbe {
    type V = ApolloProbeView;

    open spec fn view(&self) -> ApolloProbeView {
        match *self {
            ApolloProbe::Unknown => ApolloProbeView::Unknown,
            ApolloProbe::Checking => ApolloProbeView::Checking,
            ApolloProbe::Found { first_run } => ApolloProbeView::Found { first_run },
            ApolloProbe::NotFound(s) => ApolloProbeView::NotFound(s@),
        }
    }
}

impl Clone for ApolloProbe {
    fn clone(&self) -> (r: Self)
        ensures
            r == *self,
    {
        match self {
            ApolloProbe::Unknown => ApolloProbe::Unknown,
            ApolloProbe::Checking => ApolloProbe::Checking,
            ApolloProbe::Found { first_run } => ApolloProbe::Found { first_run: *first_run },
            ApolloProbe::NotFound(s) => ApolloProbe::NotFound(s.clone()),
        }
    }
}

/// What came of asking for Apollo's web UI.
#[derive(Debug)]
pub enum WebUiAnswer {
    /// It answered; then the path that its start page led to, where that answered
    /// too.
    Answered { start_path: Option<String> },
    /// It answered with another status, in words.
    Status(String),
    /// Nothing is listening there.
    NoConnection,
    /// Another error, in words.
    Failed(String),
}

/// What an answer of Apollo's web UI means.
pub open spec fn probe_of(a: WebUiAnswer) -> ApolloProbeView {
    match a {
        WebUiAnswer::Answered { start_path } => ApolloProbeView::Found {
            first_run: match start_path {
                Some(p) => has_prefix(p@, "/welcome"@),
                None => false,
            },
        },
        WebUiAnswer::Status(s) => ApolloProbeView::NotFound("web UI answered "@ + s@),
        WebUiAnswer::NoConnection => ApolloProbeView::NotFound(
            "nothing is listening; is Apollo installed and running?"@,
        ),
        WebUiAnswer::Failed(e) => ApolloProbeView::NotFound(e@),
    }
}

/// What an answer of Apollo's web UI means.
pub fn probe_result(a: WebUiAnswer) -> (r: ApolloProbe)
    ensures
        r@ == probe_of(a),
{
    match a {
        WebUiAnswer::Answered { start_path } => {
            // Apollo redirects to /welcome while no username is set.
            let first_run = match start_path {
                Some(p) => starts_with(p.as_str(), "/welcome"),
                None => false,
            };
            ApolloProbe::Found { first_run }
        },
        WebUiAnswer::Status(s) => ApolloProbe::NotFound(cat2("web UI answered ", s.as_str())),
        WebUiAnswer::NoConnection => ApolloProbe::NotFound(
            "nothing is listening; is Apollo installed and running?".to_owned(),
        ),
        WebUiAnswer::Failed(e) => ApolloProbe::NotFound(e),
    }
}

/// The page that shows whether Apollo's web UI answers; it needs no auth.
pub fn probe_url(url: &str) -> (r: String)
    ensures
        r@ == without_last(url@, '/') + "/api/configLocale"@,
{
    let base = trim_end_matches(url, '/');
    cat2(base.as_str(), "/api/configLocale")
}

/// The start page of Apollo's web UI.
pub fn start_url(url: &str) -> (r: String)
    ensures
        r@ == without_last(url@, '/') + "/"@,
{
    let base = trim_end_matches(url, '/');
    cat2(base.as_str(), "/")
}

pub struct Wizard {
    pub rendezvous_url: String,
    pub apollo_url: String,
    pub apollo_username: String,
    pub apollo_password: String,
    pub host_name: String,
    pub access_password: String,
    pub show_access_password: bool,
    pub probe: ApolloProbe,
    pub creds_ok: Option<Result<String, String>>,
    pub error: Option<String>,
    pub busy: bool,
}

/// What a [`Wizard`] holds.
#[verifier::ext_equal]
pub struct WizardView {
    pub rendezvous_url: Seq<char>,
    pub apollo_url: Seq<char>,
    pub apollo_username: Seq<char>,
    pub apollo_password: Seq<char>,
    pub host_name: Seq<char>,
    pub access_password: Seq<char>,
    pub show_access_password: bool,
    pub probe: ApolloProbeView,
    pub creds_ok: Option<Result<Seq<char>, Seq<char>>>,
    pub error: Option<Seq<char>>,
    pub busy: bool,
}

/// What a result in words holds.
pub open spec fn words_result(r: Result<String, String>) -> Result<Seq<char>, Seq<char>> {
    match r {
        Ok(s) => Ok(s@),
        Err(e) => Err(e@),
    }
}

/// What an optional result in words holds.
pub open spec fn creds_view(c: Option<Result<String, String>>) -> Option<
    Result<Seq<char>, Seq<char>>,
> {
    match c {
        Some(r) => Some(words_result(r)),
        None => None,
    }
}

impl View for Wizard {
    type V = WizardView;

    open spec fn view(&self) -> WizardView {
        WizardView {
            rendezvous_url: self.rendezvous_url@,
            apollo_url: self.apollo_url@,
            apollo_username: self.apollo_username@,
            apollo_password: self.apollo_password@,
            host_name: self.host_name@,
            access_password: self.access_password@,
            show_access_password: self.show_access_password,
            probe: self.probe@,
            creds_ok: creds_view(self.creds_ok),
            error: text_view(self.error),
            busy: self.busy,
        }
    }
}

impl Clone for Wizard {
    fn clone(&self) -> (r: Self)
        ensures
            r@ == self@,
    {
        Wizard {
            rendezvous_url: self.rendezvous_url.clone(),
            apollo_url: self.apollo_url.clone(),
            apollo_username: self.apollo_username.clone(),
            apollo_password: self.apollo_password.clone(),
            host_name: self.host_name.clone(),
            access_password: self.access_password.clone(),
            show_access_password: self.show_access_password,
            probe: self.probe.clone(),
            creds_ok: match &self.creds_ok {
                Some(Ok(s)) => Some(Ok(s.clone())),
                Some(Err(e)) => Some(Err(e.clone())),
                None => None,
            },
            error: clone_text(&self.error),
            busy: self.busy,
        }
    }
}

/// `s` without any number of `.local` at its end.
pub open spec fn without_local(s: Seq<char>) -> Seq<char>
    decreases s.len(),
{
    if has_suffix(s, ".local"@) && ".local"@.len() > 0 {
        without_local(s.take(s.len() - ".local"@.len()))
    } else {
        s
    }
}

/// `s` without any number of `.local` at its end.
fn trim_local(s: String) -> (r: String)
    ensures
        r@ == without_local(s@),
    decreases s@.len(),
{
    proof {
        reveal_strlit(".local");
    }
    if !ends_with(s.as_str(), ".local") {
        return s;
    }
    let v = chars(s.as_str());
    let cut = slice_text(v.as_slice(), 0, v.len() - 6);
    assert(cut@ =~= s@.take(s@.len() - 6));
    trim_local(cut)
}

/// A wizard that has just been opened.
pub open spec fn fresh_wizard(
    rendezvous_url: Seq<char>,
    host_name: Option<Seq<char>>,
    access_password: Seq<char>,
) -> WizardView {
    WizardView {
        rendezvous_url,
        apollo_url: "https://127.0.0.1:47990"@,
        apollo_username: Seq::empty(),
        apollo_password: Seq::empty(),
        host_name: match host_name {
            Some(h) => without_local(h),
            None => "My PC"@,
        },
        access_password,
        show_access_password: true,
        probe: ApolloProbeView::Unknown,
        creds_ok: None,
        error: None,
        busy: false,
    }
}

impl WizardView {
    /// Whether the wizard can be finished.
    pub open spec fn ready(self) -> bool {
        !self.busy && utf8(self.access_password).len() >= MIN_PASSWORD_LEN
            && self.apollo_username.len() > 0 && self.rendezvous_url.len() > 0
    }

    /// The host's name: the one that was typed, cut to 64 characters, where it is
    /// not blank.
    pub open spec fn chosen_name(self, default: Seq<char>) -> Seq<char> {
        if trimmed(self.host_name).len() == 0 {
            default
        } else {
            first_chars(trimmed(self.host_name), 64)
        }
    }
}

impl Wizard {
    pub fn new(rendezvous_url: String, host_name: Option<String>, access_password: String) -> (r: Self)
        ensures
            r@ == fresh_wizard(rendezvous_url@, text_view(host_name), access_password@),
    {
        let name = match host_name {
            Some(h) => trim_local(h),
            None => "My PC".to_owned(),
        };
        let r = Wizard {
            rendezvous_url,
            apollo_url: "https://127.0.0.1:47990".to_owned(),
            apollo_username: String::new(),
            apollo_password: String::new(),
            host_name: name,
            access_password,
            show_access_password: true,
            probe: ApolloProbe::Unknown,
            creds_ok: None,
            error: None,
            busy: false,
        };
        proof {
            reveal_strlit("");
            assert(r@.apollo_username =~= Seq::empty());
            assert(r@.apollo_password =~= Seq::empty());
        }
        r
    }

    /// A wizard that starts from the settings of a host.
    pub fn for_config(cfg: &Config, access_password: String) -> (r: Self)
        ensures
            r@ == (WizardView {
                apollo_url: cfg@.apollo_url,
                apollo_username: cfg@.apollo_username,
                apollo_password: cfg@.apollo_password,
                host_name: cfg@.name,
                ..fresh_wizard(cfg@.rendezvous_url, None, access_password@)
            }),
    {
        let mut w = Wizard::new(cfg.rendezvous_url.clone(), None, access_password);
        w.apollo_url = cfg.apollo_url.clone();
        w.apollo_username = cfg.apollo_username.clone();
        w.apollo_password = cfg.apollo_password.clone();
        w.host_name = cfg.name.clone();
        w
    }

    /// Whether the login can be tested.
    pub fn can_test_login(&self) -> (r: bool)
        ensures
            r == (!self@.busy && self@.apollo_username.len() > 0),
    {
        !self.busy && !is_empty(self.apollo_username.as_str())
    }

    /// Whether the wizard can be finished.
    pub fn ready(&self) -> (r: bool)
        ensures
            r == self@.ready(),
    {
        !self.busy && byte_len(self.access_password.as_str()) >= MIN_PASSWORD_LEN && !is_empty(
            self.apollo_username.as_str(),
        ) && !is_empty(self.rendezvous_url.as_str())
    }

    /// The host's settings that the wizard was filled in for; `machine_name` is
    /// what the machine is called.
    pub fn host_config(&self, machine_name: Option<String>) -> (r: Config)
        ensures
            r@.rendezvous_url == self@.rendezvous_url,
            r@.apollo_username == self@.apollo_username,
            r@.apollo_password == self@.apollo_password,
            r@.apollo_url == self@.apollo_url,
            r@.id is None,
            r@.name == self@.chosen_name(
                match machine_name {
                    Some(n) => n@,
                    None => "Apollo Host"@,
                },
            ),
            is_salt(r@.password_salt),
            r@.password_h1 == Some(h1_of(self@.access_password, r@.password_salt)),
            r@ == (ConfigView {
                apollo_url: r@.apollo_url,
                name: r@.name,
                password_h1: r@.password_h1,
                ..crate::host_config::default_config(
                    self@.rendezvous_url,
                    self@.apollo_username,
                    self@.apollo_password,
                    text_view(machine_name),
                    r@.token,
                    r@.password_salt,
                )
            }),
    {
        let mut cfg = Config::new_default(
            self.rendezvous_url.clone(),
            self.apollo_username.clone(),
            self.apollo_password.clone(),
            machine_name,
        );
        cfg.apollo_url = self.apollo_url.clone();
        let name = trim(self.host_name.as_str());
        if !is_empty(name.as_str()) {
            cfg.name = take_chars(name.as_str(), 64);
        }
        cfg.set_password(self.access_password.as_str());
        cfg
    }

    /// The line below the login button, and whether it is good news; `None` before
    /// the login was tested.
    pub fn login_line(&self) -> (r: Option<(bool, String)>)
        ensures
            match self@.creds_ok {
                None => r is None,
                Some(Ok(name)) => r matches Some(l) && l.0 && l.1@ == (if name.len() == 0 {
                    "✓ logged in"@
                } else {
                    "✓ logged in to "@ + name
                }),
                Some(Err(e)) => r matches Some(l) && !l.0 && l.1@ == "✗ "@ + e,
            },
    {
        match &self.creds_ok {
            None => None,
            Some(Ok(name)) => {
                if is_empty(name.as_str()) {
                    return Some((true, "✓ logged in".to_owned()));
                }
                Some((true, cat2("✓ logged in to ", name.as_str())))
            },
            Some(Err(e)) => Some((false, cat2("✗ ", e.as_str()))),
        }
    }
}

// ---------------------------------------------------------------------------
// The agent inside the desktop process
// ---------------------------------------------------------------------------

/// Loopback port used purely as a cross-process mutex.
pub const LOCK_PORT: u16 = 21116;

/// Seconds before a failed agent is started again.
pub const RESTART_SECS: u64 = 10;

#[derive(Debug, PartialEq, Eq)]
pub enum AgentState {
    /// No host config on this machine.
    NotConfigured,
    Stopped,
    /// Running inside this process.
    Running,
    /// Another process (the headless service) holds the lock.
    RunningElsewhere,
    Failed(String),
}

/// What an [`AgentState`] holds.
pub enum AgentStateView {
    NotConfigured,
    Stopped,
    Running,
    RunningElsewhere,
    Failed(Seq<char>),
}

impl View for AgentState {
    type V = AgentStateView;

    open spec fn view(&self) -> AgentStateView {
        match *self {
            AgentState::NotConfigured => AgentStateView::NotConfigured,
            AgentState::Stopped => AgentStateView::Stopped,
            AgentState::Running => AgentStateView::Running,
            AgentState::RunningElsewhere => AgentStateView::RunningElsewhere,
            AgentState::Failed(e) => AgentStateView::Failed(e@),
        }
    }
}

impl Clone for AgentState {
    fn clone(&self) -> (r: Self)
        ensures
            r == *self,
    {
        match self {
            AgentState::NotConfigured => AgentState::NotConfigured,
            AgentState::Stopped => AgentState::Stopped,
            AgentState::Running => AgentState::Running,
            AgentState::RunningElsewhere => AgentState::RunningElsewhere,
            AgentState::Failed(e) => AgentState::Failed(e.clone()),
        }
    }
}

/// What to do on the way to a running agent.
#[derive(Debug, Clone, Copy, PartialEq, Eq, Structural)]
pub enum StartAction {
    Nothing,
    /// Take the lock.
    TakeLock,
    /// Start the agent's task.
    Spawn,
}

/// What to do when the agent's task has come to an end.
#[derive(Debug, Clone, Copy, PartialEq, Eq, Structural)]
pub enum EndAction {
    /// Leave it.
    Leave,
    /// Start it again after so many seconds.
    RestartAfter(u64),
}

/// Runs the host agent inside this process, guarded by a local port so the GUI and
/// a background `--headless` service never register twice.
pub struct AgentRunner {
    state: AgentState,
    /// Whether the agent's task exists.
    task: bool,
    /// Whether this process holds the lock.
    lock: bool,
}

/// What an [`AgentRunner`] holds.
#[verifier::ext_equal]
pub struct AgentRunnerView {
    pub state: AgentStateView,
    pub task: bool,
    pub lock: bool,
}

impl View for AgentRunner {
    type V = AgentRunnerView;

    closed spec fn view(&self) -> AgentRunnerView {
        AgentRunnerView { state: self.state@, task: self.task, lock: self.lock }
    }
}

impl AgentRunnerView {
    /// The task runs only under the lock.
    pub open spec fn wf(self) -> bool {
        self.task ==> self.lock
    }
}

impl AgentRunner {
    pub fn new() -> (r: Self)
        ensures
            r@ == (AgentRunnerView { state: AgentStateView::Stopped, task: false, lock: false }),
            r@.wf(),
    {
        AgentRunner { state: AgentState::Stopped, task: false, lock: false }
    }

    pub fn state(&self) -> (r: AgentState)
        ensures
            r@ == self@.state,
    {
        self.state.clone()
    }

    /// There is no host config on this machine.
    pub fn set_not_configured(&mut self)
        ensures
            final(self)@ == (AgentRunnerView {
                state: AgentStateView::NotConfigured,
                ..old(self)@
            }),
    {
        self.state = AgentState::NotConfigured;
    }

    /// Start the agent if a host config exists and nobody else runs it: the first
    /// thing to do.
    pub fn start(&mut self, cfg: Option<&Config>) -> (r: StartAction)
        ensures
            r == (if old(self)@.task || cfg is None || cfg->0@.password_h1 is None {
                StartAction::Nothing
            } else {
                StartAction::TakeLock
            }),
            final(self)@ == (AgentRunnerView {
                state: if old(self)@.task {
                    old(self)@.state
                } else if cfg is None {
                    AgentStateView::NotConfigured
                } else if cfg->0@.password_h1 is None {
                    AgentStateView::Failed("no access password set"@)
                } else {
                    old(self)@.state
                },
                ..old(self)@
            }),
            old(self)@.wf() ==> final(self)@.wf(),
    {
        if self.task {
            return StartAction::Nothing;
        }
        match cfg {
            None => {
                self.state = AgentState::NotConfigured;
                StartAction::Nothing
            },
            Some(c) => {
                if c.password_h1.is_none() {
                    self.state = AgentState::Failed("no access password set".to_owned());
                    return StartAction::Nothing;
                }
                StartAction::TakeLock
            },
        }
    }

    /// The lock was taken, or not.
    pub fn on_lock(&mut self, taken: bool) -> (r: StartAction)
        ensures
            r == (if taken {
                StartAction::Spawn
            } else {
                StartAction::Nothing
            }),
            final(self)@ == (if taken {
                AgentRunnerView { state: AgentStateView::Running, task: true, lock: true }
            } else {
                AgentRunnerView { state: AgentStateView::RunningElsewhere, ..old(self)@ }
            }),
            old(self)@.wf() ==> final(self)@.wf(),
    {
        if !taken {
            self.state = AgentState::RunningElsewhere;
            return StartAction::Nothing;
        }
        self.lock = true;
        self.state = AgentState::Running;
        self.task = true;
        StartAction::Spawn
    }

    /// The agent came to an end.
    pub fn on_end(&mut self, r: Result<(), String>) -> (a: EndAction)
        ensures
            match r {
                Ok(_) => a == EndAction::Leave && final(self)@ == old(self)@,
                Err(e) => {
                    &&& a == EndAction::RestartAfter(RESTART_SECS)
                    &&& final(self)@ == (AgentRunnerView {
                        state: AgentStateView::Failed(e@),
                        ..old(self)@
                    })
                },
            },
    {
        match r {
            Ok(_) => EndAction::Leave,
            Err(e) => {
                self.state = AgentState::Failed(e);
                EndAction::RestartAfter(RESTART_SECS)
            },
        }
    }

    /// The agent is started again.
    pub fn on_restart(&mut self)
        ensures
            final(self)@ == (AgentRunnerView { state: AgentStateView::Running, ..old(self)@ }),
    {
        self.state = AgentState::Running;
    }

    /// The task and the lock are given up.
    pub fn stop(&mut self)
        ensures
            final(self)@ == (AgentRunnerView {
                state: AgentStateView::Stopped,
                task: false,
                lock: false,
            }),
            final(self)@.wf(),
    {
        self.task = false;
        self.lock = false;
        self.state = AgentState::Stopped;
    }

    /// Restart to pick up a changed config (new password, name, ...): the first
    /// thing to do after the task was stopped.
    pub fn restart(&mut self, cfg: Option<&Config>) -> (r: StartAction)
        ensures
            r == (if cfg is None || cfg->0@.password_h1 is None {
                StartAction::Nothing
            } else {
                StartAction::TakeLock
            }),
            final(self)@ == (AgentRunnerView {
                state: if cfg is None {
                    AgentStateView::NotConfigured
                } else if cfg->0@.password_h1 is None {
                    AgentStateView::Failed("no access password set"@)
                } else {
                    AgentStateView::Stopped
                },
                task: false,
                lock: false,
            }),
            final(self)@.wf(),
    {
        self.stop();
        self.start(cfg)
    }
}

} // verus!
