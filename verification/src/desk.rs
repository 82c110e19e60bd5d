//! The state of the desktop window: one app that is both the host and the client.
//!
//! * Left, "Your Desktop": this machine's 9-digit ID and access password.
//!   The host agent runs inside this process (or as a background service
//!   installed with one click), so nobody has to open a terminal.
//! * Right, "Control Remote Desktop": ID + password → Connect. Pairing goes
//!   through the rendezvous server; the video is the stock Moonlight window.

use vstd::prelude::*;
use vstd::string::StringExecFns;
use crate::agent::{pretty, pretty_id, rendezvous_url};
use crate::client_config::{ClientConfig, ClientConfigView};
use crate::host_config::{Config, ConfigView};
use crate::proto::{clone_text, h1_of, valid_id};
use crate::session::{digits_of, unit_result, Event, EventView, Session};
use crate::setup::{
    words_result, AgentState, AgentStateView, ApolloProbe, ApolloProbeView, Wizard, WizardView,
};
use crate::text::{
    cat2, cat3, clone_texts, contains, has_part, is_empty, text_view, texts, trim, trimmed,
};

verus! {

/// A connection that is ready to stream.
#[derive(Debug)]
pub struct Prepared {
    /// The ID of the host.
    pub id: String,
    /// What the host calls itself.
    pub name: String,
    /// Where Moonlight finds it.
    pub host: String,
    pub app: String,
    /// The apps that the host has.
    pub apps: Vec<String>,
}

/// What a [`Prepared`] holds.
#[verifier::ext_equal]
pub struct PreparedView {
    pub id: Seq<char>,
    pub name: Seq<char>,
    pub host: Seq<char>,
    pub app: Seq<char>,
    pub apps: Seq<Seq<char>>,
}

impl View for Prepared {
    type V = PreparedView;

    open spec fn view(&self) -> PreparedView {
        PreparedView {
            id: self.id@,
            name: self.name@,
            host: self.host@,
            app: self.app@,
            apps: texts(self.apps@),
        }
    }
}

impl Clone for Prepared {
    fn clone(&self) -> (r: Self)
        ensures
            r@ == self@,
    {
        Prepared {
            id: self.id.clone(),
            name: self.name.clone(),
            host: self.host.clone(),
            app: self.app.clone(),
            apps: clone_texts(&self.apps),
        }
    }
}

/// What an optional connection holds.
pub open spec fn prepared_view(p: Option<Prepared>) -> Option<PreparedView> {
    match p {
        Some(x) => Some(x@),
        None => None,
    }
}

/// The settings of the host on this machine, with what only the window knows.
pub struct HostProfile {
    pub config: Config,
    /// The access password, where it may be shown.
    pub password_display: Option<String>,
    /// Whether the agent starts with the window.
    pub autostart_agent: bool,
}

/// What a [`HostProfile`] holds.
#[verifier::ext_equal]
pub struct HostProfileView {
    pub config: ConfigView,
    pub password_display: Option<Seq<char>>,
    pub autostart_agent: bool,
}

impl View for HostProfile {
    type V = HostProfileView;

    open spec fn view(&self) -> HostProfileView {
        HostProfileView {
            config: self.config@,
            password_display: text_view(self.password_display),
            autostart_agent: self.autostart_agent,
        }
    }
}

impl Clone for HostProfile {
    fn clone(&self) -> (r: Self)
        ensures
            r@ == self@,
    {
        HostProfile {
            config: self.config.clone(),
            password_display: clone_text(&self.password_display),
            autostart_agent: self.autostart_agent,
        }
    }
}

/// How long a stream runs on before it is looked at again, in milliseconds.
pub const STREAM_LOOK_MILLIS: u64 = 500;

/// What a look at a stream shows.
#[derive(Debug)]
pub enum StreamLook {
    /// It was ended from here.
    Gone,
    Running,
    /// It ended by itself, with this status.
    Exited(String),
    /// The look failed.
    Failed(String),
}

/// What a [`StreamLook`] holds.
pub enum StreamLookView {
    Gone,
    Running,
    Exited(Seq<char>),
    Failed(Seq<char>),
}

impl View for StreamLook {
    type V = StreamLookView;

    open spec fn view(&self) -> StreamLookView {
        match *self {
            StreamLook::Gone => StreamLookView::Gone,
            StreamLook::Running => StreamLookView::Running,
            StreamLook::Exited(s) => StreamLookView::Exited(s@),
            StreamLook::Failed(e) => StreamLookView::Failed(e@),
        }
    }
}

/// How the watch over a stream goes on.
#[derive(Debug)]
pub enum StreamWatch {
    /// Nobody waits for it any more.
    Stop,
    /// Look again after [`STREAM_LOOK_MILLIS`].
    LookAgain,
    /// Forget the stream and report its end in these words.
    Report(String),
}

/// What a [`StreamWatch`] holds.
pub enum StreamWatchView {
    Stop,
    LookAgain,
    Report(Seq<char>),
}

impl View for StreamWatch {
    type V = StreamWatchView;

    open spec fn view(&self) -> StreamWatchView {
        match *self {
            StreamWatch::Stop => StreamWatchView::Stop,
            StreamWatch::LookAgain => StreamWatchView::LookAgain,
            StreamWatch::Report(s) => StreamWatchView::Report(s@),
        }
    }
}

/// How the watch over a stream goes on after a look at it.
pub fn watch_stream(look: StreamLook) -> (r: StreamWatch)
    ensures
        r@ == (match look@ {
            StreamLookView::Gone => StreamWatchView::Stop,
            StreamLookView::Running => StreamWatchView::LookAgain,
            StreamLookView::Exited(s) => StreamWatchView::Report("stream ended ("@ + s + ")"@),
            StreamLookView::Failed(e) => StreamWatchView::Report("wait failed: "@ + e),
        }),
{
    match look {
        StreamLook::Gone => StreamWatch::Stop,
        StreamLook::Running => StreamWatch::LookAgain,
        StreamLook::Exited(s) => StreamWatch::Report(cat3("stream ended (", s.as_str(), ")")),
        StreamLook::Failed(e) => StreamWatch::Report(cat2("wait failed: ", e.as_str())),
    }
}

/// A message to the window from work in the background.
#[derive(Debug)]
pub enum Msg {
    Event(Event),
    Prepared(Prepared),
    StreamEnded(String),
    HostOnline(Option<bool>),
    Error(String),
    Log(String),
    Probe(ApolloProbe),
    Creds(Result<String, String>),
    SetupDone(Result<String, String>),
    PasswordChanged(Result<(), String>),
}

/// What a [`Msg`] holds.
pub enum MsgView {
    Event(EventView),
    Prepared(PreparedView),
    StreamEnded(Seq<char>),
    HostOnline(Option<bool>),
    Error(Seq<char>),
    Log(Seq<char>),
    Probe(ApolloProbeView),
    Creds(Result<Seq<char>, Seq<char>>),
    SetupDone(Result<Seq<char>, Seq<char>>),
    PasswordChanged(Result<(), Seq<char>>),
}

impl View for Msg {
    type V = MsgView;

    open spec fn view(&self) -> MsgView {
        match *self {
            Msg::Event(e) => MsgView::Event(e@),
            Msg::Prepared(p) => MsgView::Prepared(p@),
            Msg::StreamEnded(s) => MsgView::StreamEnded(s@),
            Msg::HostOnline(o) => MsgView::HostOnline(o),
            Msg::Error(e) => MsgView::Error(e@),
            Msg::Log(s) => MsgView::Log(s@),
            Msg::Probe(p) => MsgView::Probe(p@),
            Msg::Creds(r) => MsgView::Creds(words_result(r)),
            Msg::SetupDone(r) => MsgView::SetupDone(words_result(r)),
            Msg::PasswordChanged(r) => MsgView::PasswordChanged(unit_result(r)),
        }
    }
}

/// What has to be done outside the window's state after a message.
#[derive(Debug)]
pub enum DeskAction {
    Nothing,
    /// Read the client's settings again and start the stream.
    Stream(Prepared),
    /// Read the host's settings again and start the agent.
    StartHost,
}

/// What a [`DeskAction`] holds.
pub enum DeskActionView {
    Nothing,
    Stream(PreparedView),
    StartHost,
}

impl View for DeskAction {
    type V = DeskActionView;

    open spec fn view(&self) -> DeskActionView {
        match *self {
            DeskAction::Nothing => DeskActionView::Nothing,
            DeskAction::Stream(p) => DeskActionView::Stream(p@),
            DeskAction::StartHost => DeskActionView::StartHost,
        }
    }
}

/// A connection to set up.
#[derive(Debug)]
pub struct ConnectJob {
    pub id: String,
    pub password: Option<String>,
    pub app: Option<String>,
    pub remember: bool,
}

/// What a [`ConnectJob`] holds.
#[verifier::ext_equal]
pub struct ConnectJobView {
    pub id: Seq<char>,
    pub password: Option<Seq<char>>,
    pub app: Option<Seq<char>>,
    pub remember: bool,
}

impl View for ConnectJob {
    type V = ConnectJobView;

    open spec fn view(&self) -> ConnectJobView {
        ConnectJobView {
            id: self.id@,
            password: text_view(self.password),
            app: text_view(self.app),
            remember: self.remember,
        }
    }
}

/// The window's state.
pub struct Desk {
    pub host_profile: Option<HostProfile>,
    pub host_online: Option<bool>,
    pub autostart: bool,
    pub wizard: Option<Wizard>,
    pub show_host_password: bool,
    pub remote_id: String,
    pub remote_password: String,
    pub remote_app: String,
    pub remember: bool,
    pub busy: bool,
    pub need_password: bool,
    pub log: Vec<String>,
    /// Whether a stream is on.
    pub streaming: bool,
    pub current: Option<Prepared>,
    /// When, in milliseconds, the host's state was last asked for.
    pub last_host_poll: Option<u64>,
    pub settings_open: bool,
    pub settings_rendezvous: String,
}

/// What a [`Desk`] holds.
#[verifier::ext_equal]
pub struct DeskView {
    pub host_profile: Option<HostProfileView>,
    pub host_online: Option<bool>,
    pub autostart: bool,
    pub wizard: Option<WizardView>,
    pub show_host_password: bool,
    pub remote_id: Seq<char>,
    pub remote_password: Seq<char>,
    pub remote_app: Seq<char>,
    pub remember: bool,
    pub busy: bool,
    pub need_password: bool,
    pub log: Seq<Seq<char>>,
    pub streaming: bool,
    pub current: Option<PreparedView>,
    pub last_host_poll: Option<u64>,
    pub settings_open: bool,
    pub settings_rendezvous: Seq<char>,
}

/// What an optional profile holds.
pub open spec fn profile_view(p: Option<HostProfile>) -> Option<HostProfileView> {
    match p {
        Some(x) => Some(x@),
        None => None,
    }
}

/// What an optional wizard holds.
pub open spec fn wizard_view(w: Option<Wizard>) -> Option<WizardView> {
    match w {
        Some(x) => Some(x@),
        None => None,
    }
}

impl View for Desk {
    type V = DeskView;

    open spec fn view(&self) -> DeskView {
        DeskView {
            host_profile: profile_view(self.host_profile),
            host_online: self.host_online,
            autostart: self.autostart,
            wizard: wizard_view(self.wizard),
            show_host_password: self.show_host_password,
            remote_id: self.remote_id@,
            remote_password: self.remote_password@,
            remote_app: self.remote_app@,
            remember: self.remember,
            busy: self.busy,
            need_password: self.need_password,
            log: texts(self.log@),
            streaming: self.streaming,
            current: prepared_view(self.current),
            last_host_poll: self.last_host_poll,
            settings_open: self.settings_open,
            settings_rendezvous: self.settings_rendezvous@,
        }
    }
}

/// The most lines that the log holds.
pub const LOG_LINES: usize = 200;

/// How many lines are dropped when it would hold more.
pub const LOG_DROP: usize = 100;

/// A log with one more line.
pub open spec fn logged(log: Seq<Seq<char>>, line: Seq<char>) -> Seq<Seq<char>> {
    let l = log.push(line);
    if l.len() > LOG_LINES {
        l.skip(LOG_DROP as int)
    } else {
        l
    }
}

impl DeskView {
    /// The log is not too long.
    pub open spec fn wf(self) -> bool {
        self.log.len() <= LOG_LINES
    }

    /// With one more line in the log.
    pub open spec fn with_log(self, line: Seq<char>) -> DeskView {
        DeskView { log: logged(self.log, line), ..self }
    }

    /// With the wizard changed, where one is open.
    pub open spec fn with_wizard(self, w: WizardView) -> DeskView {
        DeskView { wizard: Some(w), ..self }
    }

    /// What a message does.
    pub open spec fn on_msg(self, m: MsgView) -> (DeskView, DeskActionView) {
        match m {
            MsgView::Event(e) => (self.with_log(e.desk_words()), DeskActionView::Nothing),
            MsgView::Prepared(p) => (
                DeskView { remote_password: Seq::empty(), remote_app: p.app, ..self },
                DeskActionView::Stream(p),
            ),
            MsgView::StreamEnded(s) => (
                DeskView { streaming: false, current: None, busy: false, ..self.with_log(s) },
                DeskActionView::Nothing,
            ),
            MsgView::HostOnline(o) => (
                DeskView { host_online: o, ..self },
                DeskActionView::Nothing,
            ),
            MsgView::Error(e) => (
                DeskView { busy: false, ..self.after_error(e) },
                DeskActionView::Nothing,
            ),
            MsgView::Log(s) => (self.with_log(s), DeskActionView::Nothing),
            MsgView::Probe(p) => (
                match self.wizard {
                    Some(w) => self.with_wizard(WizardView { probe: p, ..w }),
                    None => self,
                },
                DeskActionView::Nothing,
            ),
            MsgView::Creds(r) => (
                match self.wizard {
                    Some(w) => self.with_wizard(
                        WizardView {
                            busy: false,
                            creds_ok: Some(r),
                            host_name: match r {
                                Ok(name) => if name.len() > 0 && w.host_name.len() == 0 {
                                    name
                                } else {
                                    w.host_name
                                },
                                Err(_) => w.host_name,
                            },
                            ..w
                        },
                    ),
                    None => self,
                },
                DeskActionView::Nothing,
            ),
            MsgView::SetupDone(r) => match r {
                Ok(id) => (
                    DeskView {
                        wizard: None,
                        last_host_poll: None,
                        ..self.with_log("✓ this PC is now reachable as "@ + pretty(id))
                    },
                    DeskActionView::StartHost,
                ),
                Err(e) => (
                    match self.wizard {
                        Some(w) => self.with_wizard(
                            WizardView { busy: false, error: Some(e), ..w },
                        ),
                        None => self,
                    },
                    DeskActionView::Nothing,
                ),
            },
            MsgView::PasswordChanged(r) => (
                match r {
                    Ok(_) => self,
                    Err(e) => self.with_log(
                        "✗ saved locally, but the rendezvous server could not be updated: "@ + e,
                    ),
                },
                DeskActionView::Nothing,
            ),
        }
    }

    /// What an error of a connection leaves: a line, and a hint where a password
    /// would help.
    pub open spec fn after_error(self, e: Seq<char>) -> DeskView {
        if has_part(e, "password required"@) {
            (DeskView { need_password: true, ..self }).with_log(
                "this host needs a password — enter it and press Connect again"@,
            )
        } else if has_part(e, "wrong password"@) {
            (DeskView { need_password: true, ..self }).with_log("✗ wrong password"@)
        } else {
            self.with_log("✗ "@ + e)
        }
    }

    /// A press of Connect: the connection to set up, unless what was typed is no
    /// ID.
    pub open spec fn start_connect(self) -> (DeskView, Option<ConnectJobView>) {
        if !valid_id(digits_of(self.remote_id)) {
            (
                self.with_log(
                    "✗ "@ + ("'"@ + self.remote_id + "' is not a valid 9-digit ID"@),
                ),
                None,
            )
        } else {
            (
                DeskView { busy: true, need_password: false, log: Seq::empty(), ..self },
                Some(
                    ConnectJobView {
                        id: digits_of(self.remote_id),
                        password: if self.remote_password.len() == 0 {
                            None
                        } else {
                            Some(self.remote_password)
                        },
                        app: if trimmed(self.remote_app).len() == 0 {
                            None
                        } else {
                            Some(trimmed(self.remote_app))
                        },
                        remember: self.remember,
                    },
                ),
            )
        }
    }
}

impl Desk {
    /// A window that has just been opened.
    pub fn new(cfg: &ClientConfig, host_profile: Option<HostProfile>, autostart: bool) -> (r: Self)
        requires
            cfg.hosts.wf(),
        ensures
            r@ == (DeskView {
                host_profile: profile_view(host_profile),
                host_online: None,
                autostart,
                wizard: None,
                show_host_password: true,
                remote_id: r@.remote_id,
                remote_password: Seq::empty(),
                remote_app: match cfg@.host(r@.remote_id).last_app {
                    Some(a) => a,
                    None => "Desktop"@,
                },
                remember: true,
                busy: false,
                need_password: false,
                log: Seq::empty(),
                streaming: false,
                current: None,
                last_host_poll: None,
                settings_open: false,
                settings_rendezvous: cfg@.rendezvous_url,
            }),
            r@.wf(),
            cfg@.hosts.contains_key(r@.remote_id) || r@.remote_id.len() == 0,
            forall|id: Seq<char>| #[trigger]
                cfg@.hosts.contains_key(id) ==> id == r@.remote_id
                    || crate::client_config::comes_before(id, r@.remote_id),
    {
        let ids = cfg.host_ids();
        let ghost list = texts(ids@);
        let mut remote_id = String::new();
        proof {
            reveal_strlit("");
            assert(remote_id@ =~= Seq::empty());
        }
        if ids.len() > 0 {
            remote_id = ids[ids.len() - 1].clone();
            assert(list[list.len() - 1] == remote_id@);
            assert(list.contains(remote_id@));
        }
        proof {
            assert forall|id: Seq<char>| #[trigger] cfg@.hosts.contains_key(id) implies id
                == remote_id@ || crate::client_config::comes_before(id, remote_id@) by {
                assert(list.contains(id));
                let i = choose|i: int| 0 <= i < list.len() && list[i] == id;
                if i < list.len() - 1 {
                    assert(crate::client_config::comes_before(list[i], list[list.len() - 1]));
                }
            }
        }
        let known = cfg.host(remote_id.as_str());
        let remote_app = match known.last_app {
            Some(a) => a,
            None => "Desktop".to_owned(),
        };
        let r = Desk {
            host_profile,
            host_online: None,
            autostart,
            wizard: None,
            show_host_password: true,
            remote_id,
            remote_password: String::new(),
            remote_app,
            remember: true,
            busy: false,
            need_password: false,
            log: Vec::new(),
            streaming: false,
            current: None,
            last_host_poll: None,
            settings_open: false,
            settings_rendezvous: cfg.rendezvous_url.clone(),
        };
        proof {
            reveal_strlit("");
            assert(r@.remote_password =~= Seq::empty());
            assert(r@.log =~= Seq::empty());
        }
        r
    }

    pub fn push_log(&mut self, s: String)
        requires
            old(self)@.wf(),
        ensures
            final(self)@ == old(self)@.with_log(s@),
            final(self)@.wf(),
    {
        let ghost before = self@.log;
        let ghost line = s@;
        assert(before.len() == self.log@.len());
        self.log.push(s);
        assert(texts(self.log@) =~= before.push(line));
        if self.log.len() > LOG_LINES {
            let rest = self.log.split_off(LOG_DROP);
            self.log = rest;
            assert(texts(self.log@) =~= before.push(line).skip(LOG_DROP as int));
        }
    }

    // ----- client side -------------------------------------------------

    /// A press of Connect.
    pub fn start_connect(&mut self) -> (r: Option<ConnectJob>)
        requires
            old(self)@.wf(),
        ensures
            final(self)@ == old(self)@.start_connect().0,
            match r {
                Some(j) => old(self)@.start_connect().1 == Some(j@),
                None => old(self)@.start_connect().1 is None,
            },
            final(self)@.wf(),
    {
        let id = match Session::normalize_id(self.remote_id.as_str()) {
            Ok(id) => id,
            Err(e) => {
                self.push_log(cat2("✗ ", e.as_str()));
                return None;
            },
        };
        self.busy = true;
        self.need_password = false;
        self.log = Vec::new();
        assert(self@.log =~= Seq::empty());
        let password = if is_empty(self.remote_password.as_str()) {
            None
        } else {
            Some(self.remote_password.clone())
        };
        let trimmed_app = trim(self.remote_app.as_str());
        let app = if is_empty(trimmed_app.as_str()) {
            None
        } else {
            Some(trimmed_app)
        };
        Some(ConnectJob { id, password, app, remember: self.remember })
    }

    /// The stream of a connection was started.
    pub fn on_stream_started(&mut self, p: Prepared)
        requires
            old(self)@.wf(),
        ensures
            final(self)@ == (DeskView {
                streaming: true,
                current: Some(p@),
                ..old(self)@.with_log(
                    "▶ streaming \""@ + p@.app + "\" from "@ + p@.host,
                )
            }),
            final(self)@.wf(),
    {
        let mut line = cat3("▶ streaming \"", p.app.as_str(), "\" from ");
        line.append(p.host.as_str());
        self.push_log(line);
        self.streaming = true;
        self.current = Some(p);
    }

    /// The stream of a connection could not be started.
    pub fn on_stream_failed(&mut self, e: &str)
        requires
            old(self)@.wf(),
        ensures
            final(self)@ == (DeskView { busy: false, ..old(self)@.with_log("✗ "@ + e@) }),
            final(self)@.wf(),
    {
        self.push_log(cat2("✗ ", e));
        self.busy = false;
    }

    /// The user ends the stream; its process, if any, is to be killed.
    pub fn disconnect(&mut self)
        requires
            old(self)@.wf(),
        ensures
            final(self)@ == (DeskView {
                streaming: false,
                current: None,
                busy: false,
                ..old(self)@.with_log("■ disconnected"@)
            }),
            final(self)@.wf(),
    {
        self.streaming = false;
        self.current = None;
        self.busy = false;
        self.push_log("■ disconnected".to_owned());
    }

    /// The user wants another app of the same host: the stream ends and a new
    /// connection is set up.
    pub fn switch_app(&mut self, id: &str, app: &str) -> (r: Option<ConnectJob>)
        requires
            old(self)@.wf(),
        ensures
            ({
                let before = DeskView {
                    remote_app: app@,
                    remote_id: id@,
                    streaming: false,
                    current: None,
                    busy: false,
                    ..old(self)@.with_log("■ disconnected"@)
                };
                &&& final(self)@ == before.start_connect().0
                &&& match r {
                    Some(j) => before.start_connect().1 == Some(j@),
                    None => before.start_connect().1 is None,
                }
            }),
            final(self)@.wf(),
    {
        self.remote_app = app.to_owned();
        self.disconnect();
        self.remote_id = id.to_owned();
        self.start_connect()
    }

    /// The user picks a remembered host.
    pub fn pick_recent(&mut self, id: &str, app: Option<&str>)
        ensures
            final(self)@ == (DeskView {
                remote_id: id@,
                remote_app: match app {
                    Some(a) => a@,
                    None => old(self)@.remote_app,
                },
                ..old(self)@
            }),
            final(self).log == old(self).log,
    {
        self.remote_id = id.to_owned();
        if let Some(a) = app {
            self.remote_app = a.to_owned();
        }
    }

    // ----- host side ---------------------------------------------------

    /// Whether it is time to ask for the host's state again, and where: every ten
    /// seconds, for a host that is registered.
    pub fn poll_host_online(&mut self, now_millis: u64) -> (r: Option<String>)
        ensures
            ({
                let due = old(self)@.last_host_poll is None || now_millis
                    - old(self)@.last_host_poll->0 >= 10_000;
                &&& final(self)@ == (if due {
                    DeskView { last_host_poll: Some(now_millis), ..old(self)@ }
                } else {
                    old(self)@
                })
                &&& match old(self)@.host_profile {
                    Some(p) => match p.config.id {
                        Some(id) => if due {
                            text_view(r) == Some(
                                crate::agent::rendezvous_path(
                                    p.config.rendezvous_url,
                                    "/hosts/"@ + id,
                                ),
                            )
                        } else {
                            r is None
                        },
                        None => r is None,
                    },
                    None => r is None,
                }
            }),
            final(self).log == old(self).log,
    {
        if let Some(t) = self.last_host_poll {
            if now_millis < t || now_millis - t < 10_000 {
                return None;
            }
        }
        self.last_host_poll = Some(now_millis);
        match &self.host_profile {
            Some(p) => match &p.config.id {
                Some(id) => {
                    let path = cat2("/hosts/", id.as_str());
                    Some(rendezvous_url(p.config.rendezvous_url.as_str(), path.as_str()))
                },
                None => None,
            },
            None => None,
        }
    }

    /// The host's settings with another access password, which is shown or not.
    pub fn with_password(&self, password: &str, display: bool) -> (r: Option<HostProfile>)
        ensures
            match self@.host_profile {
                None => r is None,
                Some(p) => r matches Some(n) && {
                    let salt = n@.config.password_salt;
                    &&& crate::host_config::is_salt(salt)
                    &&& n@ == (HostProfileView {
                        config: ConfigView {
                            password_salt: salt,
                            password_h1: Some(h1_of(password@, salt)),
                            ..p.config
                        },
                        password_display: if display {
                            Some(password@)
                        } else {
                            None
                        },
                        ..p
                    })
                },
            },
    {
        match &self.host_profile {
            None => None,
            Some(p) => {
                let mut n = p.clone();
                n.config.set_password(password);
                n.password_display = if display {
                    Some(password.to_owned())
                } else {
                    None
                };
                Some(n)
            },
        }
    }

    /// New settings of the host were saved, or could not be.
    pub fn on_profile_saved(&mut self, profile: HostProfile, saved: Result<(), String>, ok_line: String)
        requires
            old(self)@.wf(),
        ensures
            match saved {
                Ok(_) => final(self)@ == (DeskView {
                    host_profile: Some(profile@),
                    ..old(self)@.with_log(ok_line@)
                }),
                Err(e) => final(self)@ == old(self)@.with_log("✗ "@ + e@),
            },
            final(self)@.wf(),
    {
        match saved {
            Ok(_) => {
                self.host_profile = Some(profile);
                self.push_log(ok_line);
            },
            Err(e) => {
                self.push_log(cat2("✗ ", e.as_str()));
            },
        }
    }

    /// The background service was installed (`on`) or removed, or could not be.
    /// Tells whether the agent of this process has to stop (`Some(false)`: the
    /// service owns it now) or to start (`Some(true)`).
    pub fn on_autostart(&mut self, on: bool, done: Result<(), String>) -> (r: Option<bool>)
        requires
            old(self)@.wf(),
        ensures
            match done {
                Ok(_) => {
                    &&& r == Some(!on)
                    &&& final(self)@ == (DeskView {
                        autostart: on,
                        ..old(self)@.with_log(
                            if on {
                                "✓ background service installed; it will keep this PC reachable after a reboot"@
                            } else {
                                "✓ background service removed; agent runs while this window is open"@
                            },
                        )
                    })
                },
                Err(e) => r is None && final(self)@ == old(self)@.with_log("✗ autostart: "@ + e@),
            },
            final(self)@.wf(),
    {
        match done {
            Ok(_) => {
                self.autostart = on;
                if on {
                    self.push_log(
                        "✓ background service installed; it will keep this PC reachable after a reboot".to_owned(),
                    );
                } else {
                    self.push_log(
                        "✓ background service removed; agent runs while this window is open".to_owned(),
                    );
                }
                Some(!on)
            },
            Err(e) => {
                self.push_log(cat2("✗ autostart: ", e.as_str()));
                None
            },
        }
    }

    // ----- wizard --------------------------------------------------------

    /// Apollo is to be looked for: where, if the wizard is open.
    pub fn wizard_probe(&mut self) -> (r: Option<String>)
        ensures
            match old(self)@.wizard {
                Some(w) => {
                    &&& text_view(r) == Some(w.apollo_url)
                    &&& final(self)@ == old(self)@.with_wizard(
                        WizardView { probe: ApolloProbeView::Checking, ..w },
                    )
                },
                None => r is None && final(self)@ == old(self)@,
            },
    {
        match &self.wizard {
            None => None,
            Some(w) => {
                let mut w2 = w.clone();
                let url = w2.apollo_url.clone();
                w2.probe = ApolloProbe::Checking;
                self.wizard = Some(w2);
                Some(url)
            },
        }
    }

    /// Apollo's credentials are to be tried: URL, user and password, if the wizard
    /// is open.
    pub fn wizard_test_creds(&mut self) -> (r: Option<(String, String, String)>)
        ensures
            match old(self)@.wizard {
                Some(w) => {
                    &&& r matches Some(c) && c.0@ == w.apollo_url && c.1@ == w.apollo_username
                        && c.2@ == w.apollo_password
                    &&& final(self)@ == old(self)@.with_wizard(WizardView { busy: true, ..w })
                },
                None => r is None && final(self)@ == old(self)@,
            },
    {
        match &self.wizard {
            None => None,
            Some(w) => {
                let mut w2 = w.clone();
                let creds = (
                    w2.apollo_url.clone(),
                    w2.apollo_username.clone(),
                    w2.apollo_password.clone(),
                );
                w2.busy = true;
                self.wizard = Some(w2);
                Some(creds)
            },
        }
    }

    /// The wizard's work is to be done, with what was filled in, if it is open.
    pub fn wizard_finish(&mut self) -> (r: Option<Wizard>)
        ensures
            match old(self)@.wizard {
                Some(w) => {
                    let at_work = WizardView { busy: true, error: None, ..w };
                    &&& wizard_view(r) == Some(at_work)
                    &&& final(self)@ == old(self)@.with_wizard(at_work)
                },
                None => r is None && final(self)@ == old(self)@,
            },
    {
        match &self.wizard {
            None => None,
            Some(w) => {
                let mut w2 = w.clone();
                w2.busy = true;
                w2.error = None;
                let job = w2.clone();
                self.wizard = Some(w2);
                Some(job)
            },
        }
    }

    /// The settings are saved: the rendezvous server that was typed.
    pub fn save_settings(&mut self) -> (r: String)
        requires
            old(self)@.wf(),
        ensures
            r@ == trimmed(old(self)@.settings_rendezvous),
            final(self)@ == old(self)@.with_log("✓ settings saved"@),
            final(self)@.wf(),
    {
        let url = trim(self.settings_rendezvous.as_str());
        self.push_log("✓ settings saved".to_owned());
        url
    }

    // ----- message pump ------------------------------------------------

    /// An error of a connection.
    fn on_error(&mut self, e: String)
        requires
            old(self)@.wf(),
        ensures
            final(self)@ == (DeskView { busy: false, ..old(self)@.after_error(e@) }),
            final(self)@.wf(),
    {
        if contains(e.as_str(), "password required") {
            self.need_password = true;
            self.push_log(
                "this host needs a password — enter it and press Connect again".to_owned(),
            );
        } else if contains(e.as_str(), "wrong password") {
            self.need_password = true;
            self.push_log("✗ wrong password".to_owned());
        } else {
            self.push_log(cat2("✗ ", e.as_str()));
        }
        self.busy = false;
    }

    /// A connection is ready to stream.
    fn on_prepared(&mut self, p: Prepared) -> (r: DeskAction)
        ensures
            (final(self)@, r@) == old(self)@.on_msg(MsgView::Prepared(p@)),
            final(self).log == old(self).log,
    {
        self.remote_password = String::new();
        self.remote_app = p.app.clone();
        proof {
            reveal_strlit("");
            assert(self@.remote_password =~= Seq::empty());
        }
        DeskAction::Stream(p)
    }

    /// The stream came to an end.
    fn on_stream_ended(&mut self, s: String)
        requires
            old(self)@.wf(),
        ensures
            final(self)@ == old(self)@.on_msg(MsgView::StreamEnded(s@)).0,
            final(self)@.wf(),
    {
        self.push_log(s);
        self.streaming = false;
        self.current = None;
        self.busy = false;
    }

    /// Apollo was looked for.
    fn on_probe(&mut self, p: ApolloProbe)
        ensures
            final(self)@ == old(self)@.on_msg(MsgView::Probe(p@)).0,
            final(self).log == old(self).log,
    {
        if let Some(w) = &self.wizard {
            let mut w2 = w.clone();
            w2.probe = p;
            self.wizard = Some(w2);
        }
    }

    /// Apollo's credentials were tried.
    fn on_creds(&mut self, r: Result<String, String>)
        ensures
            final(self)@ == old(self)@.on_msg(MsgView::Creds(words_result(r))).0,
            final(self).log == old(self).log,
    {
        if let Some(w) = &self.wizard {
            let mut w2 = w.clone();
            w2.busy = false;
            if let Ok(name) = &r {
                if !is_empty(name.as_str()) && is_empty(w2.host_name.as_str()) {
                    w2.host_name = name.clone();
                }
            }
            w2.creds_ok = Some(r);
            self.wizard = Some(w2);
        }
    }

    /// The wizard's work is done.
    fn on_setup_done(&mut self, r: Result<String, String>) -> (a: DeskAction)
        requires
            old(self)@.wf(),
        ensures
            (final(self)@, a@) == old(self)@.on_msg(MsgView::SetupDone(words_result(r))),
            final(self)@.wf(),
    {
        match r {
            Ok(id) => {
                self.wizard = None;
                self.last_host_poll = None;
                let shown = pretty_id(id.as_str());
                self.push_log(cat2("✓ this PC is now reachable as ", shown.as_str()));
                DeskAction::StartHost
            },
            Err(e) => {
                if let Some(w) = &self.wizard {
                    let mut w2 = w.clone();
                    w2.busy = false;
                    w2.error = Some(e);
                    self.wizard = Some(w2);
                }
                DeskAction::Nothing
            },
        }
    }

    /// The host's new password was registered, or could not be.
    fn on_password_changed(&mut self, r: Result<(), String>)
        requires
            old(self)@.wf(),
        ensures
            final(self)@ == old(self)@.on_msg(MsgView::PasswordChanged(unit_result(r))).0,
            final(self)@.wf(),
    {
        if let Err(e) = r {
            self.push_log(
                cat2(
                    "✗ saved locally, but the rendezvous server could not be updated: ",
                    e.as_str(),
                ),
            );
        }
    }

    /// What a message does.
    pub fn on_msg(&mut self, m: Msg) -> (r: DeskAction)
        requires
            old(self)@.wf(),
        ensures
            (final(self)@, r@) == old(self)@.on_msg(m@),
            final(self)@.wf(),
    {
        match m {
            Msg::Event(e) => {
                let line = e.desk_line();
                self.push_log(line);
                DeskAction::Nothing
            },
            Msg::Prepared(p) => self.on_prepared(p),
            Msg::StreamEnded(s) => {
                self.on_stream_ended(s);
                DeskAction::Nothing
            },
            Msg::HostOnline(o) => {
                self.host_online = o;
                DeskAction::Nothing
            },
            Msg::Error(e) => {
                self.on_error(e);
                DeskAction::Nothing
            },
            Msg::Log(s) => {
                self.push_log(s);
                DeskAction::Nothing
            },
            Msg::Probe(p) => {
                self.on_probe(p);
                DeskAction::Nothing
            },
            Msg::Creds(r) => {
                self.on_creds(r);
                DeskAction::Nothing
            },
            Msg::SetupDone(r) => self.on_setup_done(r),
            Msg::PasswordChanged(r) => {
                self.on_password_changed(r);
                DeskAction::Nothing
            },
        }
    }

    // ----- what the window shows -----------------------------------------

    /// Whether Connect can be pressed.
    pub fn can_connect(&self, moonlight_found: bool) -> (r: bool)
        ensures
            r == (!self@.busy && moonlight_found),
    {
        !self.busy && moonlight_found
    }

    /// The hint in the field for the remote password.
    pub fn password_hint(&self) -> (r: &'static str)
        ensures
            r@ == (if self@.need_password {
                "required"@
            } else {
                "only needed the first time"@
            }),
    {
        if self.need_password {
            "required"
        } else {
            "only needed the first time"
        }
    }

    /// The line that shows the access password of this host.
    pub fn host_password_line(&self) -> (r: Option<String>)
        ensures
            match self@.host_profile {
                None => r is None,
                Some(p) => text_view(r) == Some(
                    match p.password_display {
                        Some(pw) => if self@.show_host_password {
                            pw
                        } else {
                            "••••••••"@
                        },
                        None => "custom (hidden)"@,
                    },
                ),
            },
    {
        match &self.host_profile {
            None => None,
            Some(p) => match &p.password_display {
                Some(pw) => {
                    if self.show_host_password {
                        Some(pw.clone())
                    } else {
                        Some("••••••••".to_owned())
                    }
                },
                None => Some("custom (hidden)".to_owned()),
            },
        }
    }
}

/// How a line about the agent's state is coloured.
#[derive(Debug, Clone, Copy, PartialEq, Eq, Structural)]
pub enum StatusColour {
    Gray,
    Red,
    Green,
    Gold,
}

/// The line about the agent's state and what the rendezvous server says of it.
pub open spec fn status_of(state: AgentStateView, online: Option<bool>) -> (StatusColour, Seq<char>) {
    match state {
        AgentStateView::NotConfigured => (StatusColour::Gray, "not configured"@),
        AgentStateView::Failed(e) => (StatusColour::Red, "agent error: "@ + e),
        AgentStateView::Stopped => if online == Some(true) {
            (StatusColour::Green, "Online (background service)"@)
        } else {
            (StatusColour::Red, "Stopped"@)
        },
        AgentStateView::RunningElsewhere => if online == Some(true) {
            (StatusColour::Green, "Online (background service)"@)
        } else {
            (StatusColour::Gold, "background service running, waiting for rendezvous…"@)
        },
        AgentStateView::Running => match online {
            Some(true) => (StatusColour::Green, "Online"@),
            Some(false) => (StatusColour::Gold, "registering…"@),
            None => (StatusColour::Gold, "connecting to rendezvous…"@),
        },
    }
}

/// The line about the agent's state and what the rendezvous server says of it.
pub fn status_line(state: &AgentState, online: Option<bool>) -> (r: (StatusColour, String))
    ensures
        (r.0, r.1@) == status_of(state@, online),
{
    match state {
        AgentState::NotConfigured => (StatusColour::Gray, "not configured".to_owned()),
        AgentState::Failed(e) => (StatusColour::Red, cat2("agent error: ", e.as_str())),
        AgentState::Stopped => match online {
            Some(true) => (StatusColour::Green, "Online (background service)".to_owned()),
            _ => (StatusColour::Red, "Stopped".to_owned()),
        },
        AgentState::RunningElsewhere => match online {
            Some(true) => (StatusColour::Green, "Online (background service)".to_owned()),
            _ => (
                StatusColour::Gold,
                "background service running, waiting for rendezvous…".to_owned(),
            ),
        },
        AgentState::Running => match online {
            Some(true) => (StatusColour::Green, "Online".to_owned()),
            Some(false) => (StatusColour::Gold, "registering…".to_owned()),
            None => (StatusColour::Gold, "connecting to rendezvous…".to_owned()),
        },
    }
}

/// The button that starts or stops sharing.
#[derive(Debug, Clone, Copy, PartialEq, Eq, Structural)]
pub enum ShareButton {
    Stop,
    Start,
    Absent,
}

/// The button that starts or stops sharing.
pub fn share_button(state: &AgentState) -> (r: ShareButton)
    ensures
        r == (match state@ {
            AgentStateView::Running => ShareButton::Stop,
            AgentStateView::Stopped => ShareButton::Start,
            AgentStateView::Failed(_) => ShareButton::Start,
            _ => ShareButton::Absent,
        }),
{
    match state {
        AgentState::Running => ShareButton::Stop,
        AgentState::Stopped => ShareButton::Start,
        AgentState::Failed(_) => ShareButton::Start,
        _ => ShareButton::Absent,
    }
}

/// Whether the agent has to be restarted after a change of the host's settings.
pub fn restarts_on_change(state: &AgentState) -> (r: bool)
    ensures
        r == (state@ is Running || state@ is Failed),
{
    match state {
        AgentState::Running => true,
        AgentState::Failed(_) => true,
        _ => false,
    }
}

/// The line that the window shows about a probe of Apollo.
pub open spec fn probe_words(p: ApolloProbeView) -> Option<(StatusColour, Seq<char>)> {
    match p {
        ApolloProbeView::Unknown => None,
        ApolloProbeView::Checking => Some((StatusColour::Gray, "looking for Apollo…"@)),
        ApolloProbeView::Found { first_run } => if first_run {
            Some(
                (
                    StatusColour::Gold,
                    "Apollo is running but has no web credentials yet — open its web UI once to create them, then continue."@,
                ),
            )
        } else {
            Some((StatusColour::Green, "✓ Apollo is running"@))
        },
        ApolloProbeView::NotFound(e) => Some((StatusColour::Red, "✗ "@ + e)),
    }
}

/// The line that the window shows about a probe of Apollo.
pub fn probe_line(p: &ApolloProbe) -> (r: Option<(StatusColour, String)>)
    ensures
        match r {
            Some(l) => probe_words(p@) == Some((l.0, l.1@)),
            None => probe_words(p@) is None,
        },
{
    match p {
        ApolloProbe::Unknown => None,
        ApolloProbe::Checking => Some((StatusColour::Gray, "looking for Apollo…".to_owned())),
        ApolloProbe::Found { first_run } => {
            if *first_run {
                Some(
                    (
                        StatusColour::Gold,
                        "Apollo is running but has no web credentials yet — open its web UI once to create them, then continue.".to_owned(),
                    ),
                )
            } else {
                Some((StatusColour::Green, "✓ Apollo is running".to_owned()))
            }
        },
        ApolloProbe::NotFound(e) => Some((StatusColour::Red, cat2("✗ ", e.as_str()))),
    }
}

/// A remembered host as the window shows it.
#[derive(Debug)]
pub struct RecentHost {
    pub id: String,
    /// Its name.
    pub title: String,
    /// Its ID in groups.
    pub shown_id: String,
    /// Its last app, and whether its password is saved.
    pub label: String,
    /// The last app, where there is one.
    pub app: Option<String>,
}

/// Whether a card shows what is remembered of a host.
pub open spec fn card_of(cfg: ClientConfigView, id: Seq<char>, c: RecentHost) -> bool {
    let h = cfg.host(id);
    &&& c.id@ == id
    &&& c.title@ == (if h.name.len() == 0 {
        "unnamed host"@
    } else {
        h.name
    })
    &&& c.shown_id@ == pretty(id)
    &&& c.label@ == (match h.last_app {
        Some(a) => a,
        None => "Desktop"@,
    }) + (if h.password_h1 is Some {
        " · password saved"@
    } else {
        ""@
    })
    &&& text_view(c.app) == h.last_app
}

/// The remembered hosts in the order of their ids.
pub fn recent_hosts(cfg: &ClientConfig) -> (r: Vec<RecentHost>)
    requires
        cfg.hosts.wf(),
    ensures
        forall|i: int| 0 <= i < r@.len() ==> card_of(cfg@, (#[trigger] r@[i]).id@, r@[i]),
        forall|i: int, j: int|
            0 <= i < j < r@.len() ==> crate::client_config::comes_before(
                (#[trigger] r@[i]).id@,
                (#[trigger] r@[j]).id@,
            ),
        forall|id: Seq<char>| #[trigger]
            cfg@.hosts.contains_key(id) <==> exists|i: int|
                0 <= i < r@.len() && (#[trigger] r@[i]).id@ == id,
{
    let ids = cfg.host_ids();
    let ghost list = texts(ids@);
    let mut out: Vec<RecentHost> = Vec::new();
    let mut k: usize = 0;
    while k < ids.len()
        invariant
            cfg.hosts.wf(),
            k <= ids@.len(),
            list == texts(ids@),
            out@.len() == k,
            forall|i: int|
                0 <= i < k ==> (#[trigger] out@[i]).id@ == list[i] && card_of(
                    cfg@,
                    out@[i].id@,
                    out@[i],
                ),
        decreases ids.len() - k,
    {
        let id = ids[k].clone();
        let h = cfg.host(id.as_str());
        let title = if is_empty(h.name.as_str()) {
            "unnamed host".to_owned()
        } else {
            h.name.clone()
        };
        let app_name = match &h.last_app {
            Some(a) => a.clone(),
            None => "Desktop".to_owned(),
        };
        let saved = if h.password_h1.is_some() {
            " · password saved"
        } else {
            ""
        };
        let label = cat2(app_name.as_str(), saved);
        let shown_id = pretty_id(id.as_str());
        out.push(RecentHost { id, title, shown_id, label, app: h.last_app });
        k += 1;
    }
    proof {
        assert forall|i: int, j: int|
            0 <= i < j < out@.len() implies crate::client_config::comes_before(
            (#[trigger] out@[i]).id@,
            (#[trigger] out@[j]).id@,
        ) by {
            assert(crate::client_config::comes_before(list[i], list[j]));
        }
        assert forall|id: Seq<char>| #[trigger] cfg@.hosts.contains_key(id) <==> exists|i: int|
            0 <= i < out@.len() && (#[trigger] out@[i]).id@ == id by {
            if cfg@.hosts.contains_key(id) {
                assert(list.contains(id));
                let i = choose|i: int| 0 <= i < list.len() && list[i] == id;
                assert(out@[i].id@ == id);
            }
            if exists|i: int| 0 <= i < out@.len() && (#[trigger] out@[i]).id@ == id {
                let i = choose|i: int| 0 <= i < out@.len() && (#[trigger] out@[i]).id@ == id;
                assert(list[i] == id);
                assert(list.contains(id));
            }
        }
    }
    out
}

/// The log never holds more lines than it may, and the latest line is always its
/// last.
pub proof fn the_log_is_bounded(log: Seq<Seq<char>>, line: Seq<char>)
    requires
        log.len() <= LOG_LINES,
    ensures
        logged(log, line).len() <= LOG_LINES,
        logged(log, line).len() > 0,
        logged(log, line).last() == line,
{
}

/// After an error of a connection the user can try again, and is told to give a
/// password where that would help.
pub proof fn errors_leave_the_window_usable(d: DeskView, e: Seq<char>)
    ensures
        !d.on_msg(MsgView::Error(e)).0.busy,
        has_part(e, "wrong password"@) ==> d.on_msg(MsgView::Error(e)).0.need_password,
        d.on_msg(MsgView::Error(e)).0.remote_id == d.remote_id,
{
}

} // verus!
