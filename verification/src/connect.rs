//! The way from an ID to a stream with the Moonlight binary as the media client:
//! resolve the host, see whether Moonlight is paired with it, pair if not, pick an
//! app, stream.

use vstd::prelude::*;
use crate::client_config::{ClientConfigView, RememberedHostView};
use crate::proto::{clone_text, h1_of, password_h1};
use crate::session::{
    default_app, known_h1, moonlight_host_of, pick_app, AppChoice, Event, EventView, H1Source,
    Resolved, ResolvedView, Session,
};
use crate::text::{cat3, text_view, texts};

verus! {

/// Where a connection stands.
#[derive(Debug, Clone, Copy, PartialEq, Eq, Structural)]
pub enum ConnectPhase {
    /// The host is being resolved.
    Resolving,
    /// Moonlight was asked for the host's apps, to see whether it is paired.
    Listing,
    /// The user was asked for the password.
    Asking,
    /// The pairing is under way.
    Pairing,
    /// Moonlight was asked for the apps of a host that it has just paired with.
    Relisting,
    Done,
}

/// What happened.
#[derive(Debug)]
pub enum ConnectEvent {
    Resolved(Result<Resolved, String>),
    Listed(Result<Vec<String>, String>),
    Typed(Result<String, String>),
    PairEnded(Result<(), String>),
}

/// What to do next.
#[derive(Debug)]
pub enum ConnectAction {
    Resolve,
    /// Ask Moonlight for the apps of this host.
    ListApps(String),
    /// Ask the user, with this prompt.
    AskPassword(String),
    /// Pair with this password hash.
    Pair(String),
    /// Save the settings and stream.
    Stream { host: String, app: String, args: Vec<String> },
    Fail(String),
}

/// What a [`ConnectEvent`] holds.
pub enum ConnectEventView {
    Resolved(Result<ResolvedView, Seq<char>>),
    Listed(Result<Seq<Seq<char>>, Seq<char>>),
    Typed(Result<Seq<char>, Seq<char>>),
    PairEnded(Result<(), Seq<char>>),
}

/// What a [`ConnectAction`] holds.
pub enum ConnectActionView {
    Resolve,
    ListApps(Seq<char>),
    AskPassword(Seq<char>),
    Pair(Seq<char>),
    Stream { host: Seq<char>, app: Seq<char>, args: Seq<Seq<char>> },
    Fail(Seq<char>),
}

impl View for ConnectEvent {
    type V = ConnectEventView;

    open spec fn view(&self) -> ConnectEventView {
        match *self {
            ConnectEvent::Resolved(Ok(r)) => ConnectEventView::Resolved(Ok(r@)),
            ConnectEvent::Resolved(Err(e)) => ConnectEventView::Resolved(Err(e@)),
            ConnectEvent::Listed(Ok(v)) => ConnectEventView::Listed(Ok(texts(v@))),
            ConnectEvent::Listed(Err(e)) => ConnectEventView::Listed(Err(e@)),
            ConnectEvent::Typed(Ok(p)) => ConnectEventView::Typed(Ok(p@)),
            ConnectEvent::Typed(Err(e)) => ConnectEventView::Typed(Err(e@)),
            ConnectEvent::PairEnded(Ok(_)) => ConnectEventView::PairEnded(Ok(())),
            ConnectEvent::PairEnded(Err(e)) => ConnectEventView::PairEnded(Err(e@)),
        }
    }
}

impl View for ConnectAction {
    type V = ConnectActionView;

    open spec fn view(&self) -> ConnectActionView {
        match *self {
            ConnectAction::Resolve => ConnectActionView::Resolve,
            ConnectAction::ListApps(h) => ConnectActionView::ListApps(h@),
            ConnectAction::AskPassword(p) => ConnectActionView::AskPassword(p@),
            ConnectAction::Pair(h1) => ConnectActionView::Pair(h1@),
            ConnectAction::Stream { host, app, args } => ConnectActionView::Stream {
                host: host@,
                app: app@,
                args: texts(args@),
            },
            ConnectAction::Fail(e) => ConnectActionView::Fail(e@),
        }
    }
}

/// A connection on its way.
pub struct ConnectRun {
    id: String,
    password: Option<String>,
    app: Option<String>,
    remember: bool,
    /// Arguments for the stream.
    extra: Vec<String>,
    name: String,
    salt: String,
    host: String,
    h1: String,
    phase: ConnectPhase,
}

/// What a [`ConnectRun`] holds.
#[verifier::ext_equal]
pub struct ConnectRunView {
    pub id: Seq<char>,
    pub password: Option<Seq<char>>,
    pub app: Option<Seq<char>>,
    pub remember: bool,
    pub extra: Seq<Seq<char>>,
    pub name: Seq<char>,
    pub salt: Seq<char>,
    pub host: Seq<char>,
    pub h1: Seq<char>,
    pub phase: ConnectPhase,
}

impl View for ConnectRun {
    type V = ConnectRunView;

    closed spec fn view(&self) -> ConnectRunView {
        ConnectRunView {
            id: self.id@,
            password: text_view(self.password),
            app: text_view(self.app),
            remember: self.remember,
            extra: texts(self.extra@),
            name: self.name@,
            salt: self.salt@,
            host: self.host@,
            h1: self.h1@,
            phase: self.phase,
        }
    }
}

/// What follows an event: the connection, the settings, what to do and what to
/// tell the user.
pub struct ConnectStepView {
    pub run: ConnectRunView,
    pub cfg: ClientConfigView,
    pub action: ConnectActionView,
    pub event: Option<EventView>,
}

impl ConnectRunView {
    /// Whether this event can come in this phase.
    pub open spec fn fits(self, ev: ConnectEventView) -> bool {
        match self.phase {
            ConnectPhase::Resolving => ev is Resolved,
            ConnectPhase::Listing => ev is Listed,
            ConnectPhase::Asking => ev is Typed,
            ConnectPhase::Pairing => ev is PairEnded,
            ConnectPhase::Relisting => ev is Listed,
            ConnectPhase::Done => false,
        }
    }

    /// The connection fails.
    pub open spec fn fail(self, cfg: ClientConfigView, e: Seq<char>) -> ConnectStepView {
        ConnectStepView {
            run: ConnectRunView { phase: ConnectPhase::Done, ..self },
            cfg,
            action: ConnectActionView::Fail(e),
            event: None,
        }
    }

    /// Pair with a password hash.
    pub open spec fn pair(self, cfg: ClientConfigView, h1: Seq<char>) -> ConnectStepView {
        ConnectStepView {
            run: ConnectRunView { h1, phase: ConnectPhase::Pairing, ..self },
            cfg,
            action: ConnectActionView::Pair(h1),
            event: None,
        }
    }

    /// The settings after a pairing: the password hash is remembered where the user
    /// wants that.
    pub open spec fn remembered(self, cfg: ClientConfigView) -> ClientConfigView {
        if self.remember {
            cfg.with_host(
                self.id,
                RememberedHostView {
                    password_h1: Some(self.h1),
                    password_salt: Some(self.salt),
                    ..cfg.host(self.id)
                },
            )
        } else {
            cfg
        }
    }

    /// The app that the user named, now or the last time.
    pub open spec fn named_app(self, cfg: ClientConfigView) -> Option<Seq<char>> {
        match self.app {
            Some(a) => Some(a),
            None => cfg.host(self.id).last_app,
        }
    }

    /// The stream starts.
    pub open spec fn stream(self, cfg: ClientConfigView, app: Seq<char>, paired: bool) -> ConnectStepView {
        ConnectStepView {
            run: ConnectRunView { phase: ConnectPhase::Done, ..self },
            cfg: cfg.with_host(
                self.id,
                RememberedHostView {
                    name: self.name,
                    last_endpoint: Some(self.host),
                    last_app: Some(app),
                    ..cfg.host(self.id)
                },
            ),
            action: ConnectActionView::Stream {
                host: self.host,
                app,
                args: cfg.stream_args + self.extra,
            },
            event: if paired {
                Some(EventView::AlreadyPaired)
            } else {
                None
            },
        }
    }

    /// What follows an event.
    pub open spec fn step(self, cfg: ClientConfigView, ev: ConnectEventView) -> ConnectStepView {
        match ev {
            ConnectEventView::Resolved(Err(e)) => self.fail(cfg, e),
            ConnectEventView::Resolved(Ok(r)) => {
                let host = moonlight_host_of(r.host, r.http_port);
                ConnectStepView {
                    run: ConnectRunView {
                        name: r.info.name,
                        salt: r.info.password_salt,
                        host,
                        phase: ConnectPhase::Listing,
                        ..self
                    },
                    cfg,
                    action: ConnectActionView::ListApps(host),
                    event: None,
                }
            },
            ConnectEventView::Listed(Ok(apps)) => self.stream(
                cfg,
                match self.named_app(cfg) {
                    Some(a) => a,
                    None => default_app(apps),
                },
                self.phase == ConnectPhase::Listing,
            ),
            ConnectEventView::Listed(Err(_)) => if self.phase == ConnectPhase::Relisting {
                self.stream(
                    cfg,
                    match self.named_app(cfg) {
                        Some(a) => a,
                        None => default_app(Seq::empty()),
                    },
                    false,
                )
            } else {
                match known_h1(cfg, self.id, self.salt, self.password) {
                    Some(h1) => self.pair(cfg, h1),
                    None => ConnectStepView {
                        run: ConnectRunView { phase: ConnectPhase::Asking, ..self },
                        cfg,
                        action: ConnectActionView::AskPassword("Password for "@ + self.id + ": "@),
                        event: None,
                    },
                }
            },
            ConnectEventView::Typed(Err(e)) => self.fail(cfg, e),
            ConnectEventView::Typed(Ok(p)) => self.pair(cfg, h1_of(p, self.salt)),
            ConnectEventView::PairEnded(Err(e)) => self.fail(cfg, e),
            ConnectEventView::PairEnded(Ok(_)) => {
                let after = self.remembered(cfg);
                match self.named_app(after) {
                    Some(a) => self.stream(after, a, false),
                    None => ConnectStepView {
                        run: ConnectRunView { phase: ConnectPhase::Relisting, ..self },
                        cfg: after,
                        action: ConnectActionView::ListApps(self.host),
                        event: None,
                    },
                }
            },
        }
    }
}

/// What an optional event holds.
pub open spec fn event_view(e: Option<Event>) -> Option<EventView> {
    match e {
        Some(x) => Some(x@),
        None => None,
    }
}

impl ConnectRun {
    /// A connection that starts; `moonlight` is where the binary was found.
    pub fn new(
        id: String,
        password: Option<String>,
        app: Option<String>,
        remember: bool,
        extra: Vec<String>,
        moonlight_found: bool,
    ) -> (r: Result<(Self, ConnectAction), String>)
        ensures
            match r {
                Ok((run, a)) => {
                    &&& moonlight_found
                    &&& a@ == ConnectActionView::Resolve
                    &&& run@ == (ConnectRunView {
                        id: id@,
                        password: text_view(password),
                        app: text_view(app),
                        remember,
                        extra: texts(extra@),
                        name: ""@,
                        salt: ""@,
                        host: ""@,
                        h1: ""@,
                        phase: ConnectPhase::Resolving,
                    })
                },
                Err(e) => !moonlight_found && e@
                    == "Moonlight not found; install it or set moonlight_path / MOONLIGHT_BIN"@,
            },
    {
        if !moonlight_found {
            return Err(
                "Moonlight not found; install it or set moonlight_path / MOONLIGHT_BIN".to_owned(),
            );
        }
        Ok(
            (
                ConnectRun {
                    id,
                    password,
                    app,
                    remember,
                    extra,
                    name: "".to_owned(),
                    salt: "".to_owned(),
                    host: "".to_owned(),
                    h1: "".to_owned(),
                    phase: ConnectPhase::Resolving,
                },
                ConnectAction::Resolve,
            ),
        )
    }

    /// Where Moonlight finds the host, once it is resolved.
    pub fn host(&self) -> (r: &str)
        ensures
            r@ == self@.host,
    {
        self.host.as_str()
    }

    /// The connection fails.
    fn fail(&mut self, e: String, Ghost(cfg): Ghost<ClientConfigView>) -> (a: ConnectAction)
        ensures
            final(self)@ == old(self)@.fail(cfg, e@).run,
            a@ == ConnectActionView::Fail(e@),
    {
        self.phase = ConnectPhase::Done;
        ConnectAction::Fail(e)
    }

    /// The stream starts.
    fn stream(&mut self, session: &mut Session, app: String) -> (a: ConnectAction)
        requires
            old(session).cfg.hosts.wf(),
        ensures
            final(session).cfg.hosts.wf(),
            forall|paired: bool|
                {
                    let step = #[trigger] old(self)@.stream(old(session).cfg@, app@, paired);
                    &&& final(self)@ == step.run
                    &&& final(session).cfg@ == step.cfg
                    &&& a@ == step.action
                },
    {
        let args = session.stream_args(&self.extra);
        session.note_session(
            self.id.as_str(),
            self.name.as_str(),
            self.host.as_str(),
            app.as_str(),
        );
        self.phase = ConnectPhase::Done;
        ConnectAction::Stream { host: self.host.clone(), app, args }
    }

    /// The app that the user named, now or the last time, or else one of `apps`.
    fn app_or(&self, session: &Session, apps: &Vec<String>) -> (r: String)
        requires
            session.cfg.hosts.wf(),
        ensures
            r@ == (match self@.named_app(session.cfg@) {
                Some(a) => a,
                None => default_app(texts(apps@)),
            }),
    {
        match session.choose_app(self.id.as_str(), clone_text(&self.app)) {
            AppChoice::App(a) => a,
            AppChoice::FromList => pick_app(apps),
        }
    }

    /// Moonlight listed the host's apps, or could not.
    fn on_listed(&mut self, session: &mut Session, r: Result<Vec<String>, String>) -> (res: (
        ConnectAction,
        Option<Event>,
    ))
        requires
            old(session).cfg.hosts.wf(),
            old(self)@.phase == ConnectPhase::Listing || old(self)@.phase
                == ConnectPhase::Relisting,
        ensures
            final(session).cfg.hosts.wf(),
            ({
                let step = old(self)@.step(
                    old(session).cfg@,
                    ConnectEventView::Listed(
                        match r {
                            Ok(v) => Ok(texts(v@)),
                            Err(e) => Err(e@),
                        },
                    ),
                );
                &&& final(self)@ == step.run
                &&& final(session).cfg@ == step.cfg
                &&& res.0@ == step.action
                &&& event_view(res.1) == step.event
            }),
    {
        match r {
            Ok(apps) => {
                let event = match self.phase {
                    ConnectPhase::Listing => Some(Event::AlreadyPaired),
                    _ => None,
                };
                let app = self.app_or(session, &apps);
                let action = self.stream(session, app);
                (action, event)
            },
            Err(_) => {
                if self.phase == ConnectPhase::Relisting {
                    let none: Vec<String> = Vec::new();
                    assert(texts(none@) =~= Seq::empty());
                    let app = self.app_or(session, &none);
                    let action = self.stream(session, app);
                    return (action, None);
                }
                let password = match &self.password {
                    Some(p) => Some(p.as_str()),
                    None => None,
                };
                match session.h1_for(self.id.as_str(), self.salt.as_str(), password) {
                    H1Source::Known(h1) => {
                        self.h1 = h1.clone();
                        self.phase = ConnectPhase::Pairing;
                        (ConnectAction::Pair(h1), None)
                    },
                    H1Source::Ask => {
                        self.phase = ConnectPhase::Asking;
                        (
                            ConnectAction::AskPassword(
                                cat3("Password for ", self.id.as_str(), ": "),
                            ),
                            None,
                        )
                    },
                }
            },
        }
    }

    /// The pairing came to an end.
    fn on_pair_ended(&mut self, session: &mut Session, r: Result<(), String>) -> (a: ConnectAction)
        requires
            old(session).cfg.hosts.wf(),
        ensures
            final(session).cfg.hosts.wf(),
            ({
                let step = old(self)@.step(
                    old(session).cfg@,
                    ConnectEventView::PairEnded(crate::session::unit_result(r)),
                );
                &&& final(self)@ == step.run
                &&& final(session).cfg@ == step.cfg
                &&& a@ == step.action
            }),
    {
        match r {
            Err(e) => self.fail(e, Ghost(session.cfg@)),
            Ok(_) => {
                if self.remember {
                    session.remember_password(
                        self.id.as_str(),
                        self.h1.as_str(),
                        self.salt.as_str(),
                    );
                }
                match session.choose_app(self.id.as_str(), clone_text(&self.app)) {
                    AppChoice::App(a) => self.stream(session, a),
                    AppChoice::FromList => {
                        self.phase = ConnectPhase::Relisting;
                        ConnectAction::ListApps(self.host.clone())
                    },
                }
            },
        }
    }

    /// What follows an event.
    pub fn step(&mut self, session: &mut Session, ev: ConnectEvent) -> (res: (
        ConnectAction,
        Option<Event>,
    ))
        requires
            old(session).cfg.hosts.wf(),
            old(self)@.fits(ev@),
        ensures
            final(session).cfg.hosts.wf(),
            ({
                let step = old(self)@.step(old(session).cfg@, ev@);
                &&& final(self)@ == step.run
                &&& final(session).cfg@ == step.cfg
                &&& res.0@ == step.action
                &&& event_view(res.1) == step.event
            }),
    {
        match ev {
            ConnectEvent::Resolved(Err(e)) => (self.fail(e, Ghost(session.cfg@)), None),
            ConnectEvent::Resolved(Ok(r)) => {
                let host = r.moonlight_host();
                self.name = r.info.name.clone();
                self.salt = r.info.password_salt.clone();
                self.host = host.clone();
                self.phase = ConnectPhase::Listing;
                (ConnectAction::ListApps(host), None)
            },
            ConnectEvent::Listed(r) => self.on_listed(session, r),
            ConnectEvent::Typed(Err(e)) => (self.fail(e, Ghost(session.cfg@)), None),
            ConnectEvent::Typed(Ok(p)) => {
                let h1 = password_h1(p.as_str(), self.salt.as_str());
                self.h1 = h1.clone();
                self.phase = ConnectPhase::Pairing;
                (ConnectAction::Pair(h1), None)
            },
            ConnectEvent::PairEnded(r) => (self.on_pair_ended(session, r), None),
        }
    }
}

/// A host that Moonlight is paired with is streamed from without a password.
pub proof fn paired_hosts_need_no_password(
    run: ConnectRunView,
    cfg: ClientConfigView,
    apps: Seq<Seq<char>>,
)
    requires
        run.phase == ConnectPhase::Listing,
    ensures
        run.step(cfg, ConnectEventView::Listed(Ok(apps))).action is Stream,
        run.step(cfg, ConnectEventView::Listed(Ok(apps))).event == Some(EventView::AlreadyPaired),
{
}

/// A failed pairing leaves no trace in the settings, and nothing is streamed.
pub proof fn failed_pairings_leave_no_trace(
    run: ConnectRunView,
    cfg: ClientConfigView,
    e: Seq<char>,
)
    requires
        run.phase == ConnectPhase::Pairing,
    ensures
        run.step(cfg, ConnectEventView::PairEnded(Err(e))).cfg == cfg,
        run.step(cfg, ConnectEventView::PairEnded(Err(e))).action == ConnectActionView::Fail(e),
{
}

/// A password is remembered only where the user wants that, and only once the host
/// has taken it; from then on it is not asked for again.
pub proof fn passwords_are_kept_on_demand(run: ConnectRunView, cfg: ClientConfigView)
    requires
        run.phase == ConnectPhase::Pairing,
    ensures
        ({
            let after = run.step(cfg, ConnectEventView::PairEnded(Ok(()))).cfg;
            &&& run.remember ==> known_h1(after, run.id, run.salt, None) == Some(run.h1)
            &&& !run.remember ==> after.host(run.id).password_h1 == cfg.host(run.id).password_h1
        }),
{
}

} // verus!
