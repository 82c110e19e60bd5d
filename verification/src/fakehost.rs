//! A stand-in for Apollo that speaks just enough of both of its faces: the
//! GameStream HTTP requests (`/serverinfo`, `/pair`, `/unpair`, `/applist`; the
//! pairing request `getservercert` parks until a PIN is posted, exactly like
//! Apollo) and the web API (login, PIN, clients).

use vstd::prelude::*;
use vstd::string::StringExecFns;
use crate::foreign::{is_uuid_v4, uuid_v4};
use crate::pairing::StepView;
use crate::proto::{is_valid_pin, valid_pin};
use crate::testing::{param_of, FakeHost, FakeHostView};
use crate::text::{cat3, contains, decimal, decimal_text, has_part, str_eq, str_view, text_view};

verus! {

/// An error answer.
pub open spec fn xml_err_words(code: u16, msg: Seq<char>) -> Seq<char> {
    "<root status_code=\""@ + decimal(code as nat) + "\" status_message=\""@ + msg + "\"/>"@
}

/// An error answer.
pub fn xml_err(code: u16, msg: &str) -> (r: String)
    ensures
        r@ == xml_err_words(code, msg@),
{
    let n = decimal_text(code as u64);
    let mut s = cat3("<root status_code=\"", n.as_str(), "\" status_message=\"");
    s.append(msg);
    s.append("\"/>");
    s
}

/// The value of `k` in a query.
pub fn param<'a>(q: &'a str, k: &str) -> (r: Option<&'a str>)
    ensures
        str_view(r) == param_of(q@, k@),
{
    FakeHost::param(q, k)
}

/// The permissions of a client that has just paired: list and view.
pub const DEFAULT_PERM: u32 = 0x0300_0000;

/// What is answered to `/serverinfo`.
pub open spec fn serverinfo_words(name: Seq<char>, uuid: Seq<char>, port: u16, paired: bool) -> Seq<
    char,
> {
    "<?xml version=\"1.0\"?><root status_code=\"200\"><hostname>"@ + name
        + "</hostname><appversion>7.1.431.-1</appversion><GfeVersion>3.23.0.74</GfeVersion><uniqueid>"@
        + uuid + "</uniqueid><HttpsPort>"@ + decimal((port - 5) as nat)
        + "</HttpsPort><ExternalPort>"@ + decimal(port as nat)
        + "</ExternalPort><mac>00:00:00:00:00:00</mac><LocalIP>127.0.0.1</LocalIP><ServerCodecModeSupport>259</ServerCodecModeSupport><PairStatus>"@
        + (if paired {
        "1"@
    } else {
        "0"@
    }) + "</PairStatus><currentgame>0</currentgame><state>SUNSHINE_SERVER_FREE</state></root>"@
}

/// What is answered to `/serverinfo`: over HTTPS a client that names itself counts
/// as paired.
pub fn serverinfo(name: &str, uuid: &str, port: u16, https: bool, query: Option<&str>) -> (r: String)
    requires
        port >= 5,
    ensures
        r@ == serverinfo_words(
            name@,
            uuid@,
            port,
            https && query is Some && param_of(query->0@, "uniqueid"@) is Some,
        ),
{
    let paired = match query {
        Some(q) => https && param(q, "uniqueid").is_some(),
        None => false,
    };
    let https_port = decimal_text((port - 5) as u64);
    let http_port = decimal_text(port as u64);
    let mut s = cat3(
        "<?xml version=\"1.0\"?><root status_code=\"200\"><hostname>",
        name,
        "</hostname><appversion>7.1.431.-1</appversion><GfeVersion>3.23.0.74</GfeVersion><uniqueid>",
    );
    s.append(uuid);
    s.append("</uniqueid><HttpsPort>");
    s.append(https_port.as_str());
    s.append("</HttpsPort><ExternalPort>");
    s.append(http_port.as_str());
    s.append(
        "</ExternalPort><mac>00:00:00:00:00:00</mac><LocalIP>127.0.0.1</LocalIP><ServerCodecModeSupport>259</ServerCodecModeSupport><PairStatus>",
    );
    let digit = if paired {
        "1"
    } else {
        "0"
    };
    s.append(digit);
    s.append("</PairStatus><currentgame>0</currentgame><state>SUNSHINE_SERVER_FREE</state></root>");
    s
}

/// What is answered to `/applist`.
pub open spec fn applist_words(clients: nat) -> Seq<char> {
    "<root status_code=\"200\"><App><IsHdrSupported>1</IsHdrSupported><AppTitle>Desktop</AppTitle><UUID>desk</UUID><IDX>0</IDX><ID>1</ID></App><App><IsHdrSupported>0</IsHdrSupported><AppTitle>Steam Big Picture</AppTitle><UUID>steam</UUID><IDX>1</IDX><ID>2</ID></App><App><IsHdrSupported>0</IsHdrSupported><AppTitle>Paired clients: "@
        + decimal(clients) + "</AppTitle><ID>3</ID></App></root>"@
}

/// Whether a `Cookie` header carries the session.
pub fn authed(cookie: Option<&str>) -> (r: bool)
    ensures
        r == (cookie is Some && has_part(cookie->0@, "auth=fake-session"@)),
{
    match cookie {
        Some(c) => contains(c, "auth=fake-session"),
        None => false,
    }
}

/// Whether a login shows the right credentials.
pub fn login_ok(
    username: Option<&str>,
    password: Option<&str>,
    want_username: &str,
    want_password: &str,
) -> (r: bool)
    ensures
        r == (str_view(username) == Some(want_username@) && str_view(password) == Some(
            want_password@,
        )),
{
    match (username, password) {
        (Some(u), Some(p)) => str_eq(u, want_username) && str_eq(p, want_password),
        _ => false,
    }
}

/// What to do with a `/pair` request.
#[derive(Debug)]
pub enum FakePair {
    /// Answer with this.
    Answer(String),
    /// Wait for a PIN.
    Park,
    /// The request fits no step of a handshake.
    Unexpected,
}

/// What a [`FakePair`] holds.
pub enum FakePairView {
    Answer(Seq<char>),
    Park,
    Unexpected,
}

impl View for FakePair {
    type V = FakePairView;

    open spec fn view(&self) -> FakePairView {
        match *self {
            FakePair::Answer(s) => FakePairView::Answer(s@),
            FakePair::Park => FakePairView::Park,
            FakePair::Unexpected => FakePairView::Unexpected,
        }
    }
}

/// A value in a client's record, which may be of any kind.
#[derive(Debug, PartialEq, Eq)]
pub enum JsonValue {
    Text(String),
    Number(u32),
    Flag(bool),
    /// Any other value, in JSON notation.
    Other(String),
}

/// What a [`JsonValue`] holds.
pub enum JsonValueView {
    Text(Seq<char>),
    Number(u32),
    Flag(bool),
    Other(Seq<char>),
}

impl View for JsonValue {
    type V = JsonValueView;

    open spec fn view(&self) -> JsonValueView {
        match *self {
            JsonValue::Text(s) => JsonValueView::Text(s@),
            JsonValue::Number(n) => JsonValueView::Number(n),
            JsonValue::Flag(b) => JsonValueView::Flag(b),
            JsonValue::Other(s) => JsonValueView::Other(s@),
        }
    }
}

impl Clone for JsonValue {
    fn clone(&self) -> (r: Self)
        ensures
            r@ == self@,
    {
        match self {
            JsonValue::Text(s) => JsonValue::Text(s.clone()),
            JsonValue::Number(n) => JsonValue::Number(*n),
            JsonValue::Flag(b) => JsonValue::Flag(*b),
            JsonValue::Other(s) => JsonValue::Other(s.clone()),
        }
    }
}

/// What the stand-in keeps of a client.
#[derive(Debug)]
pub struct FakeClient {
    pub uuid: String,
    pub name: JsonValue,
    pub perm: JsonValue,
    pub display_mode: JsonValue,
    pub enable_legacy_ordering: JsonValue,
    pub allow_client_commands: JsonValue,
    pub always_use_virtual_display: JsonValue,
}

/// What a [`FakeClient`] holds.
#[verifier::ext_equal]
pub struct FakeClientView {
    pub uuid: Seq<char>,
    pub name: JsonValueView,
    pub perm: JsonValueView,
    pub display_mode: JsonValueView,
    pub enable_legacy_ordering: JsonValueView,
    pub allow_client_commands: JsonValueView,
    pub always_use_virtual_display: JsonValueView,
}

impl View for FakeClient {
    type V = FakeClientView;

    open spec fn view(&self) -> FakeClientView {
        FakeClientView {
            uuid: self.uuid@,
            name: self.name@,
            perm: self.perm@,
            display_mode: self.display_mode@,
            enable_legacy_ordering: self.enable_legacy_ordering@,
            allow_client_commands: self.allow_client_commands@,
            always_use_virtual_display: self.always_use_virtual_display@,
        }
    }
}

/// What a list of clients holds.
pub open spec fn fake_client_views(v: Seq<FakeClient>) -> Seq<FakeClientView> {
    Seq::new(v.len(), |i: int| v[i]@)
}

/// A change to a client; what is absent stays.
#[derive(Debug)]
pub struct ClientUpdate {
    pub name: Option<JsonValue>,
    pub perm: Option<JsonValue>,
    pub display_mode: Option<JsonValue>,
    pub enable_legacy_ordering: Option<JsonValue>,
    pub allow_client_commands: Option<JsonValue>,
    pub always_use_virtual_display: Option<JsonValue>,
}

/// A value after a change.
pub open spec fn value_or(given: Option<JsonValue>, kept: JsonValueView) -> JsonValueView {
    match given {
        Some(v) => v@,
        None => kept,
    }
}

/// A value after a change.
fn given_or(given: Option<JsonValue>, kept: &JsonValue) -> (r: JsonValue)
    ensures
        r@ == value_or(given, kept@),
{
    match given {
        Some(v) => v,
        None => kept.clone(),
    }
}

/// A client after a change.
pub open spec fn changed(c: FakeClientView, u: ClientUpdate) -> FakeClientView {
    FakeClientView {
        name: value_or(u.name, c.name),
        perm: value_or(u.perm, c.perm),
        display_mode: value_or(u.display_mode, c.display_mode),
        enable_legacy_ordering: value_or(u.enable_legacy_ordering, c.enable_legacy_ordering),
        allow_client_commands: value_or(u.allow_client_commands, c.allow_client_commands),
        always_use_virtual_display: value_or(u.always_use_virtual_display, c.always_use_virtual_display),
        ..c
    }
}

/// The first client with a uuid.
pub open spec fn client_index(clients: Seq<FakeClientView>, uuid: Seq<char>, from: int) -> Option<
    int,
>
    decreases clients.len() - from,
{
    if from < 0 || from >= clients.len() {
        None
    } else if clients[from].uuid == uuid {
        Some(from)
    } else {
        client_index(clients, uuid, from + 1)
    }
}

/// The stand-in's state.
pub struct FakeApollo {
    pub host: FakeHost,
    /// A pairing request that waits for a PIN.
    parked: Option<String>,
    clients: Vec<FakeClient>,
    /// What the client that pairs now will be called.
    pending_name: Option<String>,
}

/// A random identifier for the stand-in itself.
pub fn random_uuid() -> (r: String)
    ensures
        is_uuid_v4(r@),
{
    uuid_v4()
}

/// What a [`FakeApollo`] holds.
#[verifier::ext_equal]
pub struct FakeApolloView {
    pub host: FakeHostView,
    pub parked: Option<Seq<char>>,
    pub clients: Seq<FakeClientView>,
    pub pending_name: Option<Seq<char>>,
}

impl View for FakeApollo {
    type V = FakeApolloView;

    closed spec fn view(&self) -> FakeApolloView {
        FakeApolloView {
            host: self.host@,
            parked: text_view(self.parked),
            clients: fake_client_views(self.clients@),
            pending_name: text_view(self.pending_name),
        }
    }
}

/// A client that has just paired.
pub open spec fn new_client_of(name: Seq<char>, uuid: Seq<char>) -> FakeClientView {
    FakeClientView {
        uuid,
        name: JsonValueView::Text(name),
        perm: JsonValueView::Number(DEFAULT_PERM),
        display_mode: JsonValueView::Text(Seq::empty()),
        enable_legacy_ordering: JsonValueView::Flag(true),
        allow_client_commands: JsonValueView::Flag(true),
        always_use_virtual_display: JsonValueView::Flag(false),
    }
}

impl FakeApolloView {
    /// A step of a handshake other than the first; `uuid` is given to a client that
    /// pairs with it.
    pub open spec fn stepped(self, q: Seq<char>, https: bool, uuid: Seq<char>) -> (
        FakeApolloView,
        FakePairView,
    ) {
        match self.host.respond(StepView { args: q, https }) {
            None => (self, FakePairView::Unexpected),
            Some((host, reply)) => {
                let s = FakeApolloView { host, ..self };
                let body = reply.xml();
                if param_of(q, "clientpairingsecret"@) is Some && has_part(
                    body,
                    "<paired>1</paired>"@,
                ) {
                    (
                        FakeApolloView {
                            pending_name: None,
                            clients: s.clients.push(
                                new_client_of(
                                    match s.pending_name {
                                        Some(n) => n,
                                        None => "Unnamed"@,
                                    },
                                    uuid,
                                ),
                            ),
                            ..s
                        },
                        FakePairView::Answer(body),
                    )
                } else {
                    (s, FakePairView::Answer(body))
                }
            },
        }
    }

    /// A `/pair` request.
    pub open spec fn pair(self, q: Seq<char>, https: bool, uuid: Seq<char>) -> (
        FakeApolloView,
        FakePairView,
    ) {
        if param_of(q, "uniqueid"@) is None {
            (self, FakePairView::Answer(xml_err_words(400, "Missing uniqueid parameter"@)))
        } else if param_of(q, "phrase"@) == Some("getservercert"@) {
            (FakeApolloView { parked: Some(q), ..self }, FakePairView::Park)
        } else {
            self.stepped(q, https, uuid)
        }
    }

    /// A parked request goes on with the PIN and the name that were posted.
    pub open spec fn resumed(self, q: Seq<char>, pin: Seq<char>, name: Seq<char>) -> (
        FakeApolloView,
        FakePairView,
    ) {
        let host = FakeHostView { pin, ..self.host };
        let s = FakeApolloView { host, pending_name: Some(name), ..self };
        match host.respond(StepView { args: q, https: false }) {
            None => (s, FakePairView::Unexpected),
            Some((after, reply)) => (
                FakeApolloView { host: after, ..s },
                FakePairView::Answer(reply.xml()),
            ),
        }
    }
}

impl FakeApollo {
    pub fn new(host: FakeHost) -> (r: Self)
        ensures
            r@ == (FakeApolloView {
                host: host@,
                parked: None,
                clients: Seq::empty(),
                pending_name: None,
            }),
    {
        let r = FakeApollo { host, parked: None, clients: Vec::new(), pending_name: None };
        assert(r@.clients =~= Seq::empty());
        r
    }

    /// A `/pair` request. A client that pairs with it gets a random identifier.
    pub fn pair(&mut self, q: &str, https: bool) -> (r: FakePair)
        ensures
            exists|uuid: Seq<char>|
                is_uuid_v4(uuid) && (final(self)@, r@) == #[trigger] old(self)@.pair(
                    q@,
                    https,
                    uuid,
                ),
    {
        let uuid = uuid_v4();
        let ghost before = self@;
        let r = self.pair_as(q, https, uuid.as_str());
        assert((self@, r@) == before.pair(q@, https, uuid@));
        r
    }

    /// A `/pair` request; `uuid` is given to a client that pairs with it.
    pub fn pair_as(&mut self, q: &str, https: bool, uuid: &str) -> (r: FakePair)
        ensures
            (final(self)@, r@) == old(self)@.pair(q@, https, uuid@),
    {
        if param(q, "uniqueid").is_none() {
            return FakePair::Answer(xml_err(400, "Missing uniqueid parameter"));
        }
        if let Some(phrase) = param(q, "phrase") {
            if str_eq(phrase, "getservercert") {
                self.parked = Some(q.to_owned());
                return FakePair::Park;
            }
        }
        let body = match self.host.try_handle_query(q, https) {
            Some(b) => b,
            None => return FakePair::Unexpected,
        };
        if param(q, "clientpairingsecret").is_some() && contains(
            body.as_str(),
            "<paired>1</paired>",
        ) {
            let name = match &self.pending_name {
                Some(n) => n.clone(),
                None => "Unnamed".to_owned(),
            };
            self.pending_name = None;
            let c = FakeClient {
                uuid: uuid.to_owned(),
                name: JsonValue::Text(name),
                perm: JsonValue::Number(DEFAULT_PERM),
                display_mode: JsonValue::Text(String::new()),
                enable_legacy_ordering: JsonValue::Flag(true),
                allow_client_commands: JsonValue::Flag(true),
                always_use_virtual_display: JsonValue::Flag(false),
            };
            let ghost before = self@.clients;
            let ghost added = c@;
            proof {
                reveal_strlit("");
                assert(c.display_mode->Text_0@ =~= Seq::empty());
            }
            self.clients.push(c);
            assert(self@.clients =~= before.push(added));
        }
        FakePair::Answer(body)
    }

    /// A PIN is posted: takes the parked request, if one waits and the PIN is one.
    pub fn take_parked(&mut self, pin: &str) -> (r: Option<String>)
        ensures
            valid_pin(pin@) ==> text_view(r) == old(self)@.parked && final(self)@ == (
            FakeApolloView { parked: None, ..old(self)@ }),
            !valid_pin(pin@) ==> r is None && final(self)@ == old(self)@,
    {
        if !is_valid_pin(pin) {
            return None;
        }
        let mut taken: Option<String> = None;
        if let Some(q) = &self.parked {
            taken = Some(q.clone());
        }
        self.parked = None;
        taken
    }

    /// A parked request goes on with the PIN and the name that were posted.
    pub fn resume(&mut self, q: &str, pin: String, name: String) -> (r: FakePair)
        ensures
            (final(self)@, r@) == old(self)@.resumed(q@, pin@, name@),
    {
        self.host.pin = pin;
        self.pending_name = Some(name);
        match self.host.try_handle_query(q, false) {
            Some(b) => FakePair::Answer(b),
            None => FakePair::Unexpected,
        }
    }

    /// What is answered to `/applist`.
    pub fn applist(&self) -> (r: String)
        ensures
            r@ == applist_words(self@.clients.len()),
    {
        assert(self@.clients.len() == self.clients@.len());
        let n = decimal_text(self.clients.len() as u64);
        cat3(
            "<root status_code=\"200\"><App><IsHdrSupported>1</IsHdrSupported><AppTitle>Desktop</AppTitle><UUID>desk</UUID><IDX>0</IDX><ID>1</ID></App><App><IsHdrSupported>0</IsHdrSupported><AppTitle>Steam Big Picture</AppTitle><UUID>steam</UUID><IDX>1</IDX><ID>2</ID></App><App><IsHdrSupported>0</IsHdrSupported><AppTitle>Paired clients: ",
            n.as_str(),
            "</AppTitle><ID>3</ID></App></root>",
        )
    }

    /// The clients that have paired.
    pub fn clients(&self) -> (r: &Vec<FakeClient>)
        ensures
            fake_client_views(r@) == self@.clients,
    {
        &self.clients
    }

    /// Changes a client; `false` where none has the uuid.
    pub fn update_client(&mut self, uuid: &str, u: ClientUpdate) -> (r: bool)
        ensures
            match client_index(old(self)@.clients, uuid@, 0) {
                Some(i) => r && final(self)@ == (FakeApolloView {
                    clients: old(self)@.clients.update(i, changed(old(self)@.clients[i], u)),
                    ..old(self)@
                }),
                None => !r && final(self)@ == old(self)@,
            },
    {
        let ghost all = self@.clients;
        let mut i: usize = 0;
        while i < self.clients.len()
            invariant
                i <= self.clients@.len(),
                all == fake_client_views(self.clients@),
                self@ == old(self)@,
                client_index(all, uuid@, 0) == client_index(all, uuid@, i as int),
            decreases self.clients.len() - i,
        {
            assert(all[i as int] == self.clients@[i as int]@);
            if str_eq(self.clients[i].uuid.as_str(), uuid) {
                let was = &self.clients[i];
                let c = FakeClient {
                    uuid: was.uuid.clone(),
                    name: given_or(u.name, &was.name),
                    perm: given_or(u.perm, &was.perm),
                    display_mode: given_or(u.display_mode, &was.display_mode),
                    enable_legacy_ordering: given_or(u.enable_legacy_ordering, &was.enable_legacy_ordering),
                    allow_client_commands: given_or(u.allow_client_commands, &was.allow_client_commands),
                    always_use_virtual_display: given_or(u.always_use_virtual_display, &was.always_use_virtual_display),
                };
                let ghost n = c@;
                self.clients[i] = c;
                assert(self@.clients =~= all.update(i as int, n));
                return true;
            }
            i += 1;
        }
        false
    }
}

} // verus!
