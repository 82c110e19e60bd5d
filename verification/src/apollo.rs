//! Requests to, and answers of, Apollo's web UI API.
//!
//! Auth is a session cookie obtained from `POST /api/login`. Apollo keeps a
//! single global session, so logging in here evicts an open browser session.

use vstd::prelude::*;
use crate::text::{
    before_first, cat2, clone_texts, has_prefix, is_empty, starts_with, text_view, texts,
    trim_end_matches, until, without_last,
};

verus! {

/// A client that Apollo knows. The commands are JSON texts.
#[derive(Debug)]
pub struct ApolloClient {
    pub name: String,
    pub uuid: String,
    pub perm: u32,
    pub connected: bool,
    pub display_mode: String,
    pub enable_legacy_ordering: bool,
    pub allow_client_commands: bool,
    pub always_use_virtual_display: bool,
    pub do_cmds: Vec<String>,
    pub undo: Vec<String>,
}

/// What an [`ApolloClient`] holds.
#[verifier::ext_equal]
pub struct ApolloClientView {
    pub name: Seq<char>,
    pub uuid: Seq<char>,
    pub perm: u32,
    pub connected: bool,
    pub display_mode: Seq<char>,
    pub enable_legacy_ordering: bool,
    pub allow_client_commands: bool,
    pub always_use_virtual_display: bool,
    pub do_cmds: Seq<Seq<char>>,
    pub undo: Seq<Seq<char>>,
}

impl View for ApolloClient {
    type V = ApolloClientView;

    open spec fn view(&self) -> ApolloClientView {
        ApolloClientView {
            name: self.name@,
            uuid: self.uuid@,
            perm: self.perm,
            connected: self.connected,
            display_mode: self.display_mode@,
            enable_legacy_ordering: self.enable_legacy_ordering,
            allow_client_commands: self.allow_client_commands,
            always_use_virtual_display: self.always_use_virtual_display,
            do_cmds: texts(self.do_cmds@),
            undo: texts(self.undo@),
        }
    }
}

impl Clone for ApolloClient {
    fn clone(&self) -> (r: Self)
        ensures
            r@ == self@,
    {
        ApolloClient {
            name: self.name.clone(),
            uuid: self.uuid.clone(),
            perm: self.perm,
            connected: self.connected,
            display_mode: self.display_mode.clone(),
            enable_legacy_ordering: self.enable_legacy_ordering,
            allow_client_commands: self.allow_client_commands,
            always_use_virtual_display: self.always_use_virtual_display,
            do_cmds: clone_texts(&self.do_cmds),
            undo: clone_texts(&self.undo),
        }
    }
}

/// What a list of clients holds.
pub open spec fn client_views(v: Seq<ApolloClient>) -> Seq<ApolloClientView> {
    Seq::new(v.len(), |i: int| v[i]@)
}

/// What a client's switches are where Apollo does not say.
pub fn t() -> (r: bool)
    ensures
        r,
{
    true
}

#[derive(Debug)]
pub struct OtpResponse {
    pub otp: String,
    pub name: String,
    pub status: bool,
    pub message: String,
}

impl Clone for OtpResponse {
    fn clone(&self) -> (r: Self)
        ensures
            r == *self,
    {
        OtpResponse {
            otp: self.otp.clone(),
            name: self.name.clone(),
            status: self.status,
            message: self.message.clone(),
        }
    }
}

/// Why a login gave no session.
#[derive(Debug, Clone, Copy, PartialEq, Eq, Structural)]
pub enum LoginError {
    /// The credentials are wrong.
    Rejected,
    /// Another error status.
    Status(u16),
    /// A success without the cookie.
    NoCookie,
}

/// The session cookie in a list of `Set-Cookie` headers: the first pair named
/// `auth`.
pub open spec fn auth_cookie_of(headers: Seq<Seq<char>>) -> Option<Seq<char>>
    decreases headers.len(),
{
    if headers.len() == 0 {
        None
    } else if has_prefix(before_first(headers[0], ';'), "auth="@) {
        Some(before_first(headers[0], ';'))
    } else {
        auth_cookie_of(headers.drop_first())
    }
}

/// What the answer to a login means.
pub open spec fn login_of(status: u16, headers: Seq<Seq<char>>) -> Result<Seq<char>, LoginError> {
    if status == 401 {
        Err(LoginError::Rejected)
    } else if 400 <= status < 600 {
        Err(LoginError::Status(status))
    } else {
        match auth_cookie_of(headers) {
            Some(c) => Ok(c),
            None => Err(LoginError::NoCookie),
        }
    }
}

/// The session cookie in a list of `Set-Cookie` headers.
pub fn auth_cookie(headers: &Vec<String>) -> (r: Option<String>)
    ensures
        text_view(r) == auth_cookie_of(texts(headers@)),
{
    let ghost all = texts(headers@);
    let mut i: usize = 0;
    assert(all.skip(0) =~= all);
    while i < headers.len()
        invariant
            all == texts(headers@),
            i <= headers@.len(),
            auth_cookie_of(all) == auth_cookie_of(all.skip(i as int)),
        decreases headers.len() - i,
    {
        let pair = until(headers[i].as_str(), ';');
        assert(all.skip(i as int)[0] == headers@[i as int]@);
        assert(all.skip(i as int).drop_first() =~= all.skip(i + 1));
        if starts_with(pair.as_str(), "auth=") {
            return Some(pair);
        }
        i += 1;
    }
    None
}

/// What the answer to a login means.
pub fn login_result(status: u16, headers: &Vec<String>) -> (r: Result<String, LoginError>)
    ensures
        match r {
            Ok(c) => login_of(status, texts(headers@)) == Ok::<Seq<char>, LoginError>(c@),
            Err(e) => login_of(status, texts(headers@)) == Err::<Seq<char>, LoginError>(e),
        },
{
    if status == 401 {
        return Err(LoginError::Rejected);
    }
    if 400 <= status && status < 600 {
        return Err(LoginError::Status(status));
    }
    match auth_cookie(headers) {
        Some(c) => Ok(c),
        None => Err(LoginError::NoCookie),
    }
}

/// What to do next in a call.
#[derive(Debug)]
pub enum CallAction {
    /// Log in first.
    Login,
    /// Send the request with this cookie.
    Send(String),
    /// The answer is the call's result.
    Return,
}

/// What a [`CallAction`] holds.
pub enum CallActionView {
    Login,
    Send(Seq<char>),
    Return,
}

impl View for CallAction {
    type V = CallActionView;

    open spec fn view(&self) -> CallActionView {
        match *self {
            CallAction::Login => CallActionView::Login,
            CallAction::Send(c) => CallActionView::Send(c@),
            CallAction::Return => CallActionView::Return,
        }
    }
}

/// The web UI of one Apollo, and the session with it.
#[derive(Debug)]
pub struct Apollo {
    pub base: String,
    pub username: String,
    pub password: String,
    /// The cookie of the session, where there is one.
    pub cookie: Option<String>,
}

/// What to do with a cookie at hand, or without one.
pub open spec fn call_with(cookie: Option<Seq<char>>) -> CallActionView {
    match cookie {
        Some(c) => CallActionView::Send(c),
        None => CallActionView::Login,
    }
}

impl Apollo {
    pub fn new(base: &str, username: &str, password: &str) -> (r: Self)
        ensures
            r.base@ == without_last(base@, '/'),
            r.username@ == username@,
            r.password@ == password@,
            r.cookie is None,
    {
        Apollo {
            base: trim_end_matches(base, '/'),
            username: username.to_owned(),
            password: password.to_owned(),
            cookie: None,
        }
    }

    /// The URL of a path.
    pub fn url(&self, path: &str) -> (r: String)
        ensures
            r@ == self.base@ + path@,
    {
        cat2(self.base.as_str(), path)
    }

    /// The first thing to do in a call.
    pub fn begin(&self) -> (r: CallAction)
        ensures
            r@ == call_with(text_view(self.cookie)),
    {
        match &self.cookie {
            Some(c) => CallAction::Send(c.clone()),
            None => CallAction::Login,
        }
    }

    /// A login succeeded.
    pub fn on_login(&mut self, cookie: String) -> (r: CallAction)
        ensures
            r@ == CallActionView::Send(cookie@),
            text_view(final(self).cookie) == Some(cookie@),
            final(self).base == old(self).base,
            final(self).username == old(self).username,
            final(self).password == old(self).password,
    {
        self.cookie = Some(cookie.clone());
        CallAction::Send(cookie)
    }

    /// A request was answered with `status`, after `retries` earlier answers. The
    /// first time that the session turns out to be over, a new one is opened.
    pub fn on_answer(&mut self, status: u16, retries: u32) -> (r: CallAction)
        ensures
            final(self).base == old(self).base,
            final(self).username == old(self).username,
            final(self).password == old(self).password,
            status == 401 && retries == 0 ==> r@ == CallActionView::Login && final(self).cookie
                is None,
            !(status == 401 && retries == 0) ==> r@ == CallActionView::Return
                && final(self).cookie == old(self).cookie,
    {
        if status == 401 && retries == 0 {
            self.cookie = None;
            return CallAction::Login;
        }
        CallAction::Return
    }
}

/// Whether Apollo took a PIN, or an update: what its answer says, and no where it
/// says nothing.
pub fn answered_yes(status: Option<bool>) -> (r: bool)
    ensures
        r == (status == Some(true)),
{
    match status {
        Some(b) => b,
        None => false,
    }
}

/// The one-time PIN that Apollo gave, or its words for refusing one.
pub fn check_otp(r: OtpResponse) -> (res: Result<OtpResponse, String>)
    ensures
        match res {
            Ok(o) => r.status && r.otp@.len() > 0 && o == r,
            Err(e) => (!r.status || r.otp@.len() == 0) && e@ == "Apollo refused OTP: "@
                + r.message@,
        },
{
    if !r.status || is_empty(r.otp.as_str()) {
        return Err(cat2("Apollo refused OTP: ", r.message.as_str()));
    }
    Ok(r)
}

/// What an update came to; `answer` is Apollo's answer in full.
pub fn check_update(status: Option<bool>, answer: &str) -> (res: Result<(), String>)
    ensures
        match res {
            Ok(_) => status == Some(true),
            Err(e) => status != Some(true) && e@ == "Apollo refused client update: "@ + answer@,
        },
{
    if !answered_yes(status) {
        return Err(cat2("Apollo refused client update: ", answer));
    }
    Ok(())
}

} // verus!
