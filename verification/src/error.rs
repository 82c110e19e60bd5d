//! What can go wrong when talking to a GameStream host.

use vstd::prelude::*;
use crate::foreign::HexError;
use crate::text::{cat2, cat3, decimal, decimal_text};

verus! {

/// Default GameStream HTTP port (Apollo/Sunshine "base port").
pub const DEFAULT_HTTP_PORT: u16 = 47989;

/// Default HTTPS port, base - 5.
pub const DEFAULT_HTTPS_PORT: u16 = 47984;

#[derive(Debug)]
pub enum PairError {
    OldServer(u32),
    NotPaired,
    AlreadyInProgress,
    WrongPin,
    BadServerSignature,
    Malformed(String),
}

#[derive(Debug)]
pub enum Error {
    Http(String),
    Xml(String),
    Status { code: i32, message: String },
    Missing(&'static str),
    Hex(HexError),
    Crypto(String),
    Identity(String),
    Io(String),
    Tls(String),
    Pair(PairError),
}

/// What a [`PairError`] says.
pub enum PairErrorView {
    OldServer(u32),
    NotPaired,
    AlreadyInProgress,
    WrongPin,
    BadServerSignature,
    Malformed(Seq<char>),
}

/// What an [`Error`] says.
pub enum ErrorView {
    Http(Seq<char>),
    Xml(Seq<char>),
    Status { code: i32, message: Seq<char> },
    Missing(Seq<char>),
    Hex(HexError),
    Crypto(Seq<char>),
    Identity(Seq<char>),
    Io(Seq<char>),
    Tls(Seq<char>),
    Pair(PairErrorView),
}

impl View for PairError {
    type V = PairErrorView;

    open spec fn view(&self) -> PairErrorView {
        match *self {
            PairError::OldServer(v) => PairErrorView::OldServer(v),
            PairError::NotPaired => PairErrorView::NotPaired,
            PairError::AlreadyInProgress => PairErrorView::AlreadyInProgress,
            PairError::WrongPin => PairErrorView::WrongPin,
            PairError::BadServerSignature => PairErrorView::BadServerSignature,
            PairError::Malformed(s) => PairErrorView::Malformed(s@),
        }
    }
}

impl View for Error {
    type V = ErrorView;

    open spec fn view(&self) -> ErrorView {
        match *self {
            Error::Http(s) => ErrorView::Http(s@),
            Error::Xml(s) => ErrorView::Xml(s@),
            Error::Status { code, message } => ErrorView::Status { code, message: message@ },
            Error::Missing(s) => ErrorView::Missing(s@),
            Error::Hex(e) => ErrorView::Hex(e),
            Error::Crypto(s) => ErrorView::Crypto(s@),
            Error::Identity(s) => ErrorView::Identity(s@),
            Error::Io(s) => ErrorView::Io(s@),
            Error::Tls(s) => ErrorView::Tls(s@),
            Error::Pair(e) => ErrorView::Pair(e@),
        }
    }
}

/// The decimal notation of a signed number.
pub open spec fn signed_decimal(n: int) -> Seq<char> {
    if n < 0 {
        "-"@ + decimal((-n) as nat)
    } else {
        decimal(n as nat)
    }
}

impl PairErrorView {
    /// The words for this error.
    pub open spec fn words(self) -> Seq<char> {
        match self {
            PairErrorView::OldServer(v) => "host reports server version "@ + decimal(v as nat)
                + " < 7; only SHA-256 pairing is supported"@,
            PairErrorView::NotPaired => "host did not return paired=1"@,
            PairErrorView::AlreadyInProgress =>
                "another pairing is already in progress on the host"@,
            PairErrorView::WrongPin => "wrong PIN"@,
            PairErrorView::BadServerSignature => "server signature invalid (possible MITM)"@,
            PairErrorView::Malformed(s) => "malformed response: "@ + s,
        }
    }
}

impl ErrorView {
    /// The words for this error.
    pub open spec fn words(self) -> Seq<char> {
        match self {
            ErrorView::Http(s) => "http: "@ + s,
            ErrorView::Xml(s) => "xml: "@ + s,
            ErrorView::Status { code, message } => "server returned status "@ + signed_decimal(
                code as int,
            ) + (": "@ + message),
            ErrorView::Missing(s) => "missing field "@ + s + " in response"@,
            ErrorView::Hex(e) => "hex: "@ + e.words(),
            ErrorView::Crypto(s) => "crypto: "@ + s,
            ErrorView::Identity(s) => "identity: "@ + s,
            ErrorView::Io(s) => "io: "@ + s,
            ErrorView::Tls(s) => "tls: "@ + s,
            ErrorView::Pair(e) => "pairing: "@ + e.words(),
        }
    }
}

impl PairError {
    /// The words for this error.
    pub fn message(&self) -> (r: String)
        ensures
            r@ == self@.words(),
    {
        match self {
            PairError::OldServer(v) => {
                let n = decimal_text(*v as u64);
                cat3(
                    "host reports server version ",
                    n.as_str(),
                    " < 7; only SHA-256 pairing is supported",
                )
            },
            PairError::NotPaired => "host did not return paired=1".to_owned(),
            PairError::AlreadyInProgress =>
                "another pairing is already in progress on the host".to_owned(),
            PairError::WrongPin => "wrong PIN".to_owned(),
            PairError::BadServerSignature => "server signature invalid (possible MITM)".to_owned(),
            PairError::Malformed(s) => cat2("malformed response: ", s.as_str()),
        }
    }
}

/// The decimal notation of a signed number.
fn signed_decimal_text(n: i32) -> (r: String)
    ensures
        r@ == signed_decimal(n as int),
{
    if n < 0 {
        let digits = decimal_text((-(n as i64)) as u64);
        cat2("-", digits.as_str())
    } else {
        decimal_text(n as u64)
    }
}

impl Error {
    /// The words for this error.
    pub fn message(&self) -> (r: String)
        ensures
            r@ == self@.words(),
    {
        match self {
            Error::Http(s) => cat2("http: ", s.as_str()),
            Error::Xml(s) => cat2("xml: ", s.as_str()),
            Error::Status { code, message } => {
                let n = signed_decimal_text(*code);
                let tail = cat2(": ", message.as_str());
                cat3("server returned status ", n.as_str(), tail.as_str())
            },
            Error::Missing(s) => cat3("missing field ", s, " in response"),
            Error::Hex(e) => {
                let words = e.message();
                cat2("hex: ", words.as_str())
            },
            Error::Crypto(s) => cat2("crypto: ", s.as_str()),
            Error::Identity(s) => cat2("identity: ", s.as_str()),
            Error::Io(s) => cat2("io: ", s.as_str()),
            Error::Tls(s) => cat2("tls: ", s.as_str()),
            Error::Pair(e) => {
                let words = e.message();
                cat2("pairing: ", words.as_str())
            },
        }
    }
}

} // verus!
