//! Requests of the GameStream HTTP transport: addresses, URLs and TLS material.
//!
//! Every request carries `uniqueid=<client uid>&uuid=<random 16 bytes hex>`
//! first, as Moonlight does. HTTPS uses the client identity as TLS client
//! certificate and *pins* the host's self-signed certificate instead of
//! doing PKI validation.

use vstd::prelude::*;
use vstd::string::StringExecFns;
use crate::crypto::{pem_der, pem_to_der};
use crate::error::{Error, ErrorView};
use crate::foreign::{
    byte_strings, hex_encode, hex_of, pem_certs, pem_private_key, random_bytes, read_pem_certs,
    read_pem_private_key, KeyKind,
};
use crate::identity::Identity;
use crate::text::{bytes_eq, cat2, cat3, chars, decimal, decimal_text};

verus! {

#[derive(Debug, PartialEq, Eq)]
pub struct HostAddr {
    pub host: String,
    pub http_port: u16,
    pub https_port: u16,
}

impl Clone for HostAddr {
    fn clone(&self) -> (r: Self)
        ensures
            r == *self,
    {
        HostAddr {
            host: self.host.clone(),
            http_port: self.http_port,
            https_port: self.https_port,
        }
    }
}

/// The HTTPS port that belongs to a base port: five below, wrapping around.
pub open spec fn https_port_of(base_port: u16) -> u16 {
    if base_port >= 5 {
        (base_port - 5) as u16
    } else {
        (base_port + 0x10000 - 5) as u16
    }
}

/// A host as it stands in a URL: an IPv6 address gets brackets.
pub open spec fn url_host(host: Seq<char>) -> Seq<char> {
    if host.contains(':') && host[0] != '[' {
        "["@ + host + "]"@
    } else {
        host
    }
}

/// Scheme, host and port.
pub open spec fn base_url(scheme: Seq<char>, host: Seq<char>, port: u16) -> Seq<char> {
    scheme + url_host(host) + ":"@ + decimal(port as nat)
}

/// Scheme, host and port.
fn base(scheme: &str, host: &str, port: u16) -> (r: String)
    ensures
        r@ == scheme@ + host@ + ":"@ + decimal(port as nat),
{
    let mut s = cat3(scheme, host, ":");
    let p = decimal_text(port as u64);
    s.append(p.as_str());
    s
}

impl HostAddr {
    pub fn new(host: &str, base_port: u16) -> (r: Self)
        ensures
            r.host@ == host@,
            r.http_port == base_port,
            r.https_port == https_port_of(base_port),
    {
        HostAddr {
            host: host.to_owned(),
            http_port: base_port,
            https_port: base_port.wrapping_sub(5),
        }
    }

    pub fn fmt_host(&self) -> (r: String)
        ensures
            r@ == url_host(self.host@),
    {
        let v = chars(self.host.as_str());
        let mut i: usize = 0;
        while i < v.len()
            invariant
                v@ == self.host@,
                i <= v@.len(),
                forall|j: int| 0 <= j < i ==> v@[j] != ':',
            decreases v.len() - i,
        {
            if v[i] == ':' {
                assert(self.host@.contains(':'));
                if v[0] == '[' {
                    return self.host.clone();
                }
                return cat3("[", self.host.as_str(), "]");
            }
            i += 1;
        }
        self.host.clone()
    }

    pub fn http_base(&self) -> (r: String)
        ensures
            r@ == base_url("http://"@, self.host@, self.http_port),
    {
        let host = self.fmt_host();
        base("http://", host.as_str(), self.http_port)
    }

    pub fn https_base(&self) -> (r: String)
        ensures
            r@ == base_url("https://"@, self.host@, self.https_port),
    {
        let host = self.fmt_host();
        base("https://", host.as_str(), self.https_port)
    }
}

/// Verifier that accepts exactly one DER certificate.
#[derive(Debug)]
pub struct PinnedCert {
    pub der: Vec<u8>,
}

impl PinnedCert {
    /// Whether a server that shows the certificate `end_entity` is the pinned one.
    pub fn accepts(&self, end_entity: &[u8]) -> (r: bool)
        ensures
            r == (end_entity@ == self.der@),
    {
        bytes_eq(end_entity, self.der.as_slice())
    }
}

/// What a TLS connection to a paired host needs.
#[derive(Debug)]
pub struct TlsMaterial {
    /// The host's certificate, to be pinned.
    pub server: PinnedCert,
    /// The client's certificates.
    pub client_certs: Vec<Vec<u8>>,
    pub client_key_kind: KeyKind,
    pub client_key: Vec<u8>,
}

/// What a [`TlsMaterial`] holds.
pub struct TlsMaterialView {
    pub server_der: Seq<u8>,
    pub client_certs: Seq<Seq<u8>>,
    pub client_key_kind: KeyKind,
    pub client_key: Seq<u8>,
}

impl View for TlsMaterial {
    type V = TlsMaterialView;

    open spec fn view(&self) -> TlsMaterialView {
        TlsMaterialView {
            server_der: self.server.der@,
            client_certs: byte_strings(self.client_certs@),
            client_key_kind: self.client_key_kind,
            client_key: self.client_key@,
        }
    }
}

/// The TLS material for an identity and a host certificate.
pub open spec fn tls_material_of(
    cert_pem: Seq<char>,
    key_pem: Seq<char>,
    server_cert_pem: Seq<char>,
) -> Result<TlsMaterialView, ErrorView> {
    match pem_der(server_cert_pem) {
        Err(e) => Err(e),
        Ok(server_der) => match pem_certs(cert_pem) {
            Err(e) => Err(ErrorView::Tls("client cert: "@ + e)),
            Ok(client_certs) => match pem_private_key(key_pem) {
                Err(e) => Err(ErrorView::Tls("client key: "@ + e)),
                Ok(None) => Err(ErrorView::Tls("no private key in identity"@)),
                Ok(Some(k)) => Ok(
                    TlsMaterialView {
                        server_der,
                        client_certs,
                        client_key_kind: k.0,
                        client_key: k.1,
                    },
                ),
            },
        },
    }
}

/// What every query starts with.
pub open spec fn query_prefix_of(unique_id: Seq<char>, uuid: Seq<u8>) -> Seq<char> {
    "uniqueid="@ + unique_id + "&uuid="@ + hex_of(uuid)
}

/// The URL of a command.
pub open spec fn url_of(
    base: Seq<char>,
    command: Seq<char>,
    prefix: Seq<char>,
    args: Seq<char>,
) -> Seq<char> {
    if args.len() == 0 {
        base + "/"@ + command + "?"@ + prefix
    } else {
        base + "/"@ + command + "?"@ + prefix + "&"@ + args
    }
}

/// How long, in seconds, a plain request may take from when it is sent: what is
/// asked for, and without limit where nothing is said (needed for `getservercert`,
/// which parks until the PIN is entered).
pub fn http_timeout_secs(timeout: Option<u64>) -> (r: Option<u64>)
    ensures
        r == timeout,
{
    timeout
}

/// GameStream requests bound to one identity.
pub struct GsHttp {
    pub identity: Identity,
}

impl GsHttp {
    pub fn new(identity: Identity) -> (r: Self)
        ensures
            r.identity == identity,
    {
        GsHttp { identity }
    }

    pub fn identity(&self) -> (r: &Identity)
        ensures
            *r == self.identity,
    {
        &self.identity
    }

    /// What every query starts with, for the given random bytes.
    pub fn query_prefix_with(&self, uuid: &[u8]) -> (r: String)
        ensures
            r@ == query_prefix_of(self.identity@.unique_id, uuid@),
    {
        let hex = hex_encode(uuid);
        let mut s = cat3("uniqueid=", self.identity.unique_id.as_str(), "&uuid=");
        s.append(hex.as_str());
        s
    }

    /// The URL of a command, for the given random bytes.
    pub fn url_with(&self, base: &str, command: &str, args: &str, uuid: &[u8]) -> (r: String)
        ensures
            r@ == url_of(
                base@,
                command@,
                query_prefix_of(self.identity@.unique_id, uuid@),
                args@,
            ),
    {
        let prefix = self.query_prefix_with(uuid);
        let mut s = cat3(base, "/", command);
        s.append("?");
        s.append(prefix.as_str());
        if chars(args).len() != 0 {
            s.append("&");
            s.append(args);
        }
        s
    }

    /// The URL of a command.
    pub fn url(&self, base: &str, command: &str, args: &str) -> (r: String)
        ensures
            exists|uuid: Seq<u8>|
                uuid.len() == 16 && r@ == url_of(
                    base@,
                    command@,
                    #[trigger] query_prefix_of(self.identity@.unique_id, uuid),
                    args@,
                ),
    {
        let uuid = random_bytes(16);
        let r = self.url_with(base, command, args, uuid.as_slice());
        assert(r@ == url_of(
            base@,
            command@,
            query_prefix_of(self.identity@.unique_id, uuid@),
            args@,
        ));
        r
    }

    /// What an HTTPS client needs that authenticates with our cert and pins
    /// `server_cert_pem`.
    pub fn tls_material(&self, server_cert_pem: &str) -> (r: Result<TlsMaterial, Error>)
        ensures
            match r {
                Ok(m) => tls_material_of(
                    self.identity@.cert_pem,
                    self.identity@.key_pem,
                    server_cert_pem@,
                ) == Ok::<TlsMaterialView, ErrorView>(m@),
                Err(e) => tls_material_of(
                    self.identity@.cert_pem,
                    self.identity@.key_pem,
                    server_cert_pem@,
                ) == Err::<TlsMaterialView, ErrorView>(e@),
            },
    {
        let server_der = match pem_to_der(server_cert_pem) {
            Ok(d) => d,
            Err(e) => return Err(e),
        };
        let client_certs = match read_pem_certs(self.identity.cert_pem.as_str()) {
            Ok(c) => c,
            Err(e) => return Err(Error::Tls(cat2("client cert: ", e.as_str()))),
        };
        let (kind, key) = match read_pem_private_key(self.identity.key_pem.as_str()) {
            Ok(Some(k)) => k,
            Ok(None) => return Err(Error::Tls("no private key in identity".to_owned())),
            Err(e) => return Err(Error::Tls(cat2("client key: ", e.as_str()))),
        };
        Ok(
            TlsMaterial {
                server: PinnedCert { der: server_der },
                client_certs,
                client_key_kind: kind,
                client_key: key,
            },
        )
    }
}

} // verus!
