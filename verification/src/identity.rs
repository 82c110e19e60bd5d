//! Client identity: a 2048-bit RSA key and a self-signed certificate with
//! `CN=NVIDIA GameStream Client`, plus a 16-hex-char `uniqueid`.

use vstd::prelude::*;
use crate::client_config::{join_path, joined_path};
use crate::crypto::{generate_key, public_key_of_cert};
use crate::error::{Error, ErrorView};
use crate::foreign::{
    hex_digit, hex_encode, hex_of, nibble, pem_certs, pkcs1_key, pkcs8_key, pkcs8_pem, random_bytes,
    rcgen_check_key, rcgen_key_error, rcgen_self_signed, rsa_from_pkcs1_pem, rsa_from_pkcs8_pem,
    rsa_to_pkcs8_pem, self_signed_der, utc_seconds, RsaPrivateKey, RsaPrivateView, RsaPublicView,
};
use crate::text::{cat2, is_space, str_view, trim, trimmed, utf8};

verus! {

pub const CERT_FILE: &'static str = "client.crt";

pub const KEY_FILE: &'static str = "client.key";

pub const UID_FILE: &'static str = "uniqueid";

/// The common name in the certificate of an identity.
pub const CLIENT_NAME: &'static str = "NVIDIA GameStream Client";

/// The bits of a generated key's modulus.
pub const KEY_BITS: usize = 2048;

pub struct Identity {
    pub unique_id: String,
    pub cert_pem: String,
    pub key_pem: String,
    pub key: RsaPrivateKey,
}

/// What an [`Identity`] holds.
pub struct IdentityView {
    pub unique_id: Seq<char>,
    pub cert_pem: Seq<char>,
    pub key_pem: Seq<char>,
    pub key: RsaPrivateView,
}

impl View for Identity {
    type V = IdentityView;

    open spec fn view(&self) -> IdentityView {
        IdentityView {
            unique_id: self.unique_id@,
            cert_pem: self.cert_pem@,
            key_pem: self.key_pem@,
            key: self.key@,
        }
    }
}

impl Clone for Identity {
    fn clone(&self) -> (r: Self)
        ensures
            r@ == self@,
    {
        Identity {
            unique_id: self.unique_id.clone(),
            cert_pem: self.cert_pem.clone(),
            key_pem: self.key_pem.clone(),
            key: self.key.clone(),
        }
    }
}

/// The private key in a PEM text: PKCS#8, or else PKCS#1.
pub open spec fn key_of_pem(pem: Seq<char>) -> Result<RsaPrivateView, ErrorView> {
    match pkcs8_key(pem) {
        Ok(k) => Ok(k),
        Err(_) => match pkcs1_key(pem) {
            Ok(k) => Ok(k),
            Err(e) => Err(ErrorView::Identity("private key: "@ + e)),
        },
    }
}

impl IdentityView {
    /// The private key is the one that the PEM text holds.
    pub open spec fn wf(self) -> bool {
        key_of_pem(self.key_pem) == Ok::<RsaPrivateView, ErrorView>(self.key)
    }

    /// The certificate holds the public half of the private key.
    pub open spec fn cert_matches_key(self) -> bool {
        public_key_of_cert(self.cert_pem) == Ok::<RsaPublicView, ErrorView>(self.key.public())
    }
}

/// What an identity read from its three texts is.
pub open spec fn identity_of(
    unique_id: Seq<char>,
    cert_pem: Seq<char>,
    key_pem: Seq<char>,
) -> Result<IdentityView, ErrorView> {
    match key_of_pem(key_pem) {
        Ok(key) => Ok(IdentityView { unique_id, cert_pem, key_pem, key }),
        Err(e) => Err(e),
    }
}

/// The validity of a certificate made at `now`: from a day before.
pub open spec fn not_before(now: int) -> int {
    now - 86400
}

/// The validity of a certificate made at `now`: to twenty years after.
pub open spec fn not_after(now: int) -> int {
    now + 20 * 365 * 86400
}

/// Whether both ends of the validity of a certificate made at `now` lie in the
/// years 0 to 9999.
pub open spec fn clock_in_range(now: int) -> bool {
    -62167219200 <= not_before(now) && not_after(now) <= 253402300799
}

/// The self-signed certificate for a key and a common name, made at `now`.
pub open spec fn cert_made_at(key_pem: Seq<char>, common_name: Seq<char>, now: int) -> Result<
    Seq<u8>,
    ErrorView,
> {
    match rcgen_key_error(key_pem) {
        Some(e) => Err(ErrorView::Identity("rcgen key: "@ + e)),
        None => if !clock_in_range(now) {
            Err(ErrorView::Identity("system clock out of range"@))
        } else {
            match self_signed_der(key_pem, common_name, not_before(now), not_after(now)) {
                Ok(der) => Ok(der),
                Err(e) => Err(ErrorView::Identity("rcgen sign: "@ + e)),
            }
        },
    }
}

/// A key's PEM text and the self-signed certificate for it, made at `now`.
pub open spec fn key_and_cert(key: RsaPrivateView, common_name: Seq<char>, now: int) -> Result<
    (Seq<char>, Seq<u8>),
    ErrorView,
> {
    match pkcs8_pem(key) {
        Err(w) => Err(ErrorView::Identity(w)),
        Ok(pem) => match cert_made_at(pem, common_name, now) {
            Ok(der) => Ok((pem, der)),
            Err(e) => Err(e),
        },
    }
}

/// Build a self-signed X.509 v3 certificate valid for 20 years from `now`, in
/// seconds since the Unix epoch. Where its dates cannot be written, that is an
/// error.
pub fn self_signed_cert_at(key_pkcs8_pem: &str, common_name: &str, now: i64) -> (r: Result<
    String,
    Error,
>)
    ensures
        match r {
            Ok(pem) => {
                let made = cert_made_at(key_pkcs8_pem@, common_name@, now as int);
                &&& made is Ok
                &&& pem@.len() > 0
                &&& pem_certs(pem@) == Ok::<Seq<Seq<u8>>, Seq<char>>(seq![made->Ok_0])
                &&& forall|k: RsaPrivateView|
                    k.minimal() && #[trigger] pkcs8_pem(k) == Ok::<Seq<char>, Seq<char>>(
                        key_pkcs8_pem@,
                    ) ==> public_key_of_cert(pem@) == Ok::<RsaPublicView, ErrorView>(k.public())
            },
            Err(e) => cert_made_at(key_pkcs8_pem@, common_name@, now as int) == Err::<
                Seq<u8>,
                ErrorView,
            >(e@),
        },
{
    match rcgen_check_key(key_pkcs8_pem) {
        Some(e) => return Err(Error::Identity(cat2("rcgen key: ", e.as_str()))),
        None => {},
    }
    if now < -62167132800 || now > 253402300799 - 20 * 365 * 86400 {
        return Err(Error::Identity("system clock out of range".to_owned()));
    }
    match rcgen_self_signed(key_pkcs8_pem, common_name, now - 86400, now + 20 * 365 * 86400) {
        Ok(pem) => Ok(pem),
        Err(e) => Err(Error::Identity(cat2("rcgen sign: ", e.as_str()))),
    }
}

/// Build a self-signed X.509 v3 certificate valid for 20 years from now.
pub fn self_signed_cert(key_pkcs8_pem: &str, common_name: &str) -> (r: Result<String, Error>)
    ensures
        match r {
            Ok(pem) => {
                &&& pem@.len() > 0
                &&& exists|now: int|
                    {
                        let made = #[trigger] cert_made_at(key_pkcs8_pem@, common_name@, now);
                        made is Ok && pem_certs(pem@) == Ok::<Seq<Seq<u8>>, Seq<char>>(
                            seq![made->Ok_0],
                        )
                    }
                &&& forall|k: RsaPrivateView|
                    k.minimal() && #[trigger] pkcs8_pem(k) == Ok::<Seq<char>, Seq<char>>(
                        key_pkcs8_pem@,
                    ) ==> public_key_of_cert(pem@) == Ok::<RsaPublicView, ErrorView>(k.public())
            },
            Err(e) => exists|now: int| #[trigger]
                cert_made_at(key_pkcs8_pem@, common_name@, now) == Err::<Seq<u8>, ErrorView>(e@),
        },
{
    let now: i64 = utc_seconds();
    let ghost made = cert_made_at(key_pkcs8_pem@, common_name@, now as int);
    self_signed_cert_at(key_pkcs8_pem, common_name, now)
}

/// Moonlight renders 8 random bytes as lowercase hex without zero padding;
/// we always emit 16 hex chars, which Apollo accepts as-is.
pub fn random_unique_id() -> (r: String)
    ensures
        exists|b: Seq<u8>| b.len() == 8 && r@ == hex_of(b),
{
    let b = random_bytes(8);
    let r = hex_encode(b.as_slice());
    assert(b@.len() == 8 && r@ == hex_of(b@));
    r
}

/// The directory of an identity where none is named: in the program's own
/// directory, or else below the user's, or else below the current one.
pub open spec fn default_dir_of(
    ra_home: Option<Seq<char>>,
    home: Option<Seq<char>>,
    user_profile: Option<Seq<char>>,
    separator: char,
) -> Seq<char> {
    let base = match ra_home {
        Some(r) => r,
        None => {
            let user = match home {
                Some(h) => h,
                None => match user_profile {
                    Some(u) => u,
                    None => "."@,
                },
            };
            joined_path(joined_path(user, separator, ".config"@), separator, "remote-access"@)
        },
    };
    joined_path(base, separator, "identity"@)
}

/// A file of a saved identity.
pub struct IdentityFile {
    pub name: String,
    pub contents: String,
    /// Whether only the owner may read and write it.
    pub private: bool,
}

impl Identity {
    /// The identity of a key: its PEM text, a certificate made at `now`, and the
    /// given `uniqueid`.
    pub fn from_key(key: RsaPrivateKey, unique_id: String, now: i64) -> (r: Result<Self, Error>)
        requires
            key@.minimal(),
        ensures
            match r {
                Ok(id) => {
                    let made = key_and_cert(key@, CLIENT_NAME@, now as int);
                    &&& id@.unique_id == unique_id@
                    &&& id@.key == key@
                    &&& made is Ok
                    &&& id@.key_pem == (made->Ok_0).0
                    &&& pem_certs(id@.cert_pem) == Ok::<Seq<Seq<u8>>, Seq<char>>(
                        seq![(made->Ok_0).1],
                    )
                    &&& id@.wf()
                    &&& id@.cert_matches_key()
                    &&& id@.cert_pem.len() > 0
                },
                Err(e) => key_and_cert(key@, CLIENT_NAME@, now as int) == Err::<
                    (Seq<char>, Seq<u8>),
                    ErrorView,
                >(e@),
            },
    {
        let key_pem = match rsa_to_pkcs8_pem(&key) {
            Ok(p) => p,
            Err(e) => return Err(Error::Identity(e)),
        };
        match self_signed_cert_at(key_pem.as_str(), CLIENT_NAME, now) {
            Ok(cert_pem) => Ok(Identity { unique_id, cert_pem, key_pem, key }),
            Err(e) => Err(e),
        }
    }

    /// Generate a fresh identity (slow: RSA-2048 keygen). Its parts agree, and its
    /// `uniqueid` is 16 hex chars.
    pub fn generate() -> (r: Result<Self, Error>)
        ensures
            match r {
                Ok(id) => {
                    &&& id@.wf()
                    &&& id@.cert_matches_key()
                    &&& id@.cert_pem.len() > 0
                    &&& id@.key.minimal() && id@.key.n.len() == 256
                    &&& exists|b: Seq<u8>| b.len() == 8 && id@.unique_id == hex_of(b)
                    &&& exists|now: int|
                        {
                            let made = #[trigger] key_and_cert(id@.key, CLIENT_NAME@, now);
                            &&& made is Ok
                            &&& id@.key_pem == (made->Ok_0).0
                            &&& pem_certs(id@.cert_pem) == Ok::<Seq<Seq<u8>>, Seq<char>>(
                                seq![(made->Ok_0).1],
                            )
                        }
                },
                Err(e) => exists|key: RsaPrivateView, now: int|
                    key.minimal() && key.n.len() == 256 && #[trigger] key_and_cert(
                        key,
                        CLIENT_NAME@,
                        now,
                    ) == Err::<(Seq<char>, Seq<u8>), ErrorView>(e@),
            },
    {
        let key = match generate_key(KEY_BITS) {
            Ok(k) => k,
            Err(e) => return Err(e),
        };
        let unique_id = random_unique_id();
        let now: i64 = utc_seconds();
        let ghost made = key_and_cert(key@, CLIENT_NAME@, now as int);
        Identity::from_key(key, unique_id, now)
    }

    pub fn from_pem(unique_id: String, cert_pem: String, key_pem: String) -> (r: Result<
        Self,
        Error,
    >)
        ensures
            match r {
                Ok(id) => identity_of(unique_id@, cert_pem@, key_pem@) == Ok::<
                    IdentityView,
                    ErrorView,
                >(id@),
                Err(e) => identity_of(unique_id@, cert_pem@, key_pem@) == Err::<
                    IdentityView,
                    ErrorView,
                >(e@),
            },
            r matches Ok(id) ==> id@.wf(),
    {
        let key = match rsa_from_pkcs8_pem(key_pem.as_str()) {
            Ok(k) => k,
            Err(_) => match rsa_from_pkcs1_pem(key_pem.as_str()) {
                Ok(k) => k,
                Err(e) => return Err(Error::Identity(cat2("private key: ", e.as_str()))),
            },
        };
        Ok(Identity { unique_id, cert_pem, key_pem, key })
    }

    /// The identity held in the texts of its three files.
    pub fn from_files(unique_id: &str, cert_pem: String, key_pem: String) -> (r: Result<
        Self,
        Error,
    >)
        ensures
            match r {
                Ok(id) => identity_of(trimmed(unique_id@), cert_pem@, key_pem@) == Ok::<
                    IdentityView,
                    ErrorView,
                >(id@),
                Err(e) => identity_of(trimmed(unique_id@), cert_pem@, key_pem@) == Err::<
                    IdentityView,
                    ErrorView,
                >(e@),
            },
    {
        let uid = trim(unique_id);
        Identity::from_pem(uid, cert_pem, key_pem)
    }

    /// The files to save, in the order in which they are written.
    pub fn files(&self) -> (r: Vec<IdentityFile>)
        ensures
            r@.len() == 3,
            r@[0].name@ == CERT_FILE@ && r@[0].contents@ == self@.cert_pem && !r@[0].private,
            r@[1].name@ == KEY_FILE@ && r@[1].contents@ == self@.key_pem && r@[1].private,
            r@[2].name@ == UID_FILE@ && r@[2].contents@ == self@.unique_id && !r@[2].private,
    {
        let mut v: Vec<IdentityFile> = Vec::new();
        v.push(
            IdentityFile {
                name: CERT_FILE.to_owned(),
                contents: self.cert_pem.clone(),
                private: false,
            },
        );
        v.push(
            IdentityFile {
                name: KEY_FILE.to_owned(),
                contents: self.key_pem.clone(),
                private: true,
            },
        );
        v.push(
            IdentityFile {
                name: UID_FILE.to_owned(),
                contents: self.unique_id.clone(),
                private: false,
            },
        );
        v
    }

    /// The directory of an identity where none is named; the arguments are what the
    /// environment says of `RA_HOME`, `HOME` and `USERPROFILE`.
    pub fn default_dir(
        ra_home: Option<&str>,
        home: Option<&str>,
        user_profile: Option<&str>,
        separator: char,
    ) -> (r: String)
        ensures
            r@ == default_dir_of(
                str_view(ra_home),
                str_view(home),
                str_view(user_profile),
                separator,
            ),
    {
        let base = match ra_home {
            Some(r) => r.to_owned(),
            None => {
                let user = match home {
                    Some(h) => h,
                    None => match user_profile {
                        Some(u) => u,
                        None => ".",
                    },
                };
                let config = join_path(user, separator, ".config");
                join_path(config.as_str(), separator, "remote-access")
            },
        };
        join_path(base.as_str(), separator, "identity")
    }

    pub fn private_key(&self) -> (r: &RsaPrivateKey)
        ensures
            r@ == self@.key,
    {
        &self.key
    }

    /// Hex encoding of the PEM text, as sent in the `clientcert` query param.
    pub fn cert_hex(&self) -> (r: String)
        ensures
            r@ == hex_of(utf8(self@.cert_pem)),
    {
        hex_encode(self.cert_pem.as_str().as_bytes())
    }
}

/// A text of hexadecimal digits has no white space to trim.
pub proof fn lemma_trimmed_hex(b: Seq<u8>)
    ensures
        trimmed(hex_of(b)) == hex_of(b),
{
    let s = hex_of(b);
    assert forall|i: int| 0 <= i < s.len() implies !is_space(#[trigger] s[i]) by {
        assert(0 <= nibble(b, i) < 16);
        assert(s[i] == hex_digit(nibble(b, i)));
    }
}

/// What was saved loads back: the three texts that [`Identity::files`] gives for
/// a generated identity are read by [`Identity::from_files`] as that identity.
pub proof fn saved_identity_loads_back(id: IdentityView, b: Seq<u8>)
    requires
        id.wf(),
        id.unique_id == hex_of(b),
    ensures
        identity_of(trimmed(id.unique_id), id.cert_pem, id.key_pem) == Ok::<
            IdentityView,
            ErrorView,
        >(id),
{
    lemma_trimmed_hex(b);
}

} // verus!
