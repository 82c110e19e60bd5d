//! The calls into other crates. Each function here hands its arguments to one
//! outside function and gives back what it returned, as plain values; what its
//! contract says of the result is taken on trust.

use vstd::prelude::*;
use crate::nesting::{xml_nesting, MAX_NESTING};
use crate::text::{cat2, cat3, decimal, decimal_text, text_view, utf8};
use rand::Rng;
use rand::RngCore;
use sha2::Digest;
use chacha20poly1305::aead::Aead;
use chacha20poly1305::KeyInit;
use aes::cipher::BlockDecrypt;
use aes::cipher::BlockEncrypt;
use rsa::pkcs1::DecodeRsaPrivateKey;
use rsa::pkcs1::DecodeRsaPublicKey;
use rsa::pkcs8::DecodePrivateKey;
use rsa::pkcs8::EncodePrivateKey;
use rsa::traits::PrivateKeyParts;
use rsa::traits::PublicKeyParts;
use signature::SignatureEncoding;
use signature::Signer;
use signature::Verifier;

verus! {

/// Why a text is not the hexadecimal notation of some bytes.
#[derive(Debug, Clone, Copy, PartialEq, Eq, Structural)]
pub enum HexError {
    /// The byte at `index` is no hexadecimal digit.
    InvalidHexCharacter { c: char, index: usize },
    /// The number of digits is odd.
    OddLength,
    /// The number of digits does not fit the output.
    InvalidStringLength,
}

/// The lower-case hexadecimal digit for `d`, for `d` below sixteen.
pub open spec fn hex_digit(d: int) -> char {
    if d < 10 {
        (('0' as u32) + d) as u32 as char
    } else {
        (('a' as u32) + (d - 10)) as u32 as char
    }
}

/// The upper-case hexadecimal digit for `d`, for `d` below sixteen.
pub open spec fn hex_digit_upper(d: int) -> char {
    if d < 10 {
        (('0' as u32) + d) as u32 as char
    } else {
        (('A' as u32) + (d - 10)) as u32 as char
    }
}

/// The half of byte `i / 2` that digit `i` of its notation shows.
pub open spec fn nibble(b: Seq<u8>, i: int) -> int {
    if i % 2 == 0 {
        b[i / 2] as int / 16
    } else {
        b[i / 2] as int % 16
    }
}

/// The lower-case hexadecimal notation of `b`, two digits for each byte.
pub open spec fn hex_of(b: Seq<u8>) -> Seq<char> {
    Seq::new(2 * b.len(), |i: int| hex_digit(nibble(b, i)))
}

/// The upper-case hexadecimal notation of `b`, two digits for each byte.
pub open spec fn hex_upper_of(b: Seq<u8>) -> Seq<char> {
    Seq::new(2 * b.len(), |i: int| hex_digit_upper(nibble(b, i)))
}

/// What a byte is worth as a hexadecimal digit of either case.
pub open spec fn hex_value(c: u8) -> Option<int> {
    if 48 <= c <= 57 {
        Some(c - 48)
    } else if 97 <= c <= 102 {
        Some(c - 87)
    } else if 65 <= c <= 70 {
        Some(c - 55)
    } else {
        None
    }
}

/// The position of the first byte that is no hexadecimal digit, or the length.
pub open spec fn first_non_hex(b: Seq<u8>) -> nat
    decreases b.len(),
{
    if b.len() == 0 || hex_value(b[0]) is None {
        0
    } else {
        1 + first_non_hex(b.drop_first())
    }
}

/// The bytes whose hexadecimal notation is the text with bytes `b`.
pub open spec fn hex_decoded(b: Seq<u8>) -> Result<Seq<u8>, HexError> {
    let bad = first_non_hex(b);
    if b.len() % 2 != 0 {
        Err(HexError::OddLength)
    } else if bad < b.len() {
        Err(HexError::InvalidHexCharacter { c: b[bad as int] as char, index: bad as usize })
    } else {
        Ok(
            Seq::new(
                b.len() / 2,
                |i: int| (16 * hex_value(b[2 * i])->0 + hex_value(b[2 * i + 1])->0) as u8,
            ),
        )
    }
}

/// The quoted and escaped notation of a character.
pub uninterp spec fn char_quoted(c: char) -> Seq<char>;

/// The `Debug` notation that std gives a `char`: in single quotes, with escapes
/// where needed.
#[verifier::external_body]
pub(crate) fn quote_char(c: char) -> (r: String)
    ensures
        r@ == char_quoted(c),
{
    format!("{c:?}")
}

impl HexError {
    /// The words for this error.
    pub open spec fn words(self) -> Seq<char> {
        match self {
            HexError::InvalidHexCharacter { c, index } => "Invalid character "@ + char_quoted(c)
                + " at position "@ + decimal(index as nat),
            HexError::OddLength => "Odd number of digits"@,
            HexError::InvalidStringLength => "Invalid string length"@,
        }
    }

    /// The words for this error.
    pub fn message(&self) -> (r: String)
        ensures
            r@ == self.words(),
    {
        match self {
            HexError::InvalidHexCharacter { c, index } => {
                let quoted = quote_char(*c);
                let start = cat3("Invalid character ", quoted.as_str(), " at position ");
                let at = decimal_text(*index as u64);
                cat2(start.as_str(), at.as_str())
            },
            HexError::OddLength => "Odd number of digits".to_owned(),
            HexError::InvalidStringLength => "Invalid string length".to_owned(),
        }
    }
}

/// `hex::encode` writes bytes in lower-case hexadecimal.
#[verifier::external_body]
pub(crate) fn hex_encode(b: &[u8]) -> (r: String)
    ensures
        r@ == hex_of(b@),
{
    hex::encode(b)
}

/// `hex::encode_upper` writes bytes in upper-case hexadecimal.
#[verifier::external_body]
pub(crate) fn hex_encode_upper(b: &[u8]) -> (r: String)
    ensures
        r@ == hex_upper_of(b@),
{
    hex::encode_upper(b)
}

/// `hex::decode` reads hexadecimal digits of either case back into bytes. An
/// odd number of bytes is refused first, then the first byte that is no digit.
#[verifier::external_body]
pub(crate) fn hex_decode(s: &str) -> (r: Result<Vec<u8>, HexError>)
    ensures
        match r {
            Ok(v) => hex_decoded(utf8(s@)) == Ok::<Seq<u8>, HexError>(v@),
            Err(e) => hex_decoded(utf8(s@)) == Err::<Seq<u8>, HexError>(e),
        },
{
    match hex::decode(s) {
        Ok(v) => Ok(v),
        Err(hex::FromHexError::InvalidHexCharacter { c, index }) => Err(
            HexError::InvalidHexCharacter { c, index },
        ),
        Err(hex::FromHexError::OddLength) => Err(HexError::OddLength),
        Err(hex::FromHexError::InvalidStringLength) => Err(HexError::InvalidStringLength),
    }
}

/// Whether a character is alphabetic or numeric in Unicode.
pub uninterp spec fn is_alphanumeric(c: char) -> bool;

/// `char::is_alphanumeric` of std: the Unicode properties `Alphabetic` and the
/// numeric categories. Of the ASCII characters these are the letters and digits.
#[verifier::external_body]
pub(crate) fn char_is_alphanumeric(c: char) -> (r: bool)
    ensures
        r == is_alphanumeric(c),
        (c as u32) < 128 ==> r == (('A' <= c && c <= 'Z') || ('a' <= c && c <= 'z') || ('0' <= c
            && c <= '9')),
{
    c.is_alphanumeric()
}

/// The SHA-256 digest of some bytes.
pub uninterp spec fn sha256_of(data: Seq<u8>) -> Seq<u8>;

/// `sha2::Sha256::digest` computes the 32-byte SHA-256 digest of `data`.
#[verifier::external_body]
pub(crate) fn sha256_digest(data: &[u8]) -> (r: [u8; 32])
    ensures
        r@ == sha256_of(data@),
{
    sha2::Sha256::digest(data).into()
}

/// `RngCore::fill_bytes` on rand's thread-local generator fills a buffer of `n`
/// bytes. Which bytes come is left to chance.
#[verifier::external_body]
pub(crate) fn random_bytes(n: usize) -> (r: Vec<u8>)
    ensures
        r@.len() == n,
{
    let mut buf = vec![0u8; n];
    rand::thread_rng().fill_bytes(&mut buf);
    buf
}

/// `Rng::gen_range` on rand's thread-local generator draws a number from `lo`
/// up to, but not reaching, `hi`. Which one comes is left to chance.
#[verifier::external_body]
pub(crate) fn random_range(lo: u32, hi: u32) -> (r: u32)
    requires
        lo < hi,
    ensures
        lo <= r < hi,
{
    rand::thread_rng().gen_range(lo..hi)
}

/// The usual notation of a random identifier: lower-case hexadecimal digits in five
/// groups, of which two show the version and the variant.
pub open spec fn is_uuid_v4(s: Seq<char>) -> bool {
    &&& s.len() == 36
    &&& forall|i: int|
        0 <= i < 36 ==> {
            let c = #[trigger] s[i];
            if i == 8 || i == 13 || i == 18 || i == 23 {
                c == '-'
            } else if i == 14 {
                c == '4'
            } else if i == 19 {
                c == '8' || c == '9' || c == 'a' || c == 'b'
            } else {
                ('0' <= c && c <= '9') || ('a' <= c && c <= 'f')
            }
        }
}

/// `uuid::Uuid::new_v4` draws a random identifier, here in its usual notation.
/// Which one comes is left to chance.
#[verifier::external_body]
pub(crate) fn uuid_v4() -> (r: String)
    ensures
        is_uuid_v4(r@),
{
    uuid::Uuid::new_v4().to_string()
}

/// ChaCha20-Poly1305 under `key` and `nonce`: ciphertext and tag of `msg`.
pub uninterp spec fn chacha_sealed(key: Seq<u8>, nonce: Seq<u8>, msg: Seq<u8>) -> Seq<u8>;

/// ChaCha20-Poly1305 under `key` and `nonce`: the message that `sealed` holds,
/// if its tag is right.
pub uninterp spec fn chacha_opened(key: Seq<u8>, nonce: Seq<u8>, sealed: Seq<u8>) -> Option<
    Seq<u8>,
>;

/// `ChaCha20Poly1305::encrypt` with no associated data appends a 16-byte tag to
/// the ciphertext, which is as long as the message, and fails only past the
/// cipher's length limit. Decryption under the same key and nonce gives the
/// message back.
#[verifier::external_body]
pub(crate) fn chacha_seal(key: &[u8; 32], nonce: &[u8], msg: &[u8]) -> (r: Option<Vec<u8>>)
    requires
        nonce@.len() == 12,
    ensures
        msg@.len() <= 0xffff_ffff ==> r is Some,
        r matches Some(c) ==> {
            &&& c@ == chacha_sealed(key@, nonce@, msg@)
            &&& c@.len() == msg@.len() + 16
            &&& chacha_opened(key@, nonce@, c@) == Some(msg@)
        },
{
    let cipher = chacha20poly1305::ChaCha20Poly1305::new(key.into());
    cipher.encrypt(chacha20poly1305::Nonce::from_slice(nonce), msg).ok()
}

/// `ChaCha20Poly1305::decrypt` with no associated data checks the tag at the
/// end of `sealed` and gives the message, or fails.
#[verifier::external_body]
pub(crate) fn chacha_open(key: &[u8; 32], nonce: &[u8], sealed: &[u8]) -> (r: Option<Vec<u8>>)
    requires
        nonce@.len() == 12,
    ensures
        match r {
            Some(m) => chacha_opened(key@, nonce@, sealed@) == Some(m@),
            None => chacha_opened(key@, nonce@, sealed@) is None,
        },
{
    let cipher = chacha20poly1305::ChaCha20Poly1305::new(key.into());
    cipher.decrypt(chacha20poly1305::Nonce::from_slice(nonce), sealed).ok()
}

/// The words of std's error for bytes that are not valid UTF-8.
pub uninterp spec fn utf8_error(b: Seq<u8>) -> Seq<char>;

/// `String::from_utf8` of std takes bytes that are valid UTF-8 as a text and
/// refuses others, with words that depend on the bytes alone.
#[verifier::external_body]
pub(crate) fn text_from_utf8(b: Vec<u8>) -> (r: Result<String, String>)
    ensures
        match r {
            Ok(s) => vstd::utf8::valid_utf8(b@) && utf8(s@) == b@,
            Err(e) => !vstd::utf8::valid_utf8(b@) && e@ == utf8_error(b@),
        },
{
    String::from_utf8(b).map_err(|e| e.to_string())
}

/// AES-128 encryption of one block.
pub uninterp spec fn aes_block(key: Seq<u8>, block: Seq<u8>) -> Seq<u8>;

/// AES-128 decryption of one block.
pub uninterp spec fn aes_block_inverse(key: Seq<u8>, block: Seq<u8>) -> Seq<u8>;

/// `Aes128::encrypt_block` maps a 16-byte block to a 16-byte block;
/// `decrypt_block` under the same key undoes it.
#[verifier::external_body]
pub(crate) fn aes_encrypt_block(key: &[u8; 16], block: &[u8]) -> (r: Vec<u8>)
    requires
        block@.len() == 16,
    ensures
        r@ == aes_block(key@, block@),
        r@.len() == 16,
        aes_block_inverse(key@, r@) == block@,
{
    let cipher = aes::Aes128::new(key.into());
    let mut out = aes::Block::clone_from_slice(block);
    cipher.encrypt_block(&mut out);
    out.to_vec()
}

/// `Aes128::decrypt_block` maps a 16-byte block to a 16-byte block;
/// `encrypt_block` under the same key undoes it.
#[verifier::external_body]
pub(crate) fn aes_decrypt_block(key: &[u8; 16], block: &[u8]) -> (r: Vec<u8>)
    requires
        block@.len() == 16,
    ensures
        r@ == aes_block_inverse(key@, block@),
        r@.len() == 16,
        aes_block(key@, r@) == block@,
{
    let cipher = aes::Aes128::new(key.into());
    let mut out = aes::Block::clone_from_slice(block);
    cipher.decrypt_block(&mut out);
    out.to_vec()
}

/// An RSA private key with two primes. Each number is held as its big-endian
/// bytes.
#[derive(Debug)]
pub struct RsaPrivateKey {
    /// The modulus.
    pub n: Vec<u8>,
    /// The public exponent.
    pub e: Vec<u8>,
    /// The private exponent.
    pub d: Vec<u8>,
    /// The first prime.
    pub p: Vec<u8>,
    /// The second prime.
    pub q: Vec<u8>,
}

/// An RSA public key. Each number is held as its big-endian bytes.
#[derive(Debug)]
pub struct RsaPublicKey {
    /// The modulus.
    pub n: Vec<u8>,
    /// The public exponent.
    pub e: Vec<u8>,
}

/// The number with the big-endian bytes `b`.
pub open spec fn be_value(b: Seq<u8>) -> nat
    decreases b.len(),
{
    if b.len() == 0 {
        0
    } else {
        256 * be_value(b.drop_last()) + b.last() as nat
    }
}

/// The numbers of an [`RsaPrivateKey`].
#[verifier::ext_equal]
pub struct RsaPrivateView {
    pub n: Seq<u8>,
    pub e: Seq<u8>,
    pub d: Seq<u8>,
    pub p: Seq<u8>,
    pub q: Seq<u8>,
}

/// The numbers of an [`RsaPublicKey`].
#[verifier::ext_equal]
pub struct RsaPublicView {
    pub n: Seq<u8>,
    pub e: Seq<u8>,
}

impl View for RsaPrivateKey {
    type V = RsaPrivateView;

    open spec fn view(&self) -> RsaPrivateView {
        RsaPrivateView { n: self.n@, e: self.e@, d: self.d@, p: self.p@, q: self.q@ }
    }
}

impl View for RsaPublicKey {
    type V = RsaPublicView;

    open spec fn view(&self) -> RsaPublicView {
        RsaPublicView { n: self.n@, e: self.e@ }
    }
}

impl RsaPrivateView {
    /// The public half of the key.
    pub open spec fn public(self) -> RsaPublicView {
        RsaPublicView { n: self.n, e: self.e }
    }

    /// The same key with the larger prime first.
    pub open spec fn larger_prime_first(self) -> RsaPrivateView {
        if be_value(self.p) >= be_value(self.q) {
            self
        } else {
            RsaPrivateView { p: self.q, q: self.p, ..self }
        }
    }

    /// No number of the key is written with a leading zero byte.
    pub open spec fn minimal(self) -> bool {
        &&& self.n.len() > 0 && self.n[0] != 0
        &&& self.e.len() > 0 && self.e[0] != 0
        &&& self.d.len() > 0 && self.d[0] != 0
        &&& self.p.len() > 0 && self.p[0] != 0
        &&& self.q.len() > 0 && self.q[0] != 0
    }
}

impl Clone for RsaPrivateKey {
    fn clone(&self) -> (r: Self)
        ensures
            r@ == self@,
    {
        RsaPrivateKey {
            n: self.n.clone(),
            e: self.e.clone(),
            d: self.d.clone(),
            p: self.p.clone(),
            q: self.q.clone(),
        }
    }
}

/// What a PKCS#8 PEM text holds: a private key, or the words of the error.
pub uninterp spec fn pkcs8_key(pem: Seq<char>) -> Result<RsaPrivateView, Seq<char>>;

/// What a PKCS#1 PEM text holds: a private key, or the words of the error.
pub uninterp spec fn pkcs1_key(pem: Seq<char>) -> Result<RsaPrivateView, Seq<char>>;

/// The PKCS#1 v1.5 signature with SHA-256 of `msg`, where the key can make one.
pub uninterp spec fn rsa_signature(key: RsaPrivateView, msg: Seq<u8>) -> Option<Seq<u8>>;

/// Whether `sig` is a PKCS#1 v1.5 signature with SHA-256 of `msg` under `key`.
pub uninterp spec fn rsa_accepts(key: RsaPublicView, msg: Seq<u8>, sig: Seq<u8>) -> bool;

/// What DER bytes hold as a PKCS#1 public key, or the words of the error.
pub uninterp spec fn pkcs1_public_key(der: Seq<u8>) -> Result<RsaPublicView, Seq<char>>;

/// `RsaPrivateKey::from_pkcs8_pem` of the rsa crate, with the key's numbers
/// taken out of the result.
#[verifier::external_body]
pub(crate) fn rsa_from_pkcs8_pem(pem: &str) -> (r: Result<RsaPrivateKey, String>)
    ensures
        match r {
            Ok(k) => pkcs8_key(pem@) == Ok::<RsaPrivateView, Seq<char>>(k@),
            Err(e) => pkcs8_key(pem@) == Err::<RsaPrivateView, Seq<char>>(e@),
        },
{
    let k = rsa::RsaPrivateKey::from_pkcs8_pem(pem).map_err(|e| e.to_string())?;
    Ok(RsaPrivateKey {
        n: k.n().to_bytes_be(),
        e: k.e().to_bytes_be(),
        d: k.d().to_bytes_be(),
        p: k.primes()[0].to_bytes_be(),
        q: k.primes()[1].to_bytes_be(),
    })
}

/// `RsaPrivateKey::from_pkcs1_pem` of the rsa crate, with the key's numbers
/// taken out of the result.
#[verifier::external_body]
pub(crate) fn rsa_from_pkcs1_pem(pem: &str) -> (r: Result<RsaPrivateKey, String>)
    ensures
        match r {
            Ok(k) => pkcs1_key(pem@) == Ok::<RsaPrivateView, Seq<char>>(k@),
            Err(e) => pkcs1_key(pem@) == Err::<RsaPrivateView, Seq<char>>(e@),
        },
{
    let k = rsa::RsaPrivateKey::from_pkcs1_pem(pem).map_err(|e| e.to_string())?;
    Ok(RsaPrivateKey {
        n: k.n().to_bytes_be(),
        e: k.e().to_bytes_be(),
        d: k.d().to_bytes_be(),
        p: k.primes()[0].to_bytes_be(),
        q: k.primes()[1].to_bytes_be(),
    })
}

/// `RsaPrivateKey::new` of the rsa crate draws a key with a modulus of `bits`
/// bits from rand's thread-local generator. The key is left to chance; its
/// numbers come without leading zero bytes, and it draws until there is one.
#[verifier::external_body]
pub(crate) fn rsa_generate(bits: usize) -> (r: Result<RsaPrivateKey, String>)
    requires
        512 <= bits <= 16384,
    ensures
        r is Ok,
        r matches Ok(k) ==> k@.minimal() && k@.n.len() == (bits + 7) / 8,
{
    let mut rng = rand::thread_rng();
    let k = rsa::RsaPrivateKey::new(&mut rng, bits).map_err(|e| e.to_string())?;
    Ok(RsaPrivateKey {
        n: k.n().to_bytes_be(),
        e: k.e().to_bytes_be(),
        d: k.d().to_bytes_be(),
        p: k.primes()[0].to_bytes_be(),
        q: k.primes()[1].to_bytes_be(),
    })
}

/// The PKCS#8 PEM text of a private key with line feeds, or the words of the
/// error.
pub uninterp spec fn pkcs8_pem(key: RsaPrivateView) -> Result<Seq<char>, Seq<char>>;

/// `to_pkcs8_pem` of the rsa crate writes a private key as PKCS#8 PEM, from
/// which `from_pkcs8_pem` reads the same numbers.
#[verifier::external_body]
pub(crate) fn rsa_to_pkcs8_pem(key: &RsaPrivateKey) -> (r: Result<String, String>)
    ensures
        match r {
            Ok(s) => {
                &&& pkcs8_pem(key@) == Ok::<Seq<char>, Seq<char>>(s@)
                &&& key@.minimal() ==> pkcs8_key(s@) == Ok::<RsaPrivateView, Seq<char>>(key@)
            },
            Err(e) => pkcs8_pem(key@) == Err::<Seq<char>, Seq<char>>(e@),
        },
{
    let b = |v: &Vec<u8>| rsa::BigUint::from_bytes_be(v);
    let primes = vec![b(&key.p), b(&key.q)];
    let k = rsa::RsaPrivateKey::from_components(b(&key.n), b(&key.e), b(&key.d), primes);
    let pem = k.map_err(|e| e.to_string())?.to_pkcs8_pem(rsa::pkcs8::LineEnding::LF);
    Ok(pem.map_err(|e| e.to_string())?.to_string())
}

/// `try_sign` of the rsa crate's PKCS#1 v1.5 `SigningKey` with SHA-256. It makes
/// no random choice, and checks what it computed against the public half of the
/// key, so that a signature it gives is one that verifies. A signature is as long
/// as the modulus. Where the first prime is below the second, the crate adds it up
/// to the second step by step, which may take forever.
#[verifier::external_body]
pub(crate) fn rsa_sign(key: &RsaPrivateKey, msg: &[u8]) -> (r: Option<Vec<u8>>)
    requires
        be_value(key@.p) >= be_value(key@.q),
    ensures
        match r {
            Some(s) => {
                &&& rsa_signature(key@, msg@) == Some(s@)
                &&& rsa_accepts(key@.public(), msg@, s@)
                &&& s@.len() > 0
                &&& key@.minimal() ==> s@.len() == key@.n.len()
            },
            None => rsa_signature(key@, msg@) is None,
        },
{
    let b = |v: &Vec<u8>| rsa::BigUint::from_bytes_be(v);
    let primes = vec![b(&key.p), b(&key.q)];
    let k = rsa::RsaPrivateKey::from_components(b(&key.n), b(&key.e), b(&key.d), primes).ok()?;
    let signer = rsa::pkcs1v15::SigningKey::<sha2::Sha256>::new(k);
    let s: rsa::pkcs1v15::Signature = signer.try_sign(msg).ok()?;
    Some(s.to_vec())
}

/// `verify` of the rsa crate's PKCS#1 v1.5 `VerifyingKey` with SHA-256; a key
/// that the crate refuses accepts nothing.
#[verifier::external_body]
pub(crate) fn rsa_verify(key: &RsaPublicKey, msg: &[u8], sig: &[u8]) -> (r: bool)
    ensures
        r == rsa_accepts(key@, msg@, sig@),
{
    let n = rsa::BigUint::from_bytes_be(&key.n);
    let e = rsa::BigUint::from_bytes_be(&key.e);
    match (
        rsa::RsaPublicKey::new_with_max_size(n, e, usize::MAX),
        rsa::pkcs1v15::Signature::try_from(sig),
    ) {
        (Ok(k), Ok(s)) => rsa::pkcs1v15::VerifyingKey::<sha2::Sha256>::new(k).verify(msg, &s).is_ok(),
        _ => false,
    }
}

/// `RsaPublicKey::from_pkcs1_der` of the rsa crate, with the key's numbers taken
/// out of the result.
#[verifier::external_body]
pub(crate) fn rsa_public_from_pkcs1_der(der: &[u8]) -> (r: Result<RsaPublicKey, String>)
    ensures
        match r {
            Ok(k) => pkcs1_public_key(der@) == Ok::<RsaPublicView, Seq<char>>(k@),
            Err(e) => pkcs1_public_key(der@) == Err::<RsaPublicView, Seq<char>>(e@),
        },
{
    match rsa::RsaPublicKey::from_pkcs1_der(der) {
        Ok(k) => Ok(RsaPublicKey { n: k.n().to_bytes_be(), e: k.e().to_bytes_be() }),
        Err(e) => Err(e.to_string()),
    }
}

/// The certificates in a PEM text, as DER bytes, or the words of the error.
pub uninterp spec fn pem_certs(pem: Seq<char>) -> Result<Seq<Seq<u8>>, Seq<char>>;

/// The byte strings that a list of byte vectors holds.
pub open spec fn byte_strings(v: Seq<Vec<u8>>) -> Seq<Seq<u8>> {
    Seq::new(v.len(), |i: int| v[i]@)
}

/// `rustls_pemfile::certs` collects the certificate sections of a PEM text, in
/// order, and fails on the first malformed section.
#[verifier::external_body]
pub(crate) fn read_pem_certs(pem: &str) -> (r: Result<Vec<Vec<u8>>, String>)
    ensures
        match r {
            Ok(v) => pem_certs(pem@) == Ok::<Seq<Seq<u8>>, Seq<char>>(byte_strings(v@)),
            Err(e) => pem_certs(pem@) == Err::<Seq<Seq<u8>>, Seq<char>>(e@),
        },
{
    let mut cursor = std::io::Cursor::new(pem.as_bytes());
    rustls_pemfile::certs(&mut cursor)
        .map(|c| c.map(|d| d.to_vec()).map_err(|e| e.to_string()))
        .collect()
}

/// How the bytes of a private key are laid out.
#[derive(Debug, Clone, Copy, PartialEq, Eq, Structural)]
pub enum KeyKind {
    Pkcs1,
    Sec1,
    Pkcs8,
}

/// The first private key in a PEM text, as DER bytes with their layout, or the
/// words of the error.
pub uninterp spec fn pem_private_key(pem: Seq<char>) -> Result<
    Option<(KeyKind, Seq<u8>)>,
    Seq<char>,
>;

/// `rustls_pemfile::private_key` gives the first private key section of a PEM
/// text, if there is one. A layout that is none of the three counts as an error.
#[verifier::external_body]
pub(crate) fn read_pem_private_key(pem: &str) -> (r: Result<Option<(KeyKind, Vec<u8>)>, String>)
    ensures
        match r {
            Ok(Some(k)) => pem_private_key(pem@) == Ok::<Option<(KeyKind, Seq<u8>)>, Seq<char>>(
                Some((k.0, k.1@)),
            ),
            Ok(None) => pem_private_key(pem@) == Ok::<Option<(KeyKind, Seq<u8>)>, Seq<char>>(None),
            Err(e) => pem_private_key(pem@) == Err::<Option<(KeyKind, Seq<u8>)>, Seq<char>>(e@),
        },
{
    match rustls_pemfile::private_key(&mut pem.as_bytes()) {
        Ok(Some(rustls::pki_types::PrivateKeyDer::Pkcs1(k))) => Ok(
            Some((KeyKind::Pkcs1, k.secret_pkcs1_der().to_vec())),
        ),
        Ok(Some(rustls::pki_types::PrivateKeyDer::Sec1(k))) => Ok(
            Some((KeyKind::Sec1, k.secret_sec1_der().to_vec())),
        ),
        Ok(Some(rustls::pki_types::PrivateKeyDer::Pkcs8(k))) => Ok(
            Some((KeyKind::Pkcs8, k.secret_pkcs8_der().to_vec())),
        ),
        Ok(Some(_)) => Err("unknown private key layout".to_string()),
        Ok(None) => Ok(None),
        Err(e) => Err(e.to_string()),
    }
}

/// The two bit strings of an X.509 certificate that pairing needs.
#[derive(Debug)]
pub struct CertBits {
    /// The signature value.
    pub signature: Vec<u8>,
    /// The subject's public key.
    pub public_key: Vec<u8>,
}

/// The signature value and the subject's public key of a DER certificate, or
/// the words of the error.
pub uninterp spec fn x509_bits(der: Seq<u8>) -> Result<(Seq<u8>, Seq<u8>), Seq<char>>;

/// `x509_parser::parse_x509_certificate` reads a DER certificate, of which the
/// bytes of two bit strings are taken.
#[verifier::external_body]
pub(crate) fn parse_x509(der: &[u8]) -> (r: Result<CertBits, String>)
    ensures
        match r {
            Ok(c) => x509_bits(der@) == Ok::<(Seq<u8>, Seq<u8>), Seq<char>>(
                (c.signature@, c.public_key@),
            ),
            Err(e) => x509_bits(der@) == Err::<(Seq<u8>, Seq<u8>), Seq<char>>(e@),
        },
{
    match x509_parser::parse_x509_certificate(der) {
        Ok((_, cert)) => Ok(CertBits {
            signature: cert.signature_value.data.to_vec(),
            public_key: cert.tbs_certificate.subject_pki.subject_public_key.data.to_vec(),
        }),
        Err(e) => Err(e.to_string()),
    }
}

/// Whether rcgen takes a PKCS#8 PEM text as a key for RSA with SHA-256: the
/// words of the error, if not.
pub uninterp spec fn rcgen_key_error(key_pem: Seq<char>) -> Option<Seq<char>>;

/// `rcgen::KeyPair::from_pkcs8_pem_and_sign_algo` with RSA and SHA-256, asked
/// only whether it succeeds.
#[verifier::external_body]
pub(crate) fn rcgen_check_key(key_pem: &str) -> (r: Option<String>)
    ensures
        match r {
            Some(e) => rcgen_key_error(key_pem@) == Some(e@),
            None => rcgen_key_error(key_pem@) is None,
        },
{
    match rcgen::KeyPair::from_pkcs8_pem_and_sign_algo(key_pem, &rcgen::PKCS_RSA_SHA256) {
        Ok(_) => None,
        Err(e) => Some(e.to_string()),
    }
}

/// The DER bytes of the self-signed certificate for a key, a common name and a
/// validity in seconds since the Unix epoch, or the words of the error.
pub uninterp spec fn self_signed_der(
    key_pem: Seq<char>,
    common_name: Seq<char>,
    not_before: int,
    not_after: int,
) -> Result<Seq<u8>, Seq<char>>;

/// `rcgen::CertificateParams::self_signed`, with no alternative names and the
/// common name alone as the distinguished name. The PEM text is not empty and holds
/// that one certificate (its line endings are the platform's), and the certificate holds
/// the public half of the key that signed it, where the key's PEM text is the one
/// that the rsa crate writes for it. Dates outside the years 0 to 9999 cannot be
/// written.
#[verifier::external_body]
pub(crate) fn rcgen_self_signed(
    key_pem: &str,
    common_name: &str,
    not_before: i64,
    not_after: i64,
) -> (r: Result<String, String>)
    requires
        -62167219200 <= not_before <= not_after <= 253402300799,
    ensures
        match r {
            Ok(s) => {
                &&& self_signed_der(
                    key_pem@,
                    common_name@,
                    not_before as int,
                    not_after as int,
                ) is Ok
                &&& s@.len() > 0
                &&& pem_certs(s@) == Ok::<Seq<Seq<u8>>, Seq<char>>(
                    seq![
                        self_signed_der(
                            key_pem@,
                            common_name@,
                            not_before as int,
                            not_after as int,
                        )->Ok_0,
                    ],
                )
                &&& forall|k: RsaPrivateView|
                    k.minimal() && #[trigger] pkcs8_pem(k) == Ok::<Seq<char>, Seq<char>>(key_pem@)
                        ==> pem_public_key(s@) == Ok::<RsaPublicView, Seq<char>>(k.public())
            },
            Err(e) => self_signed_der(key_pem@, common_name@, not_before as int, not_after as int)
                == Err::<Seq<u8>, Seq<char>>(e@),
        },
{
    let at = |t| time::OffsetDateTime::from_unix_timestamp(t).map_err(|e| e.to_string());
    let kp = rcgen::KeyPair::from_pkcs8_pem_and_sign_algo(key_pem, &rcgen::PKCS_RSA_SHA256)
        .map_err(|e| e.to_string())?;
    let mut params = rcgen::CertificateParams::new(Vec::<String>::new()).map_err(|e| e.to_string())?;
    let mut dn = rcgen::DistinguishedName::new();
    dn.push(rcgen::DnType::CommonName, common_name);
    params.distinguished_name = dn;
    params.not_before = at(not_before)?;
    params.not_after = at(not_after)?;
    let cert = params.self_signed(&kp).map_err(|e| e.to_string())?;
    Ok(cert.pem())
}

/// The public key of the first certificate in a PEM text.
pub open spec fn pem_public_key(pem: Seq<char>) -> Result<RsaPublicView, Seq<char>> {
    match pem_certs(pem) {
        Err(e) => Err(e),
        Ok(certs) => if certs.len() == 0 {
            Err("no certificate found in PEM"@)
        } else {
            match x509_bits(certs[0]) {
                Err(e) => Err(e),
                Ok(bits) => pkcs1_public_key(bits.1),
            }
        },
    }
}

/// `time::OffsetDateTime::now_utc`: the system clock, in whole seconds since the
/// Unix epoch. Which second it is is left to the machine; the crate knows no clock
/// past the year 9999.
#[verifier::external_body]
pub(crate) fn utc_seconds() -> (r: i64) {
    time::OffsetDateTime::now_utc().unix_timestamp()
}

/// An attribute of an XML element.
#[derive(Debug)]
pub struct XmlAttribute {
    /// Whether the name stands in a namespace.
    pub namespaced: bool,
    /// The name, without a prefix.
    pub name: String,
    pub value: String,
}

/// A node of an XML document. The nodes of a document stand in document order,
/// and a node is known by its position; the document itself is the first.
#[derive(Debug)]
pub struct XmlNode {
    /// The position of the node that this one stands in.
    pub parent: Option<usize>,
    pub is_element: bool,
    /// The name of an element, without a prefix.
    pub name: String,
    /// The text of a text node, or of an element that starts with one.
    pub text: Option<String>,
    pub attributes: Vec<XmlAttribute>,
}

/// What an [`XmlAttribute`] holds.
pub struct XmlAttributeView {
    pub namespaced: bool,
    pub name: Seq<char>,
    pub value: Seq<char>,
}

/// What an [`XmlNode`] holds.
pub struct XmlNodeView {
    pub parent: Option<usize>,
    pub is_element: bool,
    pub name: Seq<char>,
    pub text: Option<Seq<char>>,
    pub attributes: Seq<XmlAttributeView>,
}

impl View for XmlAttribute {
    type V = XmlAttributeView;

    open spec fn view(&self) -> XmlAttributeView {
        XmlAttributeView {
            namespaced: self.namespaced,
            name: self.name@,
            value: self.value@,
        }
    }
}

impl View for XmlNode {
    type V = XmlNodeView;

    open spec fn view(&self) -> XmlNodeView {
        XmlNodeView {
            parent: self.parent,
            is_element: self.is_element,
            name: self.name@,
            text: text_view(self.text),
            attributes: Seq::new(self.attributes@.len(), |i: int| self.attributes@[i]@),
        }
    }
}

/// What a list of nodes holds.
pub open spec fn node_views(nodes: Seq<XmlNode>) -> Seq<XmlNodeView> {
    Seq::new(nodes.len(), |i: int| nodes[i]@)
}

/// Whether a text is a name made of ASCII letters and underscores.
pub open spec fn is_simple_name(s: Seq<char>) -> bool {
    s.len() > 0 && forall|i: int|
        0 <= i < s.len() ==> {
            let c = #[trigger] s[i];
            ('A' <= c && c <= 'Z') || ('a' <= c && c <= 'z') || c == '_'
        }
}

/// Whether a text is made of ASCII letters and digits.
pub open spec fn is_simple_text(s: Seq<char>) -> bool {
    s.len() > 0 && forall|i: int|
        0 <= i < s.len() ==> {
            let c = #[trigger] s[i];
            ('A' <= c && c <= 'Z') || ('a' <= c && c <= 'z') || ('0' <= c && c <= '9')
        }
}

/// A document with one element that has one attribute and holds elements with
/// nothing but text in them.
pub struct FlatXml {
    pub root: Seq<char>,
    pub attribute: Seq<char>,
    pub value: Seq<char>,
    /// Names and texts of the inner elements.
    pub fields: Seq<(Seq<char>, Seq<char>)>,
}

impl FlatXml {
    /// Names and texts need no escaping, and no name has a meaning of its own.
    pub open spec fn simple(self) -> bool {
        &&& is_simple_name(self.root)
        &&& is_simple_name(self.attribute) && self.attribute != "xmlns"@
        &&& is_simple_text(self.value)
        &&& self.fields.len() <= 1000
        &&& forall|i: int|
            0 <= i < self.fields.len() ==> is_simple_name((#[trigger] self.fields[i]).0)
                && is_simple_text(self.fields[i].1)
    }

    /// The text of the document.
    pub open spec fn text(self) -> Seq<char> {
        "<"@ + self.root + " "@ + self.attribute + "=\""@ + self.value + "\">"@ + fields_text(
            self.fields,
        ) + "</"@ + self.root + ">"@
    }

    /// The nodes of the document.
    pub open spec fn nodes(self) -> Seq<XmlNodeView> {
        seq![
            plain_node(None, None),
            XmlNodeView {
                parent: Some(0),
                is_element: true,
                name: self.root,
                text: None,
                attributes: seq![
                    XmlAttributeView {
                        namespaced: false,
                        name: self.attribute,
                        value: self.value,
                    },
                ],
            },
        ] + Seq::new(
            2 * self.fields.len(),
            |i: int|
                if i % 2 == 0 {
                    XmlNodeView {
                        parent: Some(1),
                        is_element: true,
                        name: self.fields[i / 2].0,
                        text: Some(self.fields[i / 2].1),
                        attributes: Seq::empty(),
                    }
                } else {
                    plain_node(Some((i + 1) as usize), Some(self.fields[i / 2].1))
                },
        )
    }
}

/// A node that is no element.
pub open spec fn plain_node(parent: Option<usize>, text: Option<Seq<char>>) -> XmlNodeView {
    XmlNodeView { parent, is_element: false, name: ""@, text, attributes: Seq::empty() }
}

/// Elements in a row, each with its text.
pub open spec fn fields_text(fields: Seq<(Seq<char>, Seq<char>)>) -> Seq<char>
    decreases fields.len(),
{
    if fields.len() == 0 {
        Seq::empty()
    } else {
        fields_text(fields.drop_last()) + "<"@ + fields.last().0 + ">"@ + fields.last().1 + "</"@
            + fields.last().0 + ">"@
    }
}

/// The nodes of an XML text in document order, or the words of the error.
pub uninterp spec fn xml_nodes(body: Seq<char>) -> Result<Seq<XmlNodeView>, Seq<char>>;

/// `roxmltree::Document::parse`, with every node that `descendants` walks over
/// taken out as plain values. A document that parses has an element among the
/// nodes that stand directly in it. A document of one element with an attribute
/// and simple fields parses into exactly these. The parser calls itself for each
/// element that is open, so the nesting is bounded; it reads no document type, in
/// which more elements could hide.
#[verifier::external_body]
pub(crate) fn parse_xml(body: &str) -> (r: Result<Vec<XmlNode>, String>)
    requires
        xml_nesting(body@) <= MAX_NESTING,
    ensures
        forall|flat: FlatXml|
            flat.simple() && body@ == #[trigger] flat.text() ==> r is Ok && node_views(r->Ok_0@)
                == flat.nodes(),
        match r {
            Ok(v) => {
                &&& xml_nodes(body@) == Ok::<Seq<XmlNodeView>, Seq<char>>(node_views(v@))
                &&& exists|i: int|
                    0 <= i < v@.len() && (#[trigger] v@[i]).is_element && v@[i].parent == Some(0usize)
            },
            Err(e) => xml_nodes(body@) == Err::<Seq<XmlNodeView>, Seq<char>>(e@),
        },
{
    let doc = roxmltree::Document::parse(body).map_err(|e| e.to_string())?;
    let attribute = |a: roxmltree::Attribute| XmlAttribute {
        namespaced: a.namespace().is_some(),
        name: a.name().to_string(),
        value: a.value().to_string(),
    };
    let node = |n: roxmltree::Node| XmlNode {
        parent: n.parent().map(|p| p.id().get_usize()),
        is_element: n.is_element(),
        name: n.tag_name().name().to_string(),
        text: n.text().map(|t| t.to_string()),
        attributes: n.attributes().map(attribute).collect(),
    };
    Ok(doc.descendants().map(node).collect())
}

} // verus!
