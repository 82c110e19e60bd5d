//! Primitives used by the pairing handshake: AES-128-ECB (no padding),
//! SHA-256, RSA PKCS#1 v1.5 signatures, and certificate helpers.

use vstd::prelude::*;
use crate::error::{Error, ErrorView};
use crate::foreign::{
    aes_block, aes_block_inverse, aes_decrypt_block, aes_encrypt_block, be_value, parse_x509,
    pem_certs, pkcs1_public_key, read_pem_certs, rsa_accepts, rsa_generate,
    rsa_public_from_pkcs1_der, rsa_sign, rsa_signature, rsa_verify, sha256_digest, sha256_of,
    x509_bits, CertBits, RsaPrivateKey, RsaPrivateView, RsaPublicKey, RsaPublicView,
};
use crate::text::{cat2, cat3, decimal, decimal_text, utf8};

verus! {

/// All of `parts`, one after the other.
pub open spec fn joined(parts: Seq<&[u8]>) -> Seq<u8>
    decreases parts.len(),
{
    if parts.len() == 0 {
        Seq::empty()
    } else {
        joined(parts.drop_last()) + parts.last()@
    }
}

/// The digest of `parts`, one after the other.
pub fn sha256(parts: &[&[u8]]) -> (r: [u8; 32])
    ensures
        r@ == sha256_of(joined(parts@)),
{
    let mut buf: Vec<u8> = Vec::new();
    let mut i: usize = 0;
    while i < parts.len()
        invariant
            i <= parts@.len(),
            buf@ == joined(parts@.take(i as int)),
        decreases parts.len() - i,
    {
        buf.extend_from_slice(parts[i]);
        i += 1;
        assert(parts@.take(i as int).drop_last() =~= parts@.take(i - 1));
        assert(buf@ =~= joined(parts@.take(i as int)));
    }
    assert(parts@.take(i as int) =~= parts@);
    sha256_digest(buf.as_slice())
}

/// One part alone is the whole.
pub proof fn lemma_joined_1(parts: Seq<&[u8]>)
    requires
        parts.len() == 1,
    ensures
        joined(parts) == parts[0]@,
{
    reveal_with_fuel(joined, 2);
    assert(joined(parts) =~= parts[0]@);
}

/// Two parts stand one behind the other.
pub proof fn lemma_joined_2(parts: Seq<&[u8]>)
    requires
        parts.len() == 2,
    ensures
        joined(parts) == parts[0]@ + parts[1]@,
{
    lemma_joined_1(parts.drop_last());
}

/// Three parts stand one behind the other.
pub proof fn lemma_joined_3(parts: Seq<&[u8]>)
    requires
        parts.len() == 3,
    ensures
        joined(parts) == parts[0]@ + parts[1]@ + parts[2]@,
{
    lemma_joined_2(parts.drop_last());
}

/// AES key = first 16 bytes of `SHA256(salt || pin)`.
pub open spec fn aes_key_of(salt: Seq<u8>, pin: Seq<char>) -> Seq<u8> {
    sha256_of(salt + utf8(pin)).take(16)
}

/// The first sixteen bytes of `v`.
pub(crate) fn first16(v: &[u8]) -> (r: [u8; 16])
    requires
        v@.len() >= 16,
    ensures
        r@ == v@.take(16),
{
    let mut b = [0u8; 16];
    let mut i: usize = 0;
    while i < 16
        invariant
            i <= 16,
            v@.len() >= 16,
            forall|j: int| 0 <= j < i ==> b@[j] == v@[j],
        decreases 16 - i,
    {
        b[i] = v[i];
        i += 1;
    }
    assert(b@ =~= v@.take(16));
    b
}

/// AES key = first 16 bytes of `SHA256(salt || pin)`. GFE < 7 used SHA-1,
/// which Apollo and Sunshine never report, so it is not supported here.
pub fn derive_aes_key(salt: &[u8; 16], pin: &str) -> (r: [u8; 16])
    ensures
        r@ == aes_key_of(salt@, pin@),
{
    let parts: [&[u8]; 2] = [salt, pin.as_bytes()];
    let d = sha256(&parts);
    proof {
        lemma_joined_2(parts@);
    }
    let mut k = [0u8; 16];
    let mut i: usize = 0;
    while i < 16
        invariant
            i <= 16,
            forall|j: int| 0 <= j < i ==> k@[j] == d@[j],
        decreases 16 - i,
    {
        k[i] = d[i];
        i += 1;
    }
    assert(k@ =~= d@.take(16));
    k
}

/// The error for an input that is no whole number of blocks.
pub open spec fn block_len_error(len: nat) -> ErrorView {
    ErrorView::Crypto("AES-ECB input length "@ + decimal(len) + " is not a multiple of 16"@)
}

/// Whether an input of this length is one or more whole blocks.
pub open spec fn whole_blocks(len: nat) -> bool {
    len > 0 && len % 16 == 0
}

pub fn check_block_len(data: &[u8]) -> (r: Result<(), Error>)
    ensures
        match r {
            Ok(_) => whole_blocks(data@.len()),
            Err(e) => !whole_blocks(data@.len()) && e@ == block_len_error(data@.len()),
        },
{
    if data.len() == 0 || data.len() % 16 != 0 {
        let n = decimal_text(data.len() as u64);
        return Err(
            Error::Crypto(cat3("AES-ECB input length ", n.as_str(), " is not a multiple of 16")),
        );
    }
    Ok(())
}

/// Block `i` of `data`.
pub open spec fn block(data: Seq<u8>, i: int) -> Seq<u8> {
    data.subrange(16 * i, 16 * i + 16)
}

/// AES-128-ECB: each block encrypted on its own.
pub open spec fn ecb(key: Seq<u8>, data: Seq<u8>) -> Seq<u8> {
    Seq::new(data.len(), |i: int| aes_block(key, block(data, i / 16))[i % 16])
}

/// AES-128-ECB: each block decrypted on its own.
pub open spec fn ecb_inverse(key: Seq<u8>, data: Seq<u8>) -> Seq<u8> {
    Seq::new(data.len(), |i: int| aes_block_inverse(key, block(data, i / 16))[i % 16])
}

pub fn aes_ecb_encrypt(key: &[u8; 16], data: &[u8]) -> (r: Result<Vec<u8>, Error>)
    ensures
        match r {
            Ok(c) => {
                &&& whole_blocks(data@.len())
                &&& c@ == ecb(key@, data@)
                &&& ecb_inverse(key@, c@) == data@
            },
            Err(e) => !whole_blocks(data@.len()) && e@ == block_len_error(data@.len()),
        },
{
    check_block_len(data)?;
    let mut out: Vec<u8> = Vec::new();
    let n: usize = data.len() / 16;
    let mut b: usize = 0;
    while b < n
        invariant
            b <= n,
            data@.len() == 16 * n,
            n <= usize::MAX / 16,
            out@.len() == 16 * b,
            forall|i: int|
                0 <= i < 16 * b ==> #[trigger] out@[i] == aes_block(
                    key@,
                    block(data@, i / 16),
                )[i % 16],
            forall|j: int|
                0 <= j < b ==> aes_block_inverse(key@, #[trigger] block(out@, j)) == block(data@, j),
        decreases n - b,
    {
        let chunk = vstd::slice::slice_subrange(data, 16 * b, 16 * b + 16);
        let mut enc = aes_encrypt_block(key, chunk);
        let ghost before = out@;
        let ghost e = enc@;
        out.append(&mut enc);
        proof {
            assert(chunk@ =~= block(data@, b as int));
            assert forall|i: int| 0 <= i < 16 * b + 16 implies #[trigger] out@[i] == aes_block(
                key@,
                block(data@, i / 16),
            )[i % 16] by {
                if i < 16 * b {
                    assert(out@[i] == before[i]);
                } else {
                    assert(i / 16 == b && i % 16 == i - 16 * b);
                    assert(out@[i] == e[i - 16 * b]);
                }
            }
            assert forall|j: int| 0 <= j < b + 1 implies aes_block_inverse(
                key@,
                #[trigger] block(out@, j),
            ) == block(data@, j) by {
                if j < b {
                    assert(block(out@, j) =~= block(before, j));
                } else {
                    assert(block(out@, j) =~= e);
                }
            }
        }
        b += 1;
    }
    proof {
        assert(out@ =~= ecb(key@, data@));
        assert forall|i: int| 0 <= i < data@.len() implies ecb_inverse(key@, out@)[i]
            == data@[i] by {
            assert(aes_block_inverse(key@, block(out@, i / 16)) == block(data@, i / 16));
            assert(block(data@, i / 16)[i % 16] == data@[i]);
        }
        assert(ecb_inverse(key@, out@) =~= data@);
    }
    Ok(out)
}

pub fn aes_ecb_decrypt(key: &[u8; 16], data: &[u8]) -> (r: Result<Vec<u8>, Error>)
    ensures
        match r {
            Ok(p) => {
                &&& whole_blocks(data@.len())
                &&& p@ == ecb_inverse(key@, data@)
                &&& ecb(key@, p@) == data@
            },
            Err(e) => !whole_blocks(data@.len()) && e@ == block_len_error(data@.len()),
        },
{
    check_block_len(data)?;
    let mut out: Vec<u8> = Vec::new();
    let n: usize = data.len() / 16;
    let mut b: usize = 0;
    while b < n
        invariant
            b <= n,
            data@.len() == 16 * n,
            n <= usize::MAX / 16,
            out@.len() == 16 * b,
            forall|i: int|
                0 <= i < 16 * b ==> #[trigger] out@[i] == aes_block_inverse(
                    key@,
                    block(data@, i / 16),
                )[i % 16],
            forall|j: int|
                0 <= j < b ==> aes_block(key@, #[trigger] block(out@, j)) == block(data@, j),
        decreases n - b,
    {
        let chunk = vstd::slice::slice_subrange(data, 16 * b, 16 * b + 16);
        let mut dec = aes_decrypt_block(key, chunk);
        let ghost before = out@;
        let ghost e = dec@;
        out.append(&mut dec);
        proof {
            assert(chunk@ =~= block(data@, b as int));
            assert forall|i: int| 0 <= i < 16 * b + 16 implies #[trigger] out@[i]
                == aes_block_inverse(key@, block(data@, i / 16))[i % 16] by {
                if i < 16 * b {
                    assert(out@[i] == before[i]);
                } else {
                    assert(i / 16 == b && i % 16 == i - 16 * b);
                    assert(out@[i] == e[i - 16 * b]);
                }
            }
            assert forall|j: int| 0 <= j < b + 1 implies aes_block(
                key@,
                #[trigger] block(out@, j),
            ) == block(data@, j) by {
                if j < b {
                    assert(block(out@, j) =~= block(before, j));
                } else {
                    assert(block(out@, j) =~= e);
                }
            }
        }
        b += 1;
    }
    proof {
        assert(out@ =~= ecb_inverse(key@, data@));
        assert forall|i: int| 0 <= i < data@.len() implies ecb(key@, out@)[i] == data@[i] by {
            assert(aes_block(key@, block(out@, i / 16)) == block(data@, i / 16));
            assert(block(data@, i / 16)[i % 16] == data@[i]);
        }
        assert(ecb(key@, out@) =~= data@);
    }
    Ok(out)
}

/// The first certificate of a PEM text, as DER.
pub open spec fn pem_der(pem: Seq<char>) -> Result<Seq<u8>, ErrorView> {
    match pem_certs(pem) {
        Err(e) => Err(ErrorView::Io(e)),
        Ok(certs) => if certs.len() == 0 {
            Err(ErrorView::Crypto("no certificate found in PEM"@))
        } else {
            Ok(certs[0])
        },
    }
}

/// The two bit strings of the first certificate of a PEM text.
pub open spec fn pem_bits(pem: Seq<char>) -> Result<(Seq<u8>, Seq<u8>), ErrorView> {
    match pem_der(pem) {
        Err(e) => Err(e),
        Ok(der) => match x509_bits(der) {
            Err(e) => Err(ErrorView::Crypto("x509 parse: "@ + e)),
            Ok(bits) => Ok(bits),
        },
    }
}

/// The signature value of the first certificate of a PEM text.
pub open spec fn signature_of_cert(pem: Seq<char>) -> Result<Seq<u8>, ErrorView> {
    match pem_bits(pem) {
        Err(e) => Err(e),
        Ok(bits) => Ok(bits.0),
    }
}

/// The RSA public key in the first certificate of a PEM text.
pub open spec fn public_key_of_cert(pem: Seq<char>) -> Result<RsaPublicView, ErrorView> {
    match pem_bits(pem) {
        Err(e) => Err(e),
        Ok(bits) => match pkcs1_public_key(bits.1) {
            Err(e) => Err(ErrorView::Crypto("rsa pubkey: "@ + e)),
            Ok(k) => Ok(k),
        },
    }
}

/// The first of the certificates found in a PEM text.
pub fn first_cert(certs: Vec<Vec<u8>>) -> (r: Result<Vec<u8>, Error>)
    ensures
        match r {
            Ok(v) => certs@.len() > 0 && v@ == certs@[0]@,
            Err(e) => certs@.len() == 0 && e@ == ErrorView::Crypto("no certificate found in PEM"@),
        },
{
    if certs.len() == 0 {
        return Err(Error::Crypto("no certificate found in PEM".to_owned()));
    }
    Ok(certs[0].clone())
}

/// Parse a PEM certificate into DER.
pub fn pem_to_der(pem: &str) -> (r: Result<Vec<u8>, Error>)
    ensures
        match r {
            Ok(v) => pem_der(pem@) == Ok::<Seq<u8>, ErrorView>(v@),
            Err(e) => pem_der(pem@) == Err::<Seq<u8>, ErrorView>(e@),
        },
{
    match read_pem_certs(pem) {
        Err(e) => Err(Error::Io(e)),
        Ok(certs) => first_cert(certs),
    }
}

/// The bit strings of the certificate in a PEM text.
fn cert_bits(pem: &str) -> (r: Result<CertBits, Error>)
    ensures
        match r {
            Ok(c) => pem_bits(pem@) == Ok::<(Seq<u8>, Seq<u8>), ErrorView>(
                (c.signature@, c.public_key@),
            ),
            Err(e) => pem_bits(pem@) == Err::<(Seq<u8>, Seq<u8>), ErrorView>(e@),
        },
{
    let der = match pem_to_der(pem) {
        Ok(d) => d,
        Err(e) => return Err(e),
    };
    match parse_x509(der.as_slice()) {
        Ok(bits) => Ok(bits),
        Err(e) => Err(Error::Crypto(cat2("x509 parse: ", e.as_str()))),
    }
}

/// The raw signature bit-string of an X.509 certificate (what Moonlight's
/// `getSignatureFromCert` returns).
pub fn cert_signature(pem: &str) -> (r: Result<Vec<u8>, Error>)
    ensures
        match r {
            Ok(v) => signature_of_cert(pem@) == Ok::<Seq<u8>, ErrorView>(v@),
            Err(e) => signature_of_cert(pem@) == Err::<Seq<u8>, ErrorView>(e@),
        },
{
    match cert_bits(pem) {
        Ok(bits) => Ok(bits.signature),
        Err(e) => Err(e),
    }
}

/// RSA public key embedded in a PEM certificate.
pub fn cert_public_key(pem: &str) -> (r: Result<RsaPublicKey, Error>)
    ensures
        match r {
            Ok(k) => public_key_of_cert(pem@) == Ok::<RsaPublicView, ErrorView>(k@),
            Err(e) => public_key_of_cert(pem@) == Err::<RsaPublicView, ErrorView>(e@),
        },
{
    match cert_bits(pem) {
        Err(e) => Err(e),
        Ok(bits) => match rsa_public_from_pkcs1_der(bits.public_key.as_slice()) {
            Ok(k) => Ok(k),
            Err(e) => Err(Error::Crypto(cat2("rsa pubkey: ", e.as_str()))),
        },
    }
}

/// A random RSA key with a modulus of `bits` bits.
pub fn generate_key(bits: usize) -> (r: Result<RsaPrivateKey, Error>)
    requires
        512 <= bits <= 16384,
    ensures
        r is Ok,
        r matches Ok(k) ==> k@.minimal() && k@.n.len() == (bits + 7) / 8,
{
    match rsa_generate(bits) {
        Ok(k) => Ok(k),
        Err(e) => Err(Error::Identity(e)),
    }
}

/// How the numbers with the big-endian bytes `a` and `b` compare.
#[derive(Debug, Clone, Copy, PartialEq, Eq, Structural)]
enum Size {
    Less,
    Same,
    More,
}

/// Whether the number with the big-endian bytes `a` is not below the one of `b`.
fn not_below(a: &[u8], b: &[u8]) -> (r: bool)
    ensures
        r == (be_value(a@) >= be_value(b@)),
{
    let n: usize = if a.len() > b.len() {
        a.len()
    } else {
        b.len()
    };
    let skip_a: usize = n - a.len();
    let skip_b: usize = n - b.len();
    let mut so_far = Size::Same;
    let mut i: usize = 0;
    assert(a@.take(0) =~= Seq::empty() && b@.take(0) =~= Seq::empty());
    while i < n
        invariant
            i <= n,
            skip_a + a@.len() == n,
            skip_b + b@.len() == n,
            ({
                let x = be_value(a@.take(if i < skip_a {
                    0
                } else {
                    i - skip_a
                }));
                let y = be_value(b@.take(if i < skip_b {
                    0
                } else {
                    i - skip_b
                }));
                match so_far {
                    Size::Less => x < y,
                    Size::Same => x == y,
                    Size::More => x > y,
                }
            }),
        decreases n - i,
    {
        proof {
            reveal_with_fuel(be_value, 2);
            assert(a@.take(0) =~= Seq::empty() && b@.take(0) =~= Seq::empty());
            if i >= skip_a {
                assert(a@.take(i + 1 - skip_a).drop_last() =~= a@.take(i - skip_a));
            }
            if i >= skip_b {
                assert(b@.take(i + 1 - skip_b).drop_last() =~= b@.take(i - skip_b));
            }
        }
        let x: u8 = if i < skip_a {
            0
        } else {
            a[i - skip_a]
        };
        let y: u8 = if i < skip_b {
            0
        } else {
            b[i - skip_b]
        };
        if so_far == Size::Same {
            if x < y {
                so_far = Size::Less;
            } else if x > y {
                so_far = Size::More;
            }
        }
        i += 1;
    }
    assert(a@.take(a@.len() as int) =~= a@ && b@.take(b@.len() as int) =~= b@);
    so_far != Size::Less
}

/// The PKCS#1 v1.5 signature with SHA-256 of `msg`, where the key can make one. The
/// order of its primes does not count.
pub open spec fn signature_by(key: RsaPrivateView, msg: Seq<u8>) -> Option<Seq<u8>> {
    rsa_signature(key.larger_prime_first(), msg)
}

/// RSA PKCS#1 v1.5 + SHA-256 signature, or `None` where the key cannot make one
/// (its modulus is too short for the padding).
pub fn try_sign_sha256(key: &RsaPrivateKey, msg: &[u8]) -> (r: Option<Vec<u8>>)
    ensures
        match r {
            Some(s) => {
                &&& signature_by(key@, msg@) == Some(s@)
                &&& rsa_accepts(key@.public(), msg@, s@)
                &&& s@.len() > 0
                &&& key@.minimal() ==> s@.len() == key@.n.len()
            },
            None => signature_by(key@, msg@) is None,
        },
{
    if not_below(key.p.as_slice(), key.q.as_slice()) {
        rsa_sign(key, msg)
    } else {
        let ordered = RsaPrivateKey {
            n: key.n.clone(),
            e: key.e.clone(),
            d: key.d.clone(),
            p: key.q.clone(),
            q: key.p.clone(),
        };
        assert(ordered@ == key@.larger_prime_first());
        rsa_sign(&ordered, msg)
    }
}

/// RSA PKCS#1 v1.5 + SHA-256 signature, as `EVP_DigestSign` with `EVP_sha256`.
/// It verifies under the public half of the key.
pub fn sign_sha256(key: &RsaPrivateKey, msg: &[u8]) -> (r: Vec<u8>)
    requires
        signature_by(key@, msg@) is Some,
    ensures
        signature_by(key@, msg@) == Some(r@),
        rsa_accepts(key@.public(), msg@, r@),
        r@.len() > 0,
        key@.minimal() ==> r@.len() == key@.n.len(),
{
    match try_sign_sha256(key, msg) {
        Some(s) => s,
        None => Vec::new(),
    }
}

/// Whether `sig` is such a signature of `msg`.
pub fn verify_sha256(key: &RsaPublicKey, msg: &[u8], sig: &[u8]) -> (r: bool)
    ensures
        r == rsa_accepts(key@, msg@, sig@),
{
    rsa_verify(key, msg, sig)
}

} // verus!
