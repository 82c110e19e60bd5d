//! What goes over the wire to a host, and what is made of keys and certificates.

use vstd::prelude::*;
use crate::client_config::joined_path;
use crate::crypto::{
    block_len_error, ecb, ecb_inverse, joined, pem_der, public_key_of_cert, signature_by,
    signature_of_cert, whole_blocks,
};
use crate::error::{ErrorView, DEFAULT_HTTPS_PORT, DEFAULT_HTTP_PORT};
use crate::foreign::{
    aes_block, aes_block_inverse, be_value, hex_of, pem_certs, pem_private_key, pkcs1_key,
    pkcs1_public_key, pkcs8_key, pkcs8_pem, rcgen_key_error, rsa_signature, self_signed_der,
    x509_bits, KeyKind, RsaPrivateView, RsaPublicView,
};
use crate::http::{
    base_url, https_port_of, query_prefix_of, tls_material_of, url_host, url_of, TlsMaterialView,
};
use crate::identity::{
    cert_made_at, clock_in_range, default_dir_of, identity_of, key_and_cert, key_of_pem, not_after,
    not_before, CERT_FILE, CLIENT_NAME, KEY_BITS, KEY_FILE, UID_FILE,
};
use crate::pairing::SHORT_STEP_SECS;
use crate::proto::DEFAULT_GAMESTREAM_PORT;
use crate::testing::{param_of, HOST_NAME};
use crate::text::{decimal, digits_value};
use crate::text_laws::decimal_notation_denotes_the_number;

verus! {

// ---------------------------------------------------------------------------
// Addresses
// ---------------------------------------------------------------------------

/// HTTPS is five ports below HTTP, counted round at zero.
pub proof fn https_is_five_ports_below(base_port: u16)
    ensures
        (https_port_of(base_port) + 5) % 0x10000 == base_port,
{
}

/// A host stands in a URL as it is, but for an IPv6 address, which stands in brackets;
/// one that has them gets no more.
pub proof fn only_bare_ipv6_addresses_get_brackets(host: Seq<char>)
    requires
        host.len() > 0,
    ensures
        !host.contains(':') || host[0] == '[' ==> url_host(host) == host,
        host.contains(':') && host[0] != '[' ==> {
            &&& url_host(host).len() == host.len() + 2
            &&& url_host(host)[0] == '['
            &&& url_host(host).last() == ']'
            &&& url_host(host).subrange(1, 1 + host.len() as int) == host
        },
        url_host(url_host(host)) == url_host(host),
{
    reveal_strlit("[");
    reveal_strlit("]");
    if host.contains(':') && host[0] != '[' {
        assert(url_host(host).subrange(1, 1 + host.len() as int) =~= host);
    }
}

/// The base of a URL is the scheme, the host as it stands in a URL, a colon and the
/// port as a number.
pub proof fn bases_name_scheme_host_and_port(scheme: Seq<char>, host: Seq<char>, port: u16)
    ensures
        ({
            let base = base_url(scheme, host, port);
            let n = scheme.len() as int;
            let m = n + url_host(host).len();
            &&& base.len() > m + 1
            &&& base.take(n) == scheme
            &&& base.subrange(n, m) == url_host(host)
            &&& base[m] == ':'
            &&& digits_value(base.skip(m + 1)) == port
            &&& base.skip(m + 1) == decimal(port as nat)
        }),
{
    reveal_strlit(":");
    decimal_notation_denotes_the_number(port as nat, port as nat);
    let base = base_url(scheme, host, port);
    let n = scheme.len() as int;
    let m = n + url_host(host).len();
    assert(base.take(n) =~= scheme);
    assert(base.subrange(n, m) =~= url_host(host));
    assert(base.skip(m + 1) =~= decimal(port as nat));
    assert(decimal(port as nat).len() > 0);
}

/// A URL is the base, a slash, the command, a question mark and the query, which begins
/// with what every query begins with; arguments follow behind an ampersand.
pub proof fn urls_name_command_and_arguments(
    base: Seq<char>,
    command: Seq<char>,
    prefix: Seq<char>,
    args: Seq<char>,
)
    ensures
        url_of(base, command, prefix, Seq::empty()) == base + "/"@ + command + "?"@ + prefix,
        args.len() > 0 ==> url_of(base, command, prefix, args) == url_of(
            base,
            command,
            prefix,
            Seq::empty(),
        ) + "&"@ + args,
{
}

/// Every query begins with the client's ID, and behind it a random value in
/// hexadecimal.
pub proof fn queries_begin_with_the_client(unique_id: Seq<char>, uuid: Seq<u8>)
    requires
        forall|i: int| 0 <= i < unique_id.len() ==> #[trigger] unique_id[i] != '&',
    ensures
        param_of(query_prefix_of(unique_id, uuid), "uniqueid"@) == Some(unique_id),
        param_of(query_prefix_of(unique_id, uuid), "uuid"@) == Some(hex_of(uuid)),
{
    crate::handshake::lemma_two_params(unique_id, uuid);
}

// ---------------------------------------------------------------------------
// Keys and certificates
// ---------------------------------------------------------------------------

/// A certificate is the first one in its PEM text; without one there is an error of
/// its own.
pub proof fn the_first_certificate_counts(pem: Seq<char>, der: Seq<u8>, rest: Seq<Seq<u8>>)
    ensures
        pem_certs(pem) == Ok::<Seq<Seq<u8>>, Seq<char>>(seq![der] + rest) ==> pem_der(pem) == Ok::<
            Seq<u8>,
            ErrorView,
        >(der),
        pem_certs(pem) == Ok::<Seq<Seq<u8>>, Seq<char>>(Seq::empty()) ==> pem_der(pem) == Err::<
            Seq<u8>,
            ErrorView,
        >(ErrorView::Crypto("no certificate found in PEM"@)),
        pem_certs(pem) matches Err(e) ==> pem_der(pem) == Err::<Seq<u8>, ErrorView>(
            ErrorView::Io(e),
        ),
{
    assert((seq![der] + rest)[0] == der);
}

/// The signature and the key of a certificate are those that the parser finds in it;
/// what it cannot read is an error with its words.
pub proof fn certificates_hold_signature_and_key(
    pem: Seq<char>,
    der: Seq<u8>,
    signature: Seq<u8>,
    bits: Seq<u8>,
    key: RsaPublicView,
    words: Seq<char>,
)
    requires
        pem_der(pem) == Ok::<Seq<u8>, ErrorView>(der),
    ensures
        x509_bits(der) == Ok::<(Seq<u8>, Seq<u8>), Seq<char>>((signature, bits)) ==> {
            &&& signature_of_cert(pem) == Ok::<Seq<u8>, ErrorView>(signature)
            &&& pkcs1_public_key(bits) == Ok::<RsaPublicView, Seq<char>>(key)
                ==> public_key_of_cert(pem) == Ok::<RsaPublicView, ErrorView>(key)
            &&& pkcs1_public_key(bits) == Err::<RsaPublicView, Seq<char>>(words)
                ==> public_key_of_cert(pem) == Err::<RsaPublicView, ErrorView>(
                ErrorView::Crypto("rsa pubkey: "@ + words),
            )
        },
        x509_bits(der) == Err::<(Seq<u8>, Seq<u8>), Seq<char>>(words) ==> {
            &&& signature_of_cert(pem) == Err::<Seq<u8>, ErrorView>(
                ErrorView::Crypto("x509 parse: "@ + words),
            )
            &&& public_key_of_cert(pem) == Err::<RsaPublicView, ErrorView>(
                ErrorView::Crypto("x509 parse: "@ + words),
            )
        },
{
}

/// What TLS needs: the certificate of the host, the certificates of the client and
/// its key. Each that is missing is told from the others.
pub proof fn tls_needs_three_things(
    cert_pem: Seq<char>,
    key_pem: Seq<char>,
    server_pem: Seq<char>,
    server: Seq<u8>,
    certs: Seq<Seq<u8>>,
    kind: KeyKind,
    key: Seq<u8>,
    e: Seq<char>,
)
    requires
        pem_der(server_pem) == Ok::<Seq<u8>, ErrorView>(server),
    ensures
        pem_certs(cert_pem) == Ok::<Seq<Seq<u8>>, Seq<char>>(certs) ==> {
            let got = tls_material_of(cert_pem, key_pem, server_pem);
            &&& pem_private_key(key_pem) == Ok::<Option<(KeyKind, Seq<u8>)>, Seq<char>>(
                Some((kind, key)),
            ) ==> got == Ok::<TlsMaterialView, ErrorView>(
                TlsMaterialView {
                    server_der: server,
                    client_certs: certs,
                    client_key_kind: kind,
                    client_key: key,
                },
            )
            &&& pem_private_key(key_pem) == Ok::<Option<(KeyKind, Seq<u8>)>, Seq<char>>(None)
                ==> got == Err::<TlsMaterialView, ErrorView>(
                ErrorView::Tls("no private key in identity"@),
            )
            &&& pem_private_key(key_pem) == Err::<Option<(KeyKind, Seq<u8>)>, Seq<char>>(e)
                ==> got == Err::<TlsMaterialView, ErrorView>(
                ErrorView::Tls("client key: "@ + e),
            )
        },
        pem_certs(cert_pem) == Err::<Seq<Seq<u8>>, Seq<char>>(e) ==> tls_material_of(
            cert_pem,
            key_pem,
            server_pem,
        ) == Err::<TlsMaterialView, ErrorView>(ErrorView::Tls("client cert: "@ + e)),
{
}

/// Without the host's certificate there is no TLS, whatever else there is.
pub proof fn tls_needs_the_host(
    cert_pem: Seq<char>,
    key_pem: Seq<char>,
    server_pem: Seq<char>,
    e: ErrorView,
)
    requires
        pem_der(server_pem) == Err::<Seq<u8>, ErrorView>(e),
    ensures
        tls_material_of(cert_pem, key_pem, server_pem) == Err::<TlsMaterialView, ErrorView>(e),
{
}

/// AES-ECB goes block by block: one block is that of the cipher, and two messages of
/// whole blocks in a row are encrypted, and decrypted, one by one.
pub proof fn ecb_goes_block_by_block(key: Seq<u8>, one: Seq<u8>, a: Seq<u8>, b: Seq<u8>)
    requires
        one.len() == 16,
        a.len() % 16 == 0,
        b.len() % 16 == 0,
        aes_block(key, one).len() == 16,
        aes_block_inverse(key, one).len() == 16,
    ensures
        ecb(key, one) == aes_block(key, one),
        ecb_inverse(key, one) == aes_block_inverse(key, one),
        ecb(key, a + b) == ecb(key, a) + ecb(key, b),
        ecb_inverse(key, a + b) == ecb_inverse(key, a) + ecb_inverse(key, b),
{
    assert(one.subrange(0, 16) =~= one);
    assert(ecb(key, one) =~= aes_block(key, one));
    assert(ecb_inverse(key, one) =~= aes_block_inverse(key, one));
    let n = a.len() as int / 16;
    let ab = a + b;
    assert forall|i: int| 0 <= i < a.len() implies #[trigger] crate::crypto::block(ab, i / 16)
        == crate::crypto::block(a, i / 16) by {
        assert(16 * (i / 16) + 16 <= a.len());
        assert(crate::crypto::block(ab, i / 16) =~= crate::crypto::block(a, i / 16));
    }
    assert forall|i: int| a.len() <= i < ab.len() implies #[trigger] crate::crypto::block(
        ab,
        i / 16,
    ) == crate::crypto::block(b, (i - a.len()) / 16) && i % 16 == (i - a.len()) % 16 by {
        assert(i / 16 == n + (i - a.len()) / 16);
        assert(16 * ((i - a.len()) / 16) + 16 <= b.len());
        assert(crate::crypto::block(ab, i / 16) =~= crate::crypto::block(b, (i - a.len()) / 16));
    }
    assert(ecb(key, ab) =~= ecb(key, a) + ecb(key, b)) by {
        assert forall|i: int| 0 <= i < ab.len() implies #[trigger] ecb(key, ab)[i] == (ecb(key, a)
            + ecb(key, b))[i] by {
            let _ = crate::crypto::block(ab, i / 16);
        }
    }
    assert(ecb_inverse(key, ab) =~= ecb_inverse(key, a) + ecb_inverse(key, b)) by {
        assert forall|i: int| 0 <= i < ab.len() implies #[trigger] ecb_inverse(key, ab)[i] == (
        ecb_inverse(key, a) + ecb_inverse(key, b))[i] by {
            let _ = crate::crypto::block(ab, i / 16);
        }
    }
}

/// Only whole blocks are encrypted, and at least one.
pub proof fn only_whole_blocks_are_encrypted(len: nat)
    ensures
        whole_blocks(len) <==> exists|k: nat| k > 0 && len == #[trigger] (16 * k),
        block_len_error(len) == ErrorView::Crypto(
            "AES-ECB input length "@ + decimal(len) + " is not a multiple of 16"@,
        ),
{
    if whole_blocks(len) {
        let k = len / 16;
        assert(len == 16 * k);
    }
}

/// A signature is made with the larger prime first, in whichever order the two primes
/// of the key are given.
pub proof fn the_order_of_the_primes_does_not_matter(key: RsaPrivateView, msg: Seq<u8>)
    requires
        be_value(key.p) > be_value(key.q),
    ensures
        signature_by(key, msg) == rsa_signature(key, msg),
        signature_by(RsaPrivateView { p: key.q, q: key.p, ..key }, msg) == rsa_signature(key, msg),
{
}

/// The bytes of a number count in 256s, the first for the most.
pub proof fn numbers_count_in_bytes(b: Seq<u8>, x: u8)
    ensures
        be_value(b.push(x)) == 256 * be_value(b) + x,
        be_value(Seq::<u8>::empty()) == 0,
{
    assert(b.push(x).drop_last() =~= b);
}

// ---------------------------------------------------------------------------
// The client's identity
// ---------------------------------------------------------------------------

/// A key is read in either of its two notations, the newer first; only where both
/// fail is it an error, with the words of the older.
pub proof fn keys_are_read_in_either_notation(pem: Seq<char>, key: RsaPrivateView, e: Seq<char>)
    ensures
        pkcs8_key(pem) == Ok::<RsaPrivateView, Seq<char>>(key) ==> key_of_pem(pem) == Ok::<
            RsaPrivateView,
            ErrorView,
        >(key),
        pkcs8_key(pem) is Err && pkcs1_key(pem) == Ok::<RsaPrivateView, Seq<char>>(key)
            ==> key_of_pem(pem) == Ok::<RsaPrivateView, ErrorView>(key),
        pkcs8_key(pem) is Err && pkcs1_key(pem) == Err::<RsaPrivateView, Seq<char>>(e)
            ==> key_of_pem(pem) == Err::<RsaPrivateView, ErrorView>(
            ErrorView::Identity("private key: "@ + e),
        ),
{
}

/// An identity keeps the texts that it was made of, with the key that they hold.
pub proof fn identities_keep_their_texts(
    unique_id: Seq<char>,
    cert_pem: Seq<char>,
    key_pem: Seq<char>,
)
    ensures
        match identity_of(unique_id, cert_pem, key_pem) {
            Ok(id) => {
                &&& key_of_pem(key_pem) == Ok::<RsaPrivateView, ErrorView>(id.key)
                &&& id.unique_id == unique_id && id.cert_pem == cert_pem && id.key_pem == key_pem
            },
            Err(e) => key_of_pem(key_pem) == Err::<RsaPrivateView, ErrorView>(e),
        },
{
}

/// A certificate is good from a day before it is made, for twenty years of 365 days.
pub proof fn certificates_last_twenty_years(now: int)
    ensures
        not_before(now) == now - 24 * 60 * 60,
        not_after(now) - now == 630_720_000,
        now == not_before(now) + 86_400,
{
}

/// A certificate is made only while the years of its dates have four digits: from the
/// year 0 to 9999, in seconds since 1970.
pub proof fn clocks_must_be_in_range(now: int)
    ensures
        clock_in_range(now) <==> -62_167_132_800 <= now <= 252_771_580_799,
{
}

/// A certificate is signed by its own key, for the given name and the twenty years.
/// Each step that fails is told from the others.
pub proof fn certificates_are_signed_by_their_own_key(
    key_pem: Seq<char>,
    name: Seq<char>,
    now: int,
    der: Seq<u8>,
    e: Seq<char>,
)
    ensures
        ({
            let made = cert_made_at(key_pem, name, now);
            let signed = self_signed_der(key_pem, name, now - 86_400, now + 630_720_000);
            &&& rcgen_key_error(key_pem) == Some(e) ==> made == Err::<Seq<u8>, ErrorView>(
                ErrorView::Identity("rcgen key: "@ + e),
            )
            &&& rcgen_key_error(key_pem) is None && !clock_in_range(now) ==> made == Err::<
                Seq<u8>,
                ErrorView,
            >(ErrorView::Identity("system clock out of range"@))
            &&& rcgen_key_error(key_pem) is None && clock_in_range(now) && signed == Ok::<
                Seq<u8>,
                Seq<char>,
            >(der) ==> made == Ok::<Seq<u8>, ErrorView>(der)
            &&& rcgen_key_error(key_pem) is None && clock_in_range(now) && signed == Err::<
                Seq<u8>,
                Seq<char>,
            >(e) ==> made == Err::<Seq<u8>, ErrorView>(ErrorView::Identity("rcgen sign: "@ + e))
        }),
{
}

/// A new identity has its key in the newer notation, and a certificate by that key.
pub proof fn new_identities_have_key_and_certificate(
    key: RsaPrivateView,
    name: Seq<char>,
    now: int,
    pem: Seq<char>,
)
    ensures
        pkcs8_pem(key) == Ok::<Seq<char>, Seq<char>>(pem) ==> match cert_made_at(pem, name, now) {
            Ok(der) => key_and_cert(key, name, now) == Ok::<(Seq<char>, Seq<u8>), ErrorView>(
                (pem, der),
            ),
            Err(e) => key_and_cert(key, name, now) == Err::<(Seq<char>, Seq<u8>), ErrorView>(e),
        },
        pkcs8_pem(key) matches Err(e) ==> key_and_cert(key, name, now) == Err::<
            (Seq<char>, Seq<u8>),
            ErrorView,
        >(ErrorView::Identity(e)),
{
}

/// The identity lies in the program's own directory where that is named, else below
/// the user's, which is their home, their profile or the current directory.
pub proof fn identities_have_their_directory(
    own: Seq<char>,
    home: Seq<char>,
    profile: Seq<char>,
    any: Option<Seq<char>>,
    other: Option<Seq<char>>,
    separator: char,
)
    ensures
        default_dir_of(Some(own), any, other, separator) == joined_path(
            own,
            separator,
            "identity"@,
        ),
        default_dir_of(None, Some(home), any, separator) == default_dir_of(
            Some(
                joined_path(joined_path(home, separator, ".config"@), separator, "remote-access"@),
            ),
            None,
            None,
            separator,
        ),
        default_dir_of(None, None, Some(profile), separator) == default_dir_of(
            None,
            Some(profile),
            None,
            separator,
        ),
        default_dir_of(None, None, None, separator) == default_dir_of(
            None,
            Some("."@),
            None,
            separator,
        ),
{
}

/// What is hashed in parts is hashed as if the parts were one, in their order.
pub proof fn parts_are_joined_in_order(parts: Seq<&[u8]>, last: &[u8])
    ensures
        joined(parts.push(last)) == joined(parts) + last@,
        joined(Seq::<&[u8]>::empty()) == Seq::<u8>::empty(),
{
    assert(parts.push(last).drop_last() =~= parts);
}

/// The usual ports are those of a GameStream host, HTTPS five below HTTP.
pub proof fn the_usual_ports_belong_together()
    ensures
        DEFAULT_HTTP_PORT == DEFAULT_GAMESTREAM_PORT,
        https_port_of(DEFAULT_HTTP_PORT) == DEFAULT_HTTPS_PORT,
        DEFAULT_HTTP_PORT == 47989,
{
}

/// A client calls itself what GameStream clients do, has a key of 2048 bits, and is
/// kept in three files of their own names.
pub proof fn clients_are_called_as_gamestream_clients()
    ensures
        CLIENT_NAME@ == "NVIDIA GameStream Client"@,
        HOST_NAME@ == "Sunshine Gamestream Host"@,
        KEY_BITS == 8 * 256,
        CERT_FILE@ == "client.crt"@,
        KEY_FILE@ == "client.key"@,
        UID_FILE@ == "uniqueid"@,
{
}

/// Each step of the handshake but the first is given five seconds.
pub proof fn later_steps_are_short()
    ensures
        SHORT_STEP_SECS == 5,
{
}

} // verus!
