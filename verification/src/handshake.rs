//! What the two sides of the pairing handshake achieve together.

use vstd::prelude::*;
use vstd::utf8::decode_utf8;
use crate::crypto::{
    aes_key_of, ecb, ecb_inverse, public_key_of_cert, signature_by, signature_of_cert,
};
use crate::error::{Error, ErrorView, PairErrorView};
use crate::foreign::{
    hex_decoded, hex_of, hex_upper_of, is_simple_name, is_simple_text, nibble, rsa_accepts,
    sha256_of, utf8_error, RsaPublicView,
};
use crate::identity::lemma_trimmed_hex;
use crate::nesting::lemma_flat_is_shallow;
use crate::pairing::{hex_field, otpauth_of, says_paired, step_args, Pairing, PairingView, StepView};
use crate::proto::hex_round_trip;
use crate::testing::{param_of, piece_after, FakeHost, FakeHostView, ReplyView};
use crate::text::{before_first, decimal, digits_value, has_prefix, parsed_i32, trimmed, utf8};
use crate::xml::{attribute_in, child_in, element_in, flat_parses, root_of, RootView};

verus! {

/// Whether a parsed response holds the fields of a reply.
pub open spec fn carries(root: RootView, reply: ReplyView) -> bool {
    &&& root.child("paired"@) == Some(
        if reply.paired {
            "1"@
        } else {
            "0"@
        },
    )
    &&& reply.field is Some ==> root.child((reply.field->0).0) == Some((reply.field->0).1)
}

/// Whether a text holds no `&`.
spec fn plain(s: Seq<char>) -> bool {
    forall|i: int| 0 <= i < s.len() ==> #[trigger] s[i] != '&'
}

/// A text without the separator is its own first piece.
proof fn lemma_before_plain(p: Seq<char>)
    requires
        plain(p),
    ensures
        before_first(p, '&') == p,
    decreases p.len(),
{
    if p.len() > 0 {
        assert(plain(p.drop_first())) by {
            assert forall|i: int| 0 <= i < p.len() - 1 implies #[trigger] p.drop_first()[i] != '&' by {
                assert(p.drop_first()[i] == p[i + 1]);
            }
        }
        lemma_before_plain(p.drop_first());
        assert(seq![p[0]] + p.drop_first() =~= p);
    }
}

/// The first piece ends at the first separator.
proof fn lemma_before(p: Seq<char>, rest: Seq<char>)
    requires
        plain(p),
    ensures
        before_first(p + seq!['&'] + rest, '&') == p,
    decreases p.len(),
{
    let s = p + seq!['&'] + rest;
    if p.len() > 0 {
        assert(plain(p.drop_first())) by {
            assert forall|i: int| 0 <= i < p.len() - 1 implies #[trigger] p.drop_first()[i] != '&' by {
                assert(p.drop_first()[i] == p[i + 1]);
            }
        }
        lemma_before(p.drop_first(), rest);
        assert(s[0] == p[0]);
        assert(s.drop_first() =~= p.drop_first() + seq!['&'] + rest);
        assert(seq![p[0]] + p.drop_first() =~= p);
    } else {
        assert(s[0] == '&');
        assert(before_first(s, '&') =~= p);
    }
}

/// A piece that does not start as wanted is passed over.
proof fn lemma_miss(p: Seq<char>, rest: Seq<char>, start: Seq<char>)
    requires
        plain(p),
        !has_prefix(p, start),
    ensures
        piece_after(p + seq!['&'] + rest, start) == piece_after(rest, start),
{
    lemma_before(p, rest);
    assert((p + seq!['&'] + rest).skip(p.len() as int + 1) =~= rest);
}

/// A piece that starts as wanted is taken.
proof fn lemma_hit(start: Seq<char>, value: Seq<char>, rest: Seq<char>)
    requires
        plain(start + value),
    ensures
        piece_after(start + value + seq!['&'] + rest, start) == Some(value),
{
    lemma_before(start + value, rest);
    assert((start + value).take(start.len() as int) =~= start);
    assert((start + value).skip(start.len() as int) =~= value);
}

/// The last piece is taken if it starts as wanted.
proof fn lemma_last_hit(start: Seq<char>, value: Seq<char>)
    requires
        plain(start + value),
    ensures
        piece_after(start + value, start) == Some(value),
{
    lemma_before_plain(start + value);
    assert((start + value).take(start.len() as int) =~= start);
    assert((start + value).skip(start.len() as int) =~= value);
}

/// Where the last piece does not start as wanted there is nothing.
proof fn lemma_last_miss(p: Seq<char>, start: Seq<char>)
    requires
        plain(p),
        !has_prefix(p, start),
    ensures
        piece_after(p, start) is None,
{
    lemma_before_plain(p);
}

/// Hexadecimal digits are no separators.
proof fn lemma_hex_plain(b: Seq<u8>)
    ensures
        plain(hex_of(b)),
        plain(hex_upper_of(b)),
{
    assert forall|i: int| 0 <= i < hex_of(b).len() implies #[trigger] hex_of(b)[i] != '&' by {
        assert(0 <= nibble(b, i) < 16);
    }
    assert forall|i: int| 0 <= i < hex_upper_of(b).len() implies #[trigger] hex_upper_of(b)[i]
        != '&' by {
        assert(0 <= nibble(b, i) < 16);
    }
}

/// Two texts that differ at `d` do not start alike.
proof fn lemma_differ(p: Seq<char>, start: Seq<char>, d: int)
    requires
        0 <= d < start.len(),
        d < p.len(),
        p[d] != start[d],
    ensures
        !has_prefix(p, start),
{
    if has_prefix(p, start) {
        assert(p.take(start.len() as int)[d] == p[d]);
    }
}

/// The arguments of a later step hold nothing but the device name, the state flag
/// and the value sent: `key` is found exactly where it is the name sent.
proof fn lemma_step_param(name: Seq<char>, value: Seq<u8>, key: Seq<char>, d: int)
    requires
        plain(name),
        key.len() > 0,
        key[0] != 'd',
        key[0] != 'u',
        name == key + "="@ || (0 <= d < name.len() && d < key.len() && name[d] != key[d]),
    ensures
        param_of(step_args(name, value), key) == (if name == key + "="@ {
            Some(hex_of(value))
        } else {
            None
        }),
{
    reveal_strlit("=");
    reveal_strlit("devicename=roth&updateState=1&");
    let start = key + "="@;
    let hex = hex_of(value);
    let p1 = seq!['d', 'e', 'v', 'i', 'c', 'e', 'n', 'a', 'm', 'e', '=', 'r', 'o', 't', 'h'];
    let p2 = seq!['u', 'p', 'd', 'a', 't', 'e', 'S', 't', 'a', 't', 'e', '=', '1'];
    lemma_hex_plain(value);
    assert(plain(name + hex));
    assert(step_args(name, value) =~= p1 + seq!['&'] + (p2 + seq!['&'] + (name + hex)));
    lemma_differ(p1, start, 0);
    lemma_differ(p2, start, 0);
    lemma_miss(p1, p2 + seq!['&'] + (name + hex), start);
    lemma_miss(p2, name + hex, start);
    if name == start {
        lemma_last_hit(start, hex);
    } else {
        assert(start[d] == key[d]);
        lemma_differ(name + hex, start, d);
        lemma_last_miss(name + hex, start);
    }
}


/// The arguments of the first request, taken apart.
proof fn lemma_start_params(p: PairingView)
    ensures
        param_of(p.start().args, "phrase"@) == Some("getservercert"@),
        param_of(p.start().args, "salt"@) == Some(hex_of(p.salt)),
        param_of(p.start().args, "clientcert"@) == Some(hex_of(utf8(p.identity.cert_pem))),
        param_of(p.start().args, "otpauth"@) == (match p.otp {
            Some(o) => Some(otpauth_of(o, hex_of(p.salt))),
            None => None,
        }),
{
    reveal_strlit("devicename=roth&updateState=1&phrase=getservercert&salt=");
    reveal_strlit("&clientcert=");
    reveal_strlit("&otpauth=");
    reveal_strlit("phrase");
    reveal_strlit("getservercert");
    reveal_strlit("salt");
    reveal_strlit("clientcert");
    reveal_strlit("otpauth");
    reveal_strlit("=");
    let p1 = seq!['d', 'e', 'v', 'i', 'c', 'e', 'n', 'a', 'm', 'e', '=', 'r', 'o', 't', 'h'];
    let p2 = seq!['u', 'p', 'd', 'a', 't', 'e', 'S', 't', 'a', 't', 'e', '=', '1'];
    let k_phrase = "phrase"@ + "="@;
    let k_salt = "salt"@ + "="@;
    let k_cert = "clientcert"@ + "="@;
    let k_otp = "otpauth"@ + "="@;
    let salt = hex_of(p.salt);
    let cert = hex_of(utf8(p.identity.cert_pem));
    lemma_hex_plain(p.salt);
    lemma_hex_plain(utf8(p.identity.cert_pem));
    let p3 = k_phrase + "getservercert"@;
    let p4 = k_salt + salt;
    let p5 = k_cert + cert;
    assert(plain(p3) && plain(p4) && plain(p5));
    let tail = match p.otp {
        Some(o) => p5 + seq!['&'] + (k_otp + otpauth_of(o, salt)),
        None => p5,
    };
    let t4 = p4 + seq!['&'] + tail;
    let t3 = p3 + seq!['&'] + t4;
    let t2 = p2 + seq!['&'] + t3;
    assert(p.start().args =~= p1 + seq!['&'] + t2);
    lemma_differ(p1, k_phrase, 0);
    lemma_miss(p1, t2, k_phrase);
    lemma_differ(p2, k_phrase, 0);
    lemma_miss(p2, t3, k_phrase);
    lemma_hit(k_phrase, "getservercert"@, t4);
    lemma_differ(p1, k_salt, 0);
    lemma_miss(p1, t2, k_salt);
    lemma_differ(p2, k_salt, 0);
    lemma_miss(p2, t3, k_salt);
    lemma_differ(p3, k_salt, 0);
    lemma_miss(p3, t4, k_salt);
    lemma_hit(k_salt, salt, tail);
    lemma_differ(p1, k_cert, 0);
    lemma_miss(p1, t2, k_cert);
    lemma_differ(p2, k_cert, 0);
    lemma_miss(p2, t3, k_cert);
    lemma_differ(p3, k_cert, 0);
    lemma_miss(p3, t4, k_cert);
    lemma_differ(p4, k_cert, 0);
    lemma_miss(p4, tail, k_cert);
    lemma_differ(p1, k_otp, 0);
    lemma_miss(p1, t2, k_otp);
    lemma_differ(p2, k_otp, 0);
    lemma_miss(p2, t3, k_otp);
    lemma_differ(p3, k_otp, 0);
    lemma_miss(p3, t4, k_otp);
    lemma_differ(p4, k_otp, 0);
    lemma_miss(p4, tail, k_otp);
    lemma_differ(p5, k_otp, 0);
    match p.otp {
        Some(o) => {
            let auth = otpauth_of(o, salt);
            lemma_hex_plain(sha256_of(utf8(o.pin) + utf8(salt) + utf8(o.passphrase)));
            assert(plain(k_otp + auth));
            lemma_hit(k_cert, cert, k_otp + auth);
            lemma_miss(p5, k_otp + auth, k_otp);
            lemma_last_hit(k_otp, auth);
        },
        None => {
            lemma_last_hit(k_cert, cert);
            lemma_last_miss(p5, k_otp);
        },
    }
}

/// Hexadecimal notation needs no escaping.
proof fn lemma_hex_simple(b: Seq<u8>)
    requires
        b.len() > 0,
    ensures
        is_simple_text(hex_of(b)),
{
    assert forall|i: int| 0 <= i < hex_of(b).len() implies {
        let c = #[trigger] hex_of(b)[i];
        ('A' <= c && c <= 'Z') || ('a' <= c && c <= 'z') || ('0' <= c && c <= '9')
    } by {
        assert(0 <= nibble(b, i) < 16);
    }
}

/// A reply reads back as the fields that it was made of.
proof fn lemma_reply_reads_back(reply: ReplyView)
    requires
        flat_parses(reply.xml()),
        reply.field is Some ==> {
            &&& is_simple_name((reply.field->0).0)
            &&& (reply.field->0).0 != "paired"@
            &&& is_simple_text((reply.field->0).1)
        },
    ensures
        root_of(reply.xml()) is Ok,
        carries(root_of(reply.xml())->Ok_0, reply),
{
    reveal_strlit("root");
    reveal_strlit("status_code");
    reveal_strlit("200");
    reveal_strlit("paired");
    reveal_strlit("xmlns");
    reveal_strlit("1");
    reveal_strlit("0");
    let doc = reply.document();
    assert("status_code"@.len() != "xmlns"@.len());
    assert(doc.simple());
    lemma_flat_is_shallow(doc);
    let nodes = doc.nodes();
    assert(element_in(nodes, 0, 0) == Some(1int)) by {
        reveal_with_fuel(element_in, 3);
    }
    let attrs = nodes[1].attributes;
    assert(attribute_in(attrs, "status_code"@) == Some("200"@));
    assert(parsed_i32("200"@) == Some(200i32)) by {
        reveal_with_fuel(digits_value, 4);
    }
    let root = RootView { nodes, root: 1 };
    assert(root_of(reply.xml()) == Ok::<RootView, ErrorView>(root));
    assert(child_in(nodes, 1, "paired"@, 0) == Some(2int)) by {
        reveal_with_fuel(child_in, 4);
    }
    if reply.field is Some {
        assert(child_in(nodes, 1, (reply.field->0).0, 0) == Some(4int)) by {
            reveal_with_fuel(child_in, 6);
        }
    }
}

/// What a client and a host need in common for the handshake to succeed: the same
/// PIN, or the same one-time credentials, and on either side a certificate for the
/// key that signs.
pub open spec fn compatible(host: FakeHostView, client: PairingView) -> bool {
    &&& match client.otp {
        None => client.pin == host.pin,
        Some(o) => host.otp == Some(o) && client.pin == o.pin,
    }
    &&& host.server_secret.len() == 16 && host.server_challenge.len() == 16
    &&& host.cert_pem.len() > 0
    &&& public_key_of_cert(host.cert_pem) == Ok::<RsaPublicView, ErrorView>(host.key.public())
    &&& signature_by(host.key, host.server_secret) is Some
    &&& public_key_of_cert(client.identity.cert_pem) == Ok::<RsaPublicView, ErrorView>(
        client.identity.key.public(),
    )
    &&& signature_by(client.identity.key, client.client_secret) is Some
}

/// `SHA256(rand || sig(hostCert) || sSecret)`, by which the host shows that it
/// knows the PIN.
spec fn host_hash(host: FakeHostView, client: PairingView) -> Seq<u8> {
    sha256_of(
        client.rand_challenge + signature_of_cert(host.cert_pem)->Ok_0 + host.server_secret,
    )
}

/// `SHA256(sChal || sig(clientCert) || cSecret)`, by which the client shows that
/// it knows the PIN.
spec fn client_hash(host: FakeHostView, client: PairingView) -> Seq<u8> {
    sha256_of(
        host.server_challenge + signature_of_cert(client.identity.cert_pem)->Ok_0
            + client.client_secret,
    )
}

/// What holds of both sides, and of the step on its way, in each phase.
#[verifier::opaque]
spec fn in_step(host: FakeHostView, client: PairingView, step: StepView) -> bool {
    &&& compatible(host, client)
    &&& client.phase == 0 ==> step == client.start()
    &&& client.phase > 0 ==> {
        &&& client.server_cert_pem == Some(host.cert_pem)
        &&& host.aes_key == Some(client.aes_key)
        &&& host.client_cert_pem == Some(client.identity.cert_pem)
    }
    &&& client.phase == 1 ==> {
        &&& step.args == step_args(
            "clientchallenge="@,
            ecb(client.aes_key, client.rand_challenge),
        )
        &&& !step.https
        &&& ecb_inverse(client.aes_key, ecb(client.aes_key, client.rand_challenge))
            == client.rand_challenge
    }
    &&& client.phase >= 2 ==> client.server_response == host_hash(host, client)
    &&& client.phase == 2 ==> {
        let hash = client_hash(host, client);
        &&& step.args == step_args("serverchallengeresp="@, ecb(client.aes_key, hash))
        &&& !step.https
        &&& hash.len() == 32
        &&& ecb_inverse(client.aes_key, ecb(client.aes_key, hash)) == hash
    }
    &&& client.phase == 3 ==> {
        let sig = signature_by(client.identity.key, client.client_secret)->0;
        &&& host.client_hash == client_hash(host, client)
        &&& host.client_hash.len() == 32
        &&& step.args == step_args("clientpairingsecret="@, client.client_secret + sig)
        &&& !step.https
        &&& rsa_accepts(client.identity.key.public(), client.client_secret, sig)
    }
    &&& client.phase >= 4 ==> step.https
}


/// Two distinct names of the pairing protocol do not start alike.
proof fn lemma_names()
    ensures
        "phrase"@[0] == 'p',
        "phrase"@.len() == 6,
        plain("clientchallenge="@),
        plain("serverchallengeresp="@),
        plain("clientpairingsecret="@),
        "clientchallenge="@ == "clientchallenge"@ + "="@,
        "serverchallengeresp="@ == "serverchallengeresp"@ + "="@,
        "clientpairingsecret="@ == "clientpairingsecret"@ + "="@,
        "clientchallenge"@.len() == 15,
        "serverchallengeresp"@.len() == 19,
        "clientpairingsecret"@.len() == 19,
        "clientchallenge"@[0] == 'c',
        "serverchallengeresp"@[0] == 's',
        "clientpairingsecret"@[0] == 'c',
        "clientchallenge"@[6] == 'c',
        "clientpairingsecret"@[6] == 'p',
        "clientchallenge="@.len() == 16,
        "serverchallengeresp="@.len() == 20,
        "clientpairingsecret="@.len() == 20,
        "clientchallenge="@[0] == 'c',
        "serverchallengeresp="@[0] == 's',
        "clientpairingsecret="@[0] == 'c',
        "clientchallenge="@[6] == 'c',
        "clientpairingsecret="@[6] == 'p',
{
    reveal_strlit("phrase");
    reveal_strlit("=");
    reveal_strlit("clientchallenge=");
    reveal_strlit("serverchallengeresp=");
    reveal_strlit("clientpairingsecret=");
    reveal_strlit("clientchallenge");
    reveal_strlit("serverchallengeresp");
    reveal_strlit("clientpairingsecret");
    assert("clientchallenge="@ =~= "clientchallenge"@ + "="@);
    assert("serverchallengeresp="@ =~= "serverchallengeresp"@ + "="@);
    assert("clientpairingsecret="@ =~= "clientpairingsecret"@ + "="@);
}

/// The host answers each step of a compatible client, with the fields that the
/// client expects.
proof fn lemma_host_answers(host: FakeHostView, client: PairingView, step: StepView)
    requires
        in_step(host, client, step),
        client.wf(),
        client.phase < 5,
        host.invertible(step),
    ensures
        host.respond(step) is Some,
        ({
            let (after, reply) = host.respond(step)->0;
            &&& reply.paired
            &&& after == (FakeHostView {
                aes_key: after.aes_key,
                client_cert_pem: after.client_cert_pem,
                client_hash: after.client_hash,
                ..host
            })
            &&& after.aes_key == Some(client.aes_key)
            &&& after.client_cert_pem == Some(client.identity.cert_pem)
            &&& client.phase == 0 ==> reply.field == Some(
                ("plaincert"@, hex_of(utf8(host.cert_pem))),
            )
            &&& client.phase == 1 ==> {
                let out = host_hash(host, client) + host.server_challenge;
                &&& reply.field == Some(("challengeresponse"@, hex_of(ecb(client.aes_key, out))))
                &&& out.len() == 48
                &&& ecb_inverse(client.aes_key, ecb(client.aes_key, out)) == out
            }
            &&& client.phase == 2 ==> {
                let sig = signature_by(host.key, host.server_secret)->0;
                &&& reply.field == Some(("pairingsecret"@, hex_of(host.server_secret + sig)))
                &&& rsa_accepts(host.key.public(), host.server_secret, sig)
                &&& sig.len() > 0
                &&& after.client_hash == client_hash(host, client)
            }
            &&& client.phase >= 3 ==> reply.field is None && after == host
        }),
{
    lemma_names();
    reveal(in_step);
    reveal(FakeHostView::respond);
    let args = step.args;
    if client.phase == 0 {
        lemma_start_params(client);
        hex_round_trip(client.salt);
        hex_round_trip(utf8(client.identity.cert_pem));
        vstd::utf8::encode_utf8_valid_utf8(client.identity.cert_pem);
        vstd::utf8::encode_utf8_decode_utf8(client.identity.cert_pem);
        assert(client.salt.take(16) =~= client.salt);
    } else if client.phase == 1 {
        let sent = ecb(client.aes_key, client.rand_challenge);
        lemma_step_param("clientchallenge="@, sent, "phrase"@, 0);
        lemma_step_param("clientchallenge="@, sent, "clientchallenge"@, 0);
        hex_round_trip(sent);
    } else if client.phase == 2 {
        let sent = ecb(client.aes_key, client_hash(host, client));
        lemma_step_param("serverchallengeresp="@, sent, "phrase"@, 0);
        lemma_step_param("serverchallengeresp="@, sent, "clientchallenge"@, 0);
        lemma_step_param("serverchallengeresp="@, sent, "serverchallengeresp"@, 0);
        hex_round_trip(sent);
    } else if client.phase == 3 {
        let sig = signature_by(client.identity.key, client.client_secret)->0;
        let sent = client.client_secret + sig;
        lemma_step_param("clientpairingsecret="@, sent, "phrase"@, 0);
        lemma_step_param("clientpairingsecret="@, sent, "clientchallenge"@, 6);
        lemma_step_param("clientpairingsecret="@, sent, "serverchallengeresp"@, 0);
        lemma_step_param("clientpairingsecret="@, sent, "clientpairingsecret"@, 0);
        hex_round_trip(sent);
        assert(sent.take(16) =~= client.client_secret);
        assert(sent.skip(16) =~= sig);
        assert(host.client_hash.take(32) =~= host.client_hash);
    }
}

/// The name of a reply's field needs no escaping.
proof fn lemma_field_names()
    ensures
        is_simple_name("plaincert"@),
        is_simple_name("challengeresponse"@),
        is_simple_name("pairingsecret"@),
        "plaincert"@ != "paired"@,
        "challengeresponse"@ != "paired"@,
        "pairingsecret"@ != "paired"@,
{
    reveal_strlit("plaincert");
    reveal_strlit("challengeresponse");
    reveal_strlit("pairingsecret");
    reveal_strlit("paired");
    assert("plaincert"@.len() != "paired"@.len());
    assert("challengeresponse"@.len() != "paired"@.len());
    assert("pairingsecret"@.len() != "paired"@.len());
}

/// A text that holds something takes at least a byte.
proof fn lemma_utf8_nonempty(s: Seq<char>)
    requires
        s.len() > 0,
    ensures
        utf8(s).len() > 0,
{
    vstd::utf8::encode_utf8_decode_utf8(s);
    if utf8(s).len() == 0 {
        assert(decode_utf8(utf8(s)).len() == 0);
    }
}

/// "1" has no white space around it.
proof fn lemma_trimmed_one()
    ensures
        trimmed("1"@) == "1"@,
{
    reveal_strlit("1");
}

/// A compatible client takes the host's answer, and both stay in step.
proof fn lemma_client_advances(host: FakeHostView, client: PairingView, step: StepView)
    requires
        in_step(host, client, step),
        client.wf(),
        client.phase < 5,
        host.invertible(step),
        flat_parses((host.respond(step)->0).1.xml()),
        ({
            let body = (host.respond(step)->0).1.xml();
            root_of(body) is Ok && !client.stuck(root_of(body)->Ok_0) ==> client.invertible(
                root_of(body)->Ok_0,
            )
        }),
    ensures
        ({
            let (after, reply) = host.respond(step)->0;
            let body = reply.xml();
            let (next, result) = client.next(body);
            &&& root_of(body) is Ok
            &&& !client.stuck(root_of(body)->Ok_0)
            &&& client.phase < 4 ==> result is Ok && result->Ok_0 is Some && in_step(
                after,
                next,
                result->Ok_0->0,
            )
            &&& client.phase == 4 ==> result == Ok::<Option<StepView>, ErrorView>(None)
            &&& next.phase == client.phase + 1
            &&& next.server_cert_pem == Some(host.cert_pem)
            &&& after.cert_pem == host.cert_pem
        }),
{
    lemma_host_answers(host, client, step);
    reveal(in_step);
    let (after, reply) = host.respond(step)->0;
    lemma_field_names();
    lemma_trimmed_one();
    lemma_utf8_nonempty(host.cert_pem);
    lemma_hex_simple(utf8(host.cert_pem));
    let out = host_hash(host, client) + host.server_challenge;
    if client.phase == 1 {
        lemma_hex_simple(ecb(client.aes_key, out));
    }
    let sig = signature_by(host.key, host.server_secret)->0;
    lemma_hex_simple(host.server_secret + sig);
    lemma_reply_reads_back(reply);
    let root = root_of(reply.xml())->Ok_0;
    reveal(PairingView::next);
    if client.phase == 0 {
        lemma_trimmed_hex(utf8(host.cert_pem));
        hex_round_trip(utf8(host.cert_pem));
        vstd::utf8::encode_utf8_valid_utf8(host.cert_pem);
        vstd::utf8::encode_utf8_decode_utf8(host.cert_pem);
    } else if client.phase == 1 {
        lemma_trimmed_hex(ecb(client.aes_key, out));
        hex_round_trip(ecb(client.aes_key, out));
        assert(out.take(32) =~= host_hash(host, client));
        assert(out.subrange(32, 48) =~= host.server_challenge);
    } else if client.phase == 2 {
        let sent = host.server_secret + sig;
        lemma_trimmed_hex(sent);
        hex_round_trip(sent);
        assert(sent.take(16) =~= host.server_secret);
        assert(sent.skip(16) =~= sig);
    }
}

/// A response moves the client by one phase, or ends the handshake.
proof fn lemma_phase_grows(client: PairingView, body: Seq<char>)
    requires
        client.phase < 5,
    ensures
        ({
            let (next, result) = client.next(body);
            &&& result matches Ok(Some(_)) ==> next.phase == client.phase + 1 <= 4
            &&& result matches Ok(None) ==> next.phase == 5
        }),
{
    reveal(PairingView::next);
}

/// How a handshake between a host and a client ends: both sides' states, and the
/// client's result; `None` where the host has no answer or the client's key cannot
/// sign.
pub open spec fn outcome(host: FakeHostView, client: PairingView, step: StepView) -> (
    FakeHostView,
    PairingView,
    Option<Result<(), ErrorView>>,
)
    decreases 6 - client.phase,
{
    match host.respond(step) {
        None => (host, client, None),
        Some((after, reply)) => {
            let body = reply.xml();
            let (next, result) = client.next(body);
            if root_of(body) is Ok && client.stuck(root_of(body)->Ok_0) {
                (after, client, None)
            } else {
                match result {
                    Err(e) => (after, next, Some(Err(e))),
                    Ok(None) => (after, next, Some(Ok(()))),
                    Ok(Some(s)) => if client.phase < next.phase <= 5 {
                        outcome(after, next, s)
                    } else {
                        (after, next, None)
                    },
                }
            }
        },
    }
}

/// Runs the handshake between a simulated host and a client. With the same PIN, or
/// the same one-time credentials, on both sides it ends in a pairing, and the
/// client has the host's certificate.
pub fn run(host: &mut FakeHost, pairing: &mut Pairing) -> (r: Option<Result<(), Error>>)
    requires
        old(pairing)@.wf(),
        old(pairing)@.phase == 0,
    ensures
        ({
            let (h, c, result) = outcome(old(host)@, old(pairing)@, old(pairing)@.start());
            &&& final(host)@ == h
            &&& final(pairing)@ == c
            &&& match r {
                None => result is None,
                Some(Ok(_)) => result == Some(Ok::<(), ErrorView>(())),
                Some(Err(e)) => result == Some(Err::<(), ErrorView>(e@)),
            }
        }),
        r matches Some(Ok(_)) ==> final(pairing)@.phase == 5,
        compatible(old(host)@, old(pairing)@) ==> {
            &&& r matches Some(Ok(_))
            &&& final(pairing)@.server_cert_pem == Some(old(host)@.cert_pem)
        },
{
    let mut step = pairing.start();
    let ghost h0 = host@;
    let ghost c0 = pairing@;
    let ghost good = compatible(h0, c0);
    assert(good ==> in_step(h0, c0, c0.start())) by {
        reveal(in_step);
    }
    loop
        invariant
            pairing@.wf(),
            pairing@.phase < 5,
            outcome(h0, c0, c0.start()) == outcome(host@, pairing@, step@),
            good ==> in_step(host@, pairing@, step@) && host@.cert_pem == h0.cert_pem,
            good == compatible(h0, c0),
            h0 == old(host)@,
            c0 == old(pairing)@,
        decreases 5 - pairing@.phase,
    {
        let ghost h = host@;
        let ghost c = pairing@;
        let ghost s = step@;
        let body = match host.try_handle(&step) {
            Some(b) => b,
            None => {
                proof {
                    if good {
                        lemma_host_answers(h, c, s);
                    }
                }
                return None;
            },
        };
        let turn = pairing.try_next(body.as_str());
        proof {
            lemma_phase_grows(c, body@);
            if good {
                lemma_client_advances(h, c, s);
            }
        }
        match turn {
            None => return None,
            Some(Err(e)) => return Some(Err(e)),
            Some(Ok(None)) => return Some(Ok(())),
            Some(Ok(Some(next))) => {
                step = next;
            },
        }
    }
}

/// A secret that the server's key did not sign is refused, whatever else the
/// response says.
pub proof fn forged_signature_is_refused(
    client: PairingView,
    root: RootView,
    secret: Seq<u8>,
    key: RsaPublicView,
)
    requires
        client.phase == 2,
        says_paired(root),
        hex_field(root, "pairingsecret"@) == Ok::<Seq<u8>, ErrorView>(secret),
        secret.len() > 16,
        public_key_of_cert(client.server_cert_pem->0) == Ok::<RsaPublicView, ErrorView>(key),
        !rsa_accepts(key, secret.take(16), secret.skip(16)),
    ensures
        client.advance(root) == (
            client,
            Err::<Option<StepView>, ErrorView>(ErrorView::Pair(PairErrorView::BadServerSignature)),
        ),
{
}

/// A server that signed its secret, but whose hash does not show the PIN, is
/// reported as a wrong PIN.
pub proof fn wrong_hash_is_a_wrong_pin(
    client: PairingView,
    root: RootView,
    secret: Seq<u8>,
    key: RsaPublicView,
    sig: Seq<u8>,
)
    requires
        client.phase == 2,
        says_paired(root),
        hex_field(root, "pairingsecret"@) == Ok::<Seq<u8>, ErrorView>(secret),
        secret.len() > 16,
        public_key_of_cert(client.server_cert_pem->0) == Ok::<RsaPublicView, ErrorView>(key),
        rsa_accepts(key, secret.take(16), secret.skip(16)),
        signature_of_cert(client.server_cert_pem->0) == Ok::<Seq<u8>, ErrorView>(sig),
        client.server_response != sha256_of(client.rand_challenge + sig + secret.take(16)),
    ensures
        client.advance(root) == (
            client,
            Err::<Option<StepView>, ErrorView>(ErrorView::Pair(PairErrorView::WrongPin)),
        ),
{
}

/// The client gives its secret away only to a server that signed its own secret
/// with the key of the certificate from the first step, and whose hash showed the
/// PIN.
pub proof fn secret_goes_to_a_checked_server_only(client: PairingView, root: RootView)
    requires
        client.phase == 2,
        client.advance(root).1 is Ok,
    ensures
        ({
            let pem = client.server_cert_pem->0;
            let secret = hex_field(root, "pairingsecret"@)->Ok_0;
            &&& hex_field(root, "pairingsecret"@) is Ok
            &&& public_key_of_cert(pem) is Ok
            &&& rsa_accepts(public_key_of_cert(pem)->Ok_0, secret.take(16), secret.skip(16))
            &&& client.server_response == sha256_of(
                client.rand_challenge + signature_of_cert(pem)->Ok_0 + secret.take(16),
            )
        }),
{
}

/// The host pairs only with a client whose earlier hash shows the PIN and whose
/// key signed its secret: a wrong PIN cannot succeed on this side either.
pub proof fn hosts_pair_with_checked_clients_only(host: FakeHostView, value: Seq<char>)
    requires
        host.on_clientpairingsecret(value) is Some,
        (host.on_clientpairingsecret(value)->0).1.paired,
    ensures
        ({
            let raw = hex_decoded(utf8(value))->Ok_0;
            let pem = host.client_cert_pem->0;
            &&& host.client_hash.take(32) == sha256_of(
                host.server_challenge + signature_of_cert(pem)->Ok_0 + raw.take(16),
            )
            &&& rsa_accepts(public_key_of_cert(pem)->Ok_0, raw.take(16), raw.skip(16))
        }),
{
}

/// A response moves the handshake by exactly one phase or, where it is an error,
/// by none; what identifies the client never changes.
pub proof fn one_phase_at_a_time(client: PairingView, root: RootView)
    requires
        client.phase <= 4,
    ensures
        ({
            let (next, result) = client.advance(root);
            &&& result is Ok ==> next.phase == client.phase + 1
            &&& result is Err ==> next.phase == client.phase
            &&& result == Ok::<Option<StepView>, ErrorView>(None) <==> next.phase == 5
            &&& next.identity == client.identity && next.pin == client.pin && next.salt
                == client.salt && next.client_secret == client.client_secret
                && next.rand_challenge == client.rand_challenge && next.otp == client.otp
        }),
{
}

/// A refused answer leaves the handshake where it stood, with the server's
/// certificate that it had; at most the server's hash is kept from it. The handshake
/// is complete only by an answer that gives no further step. An answer that cannot be
/// read, or that does not say that the server goes along, is refused as such in every
/// phase and changes nothing.
pub proof fn refused_answers_keep_the_place(client: PairingView, body: Seq<char>)
    ensures
        ({
            let (next, result) = client.next(body);
            &&& result is Err ==> next == (PairingView {
                server_response: next.server_response,
                ..client
            })
            &&& next.phase == 5 && client.phase != 5 ==> result == Ok::<
                Option<StepView>,
                ErrorView,
            >(None)
            &&& match root_of(body) {
                Err(e) => next == client && result == Err::<Option<StepView>, ErrorView>(e),
                Ok(root) => !says_paired(root) ==> next == client && result == Err::<
                    Option<StepView>,
                    ErrorView,
                >(ErrorView::Pair(PairErrorView::NotPaired)),
            }
        }),
{
    reveal(PairingView::next);
}

/// A host with one-time credentials takes the one-time PIN from a client that
/// proves the passphrase, and a PIN that fits nobody from any other.
pub proof fn one_time_pin_needs_the_passphrase(host: FakeHostView, client: PairingView)
    requires
        client.wf(),
        host.otp is Some,
        client.otp is Some,
    ensures
        ({
            let answer = host.respond(client.start());
            let expected = otpauth_of(host.otp->0, hex_of(client.salt));
            let sent = otpauth_of(client.otp->0, hex_of(client.salt));
            &&& answer is Some
            &&& (answer->0).0.aes_key == Some(
                aes_key_of(
                    client.salt,
                    if sent == expected {
                        host.otp->0.pin
                    } else {
                        "9999"@
                    },
                ),
            )
        }),
{
    reveal(FakeHostView::respond);
    lemma_start_params(client);
    hex_round_trip(client.salt);
    hex_round_trip(utf8(client.identity.cert_pem));
    vstd::utf8::encode_utf8_valid_utf8(client.identity.cert_pem);
    assert(client.salt.take(16) =~= client.salt);
}

/// The last step, once the host has answered that it is paired, goes over HTTPS and
/// asks for the pair challenge.
pub proof fn the_last_step_asks_the_pair_challenge(client: PairingView, root: RootView)
    requires
        client.phase == 3,
        root.child("paired"@) == Some("1"@),
    ensures
        ({
            let (next, result) = client.advance(root);
            &&& result is Ok && result->Ok_0 is Some
            &&& param_of(result->Ok_0->0.args, "phrase"@) == Some("pairchallenge"@)
            &&& param_of(result->Ok_0->0.args, "devicename"@) == Some("roth"@)
            &&& param_of(result->Ok_0->0.args, "updateState"@) == Some("1"@)
            &&& result->Ok_0->0.https
            &&& next == (PairingView { phase: 4, ..client })
        }),
{
    lemma_trimmed_one();
    reveal_strlit("devicename=roth&updateState=1&phrase=pairchallenge");
    reveal_strlit("phrase");
    reveal_strlit("pairchallenge");
    reveal_strlit("=");
    let args = client.advance(root).1->Ok_0->0.args;
    let start = "phrase"@ + "="@;
    let p1 = seq!['d', 'e', 'v', 'i', 'c', 'e', 'n', 'a', 'm', 'e', '=', 'r', 'o', 't', 'h'];
    let p2 = seq!['u', 'p', 'd', 'a', 't', 'e', 'S', 't', 'a', 't', 'e', '=', '1'];
    let p3 = start + "pairchallenge"@;
    assert(args =~= p1 + seq!['&'] + (p2 + seq!['&'] + p3));
    lemma_differ(p1, start, 0);
    lemma_differ(p2, start, 0);
    lemma_miss(p1, p2 + seq!['&'] + p3, start);
    lemma_miss(p2, p3, start);
    lemma_last_hit(start, "pairchallenge"@);
    lemma_device(p3);
}

/// Arguments that begin with the device name and the state flag.
proof fn lemma_device(rest: Seq<char>)
    ensures
        ({
            let p1 = seq!['d', 'e', 'v', 'i', 'c', 'e', 'n', 'a', 'm', 'e', '=', 'r', 'o', 't', 'h'];
            let p2 = seq!['u', 'p', 'd', 'a', 't', 'e', 'S', 't', 'a', 't', 'e', '=', '1'];
            let args = p1 + seq!['&'] + (p2 + seq!['&'] + rest);
            &&& param_of(args, "devicename"@) == Some("roth"@)
            &&& param_of(args, "updateState"@) == Some("1"@)
        }),
{
    reveal_strlit("devicename");
    reveal_strlit("updateState");
    reveal_strlit("roth");
    reveal_strlit("1");
    reveal_strlit("=");
    let p1 = seq!['d', 'e', 'v', 'i', 'c', 'e', 'n', 'a', 'm', 'e', '=', 'r', 'o', 't', 'h'];
    let p2 = seq!['u', 'p', 'd', 'a', 't', 'e', 'S', 't', 'a', 't', 'e', '=', '1'];
    let k1 = "devicename"@ + "="@;
    let k2 = "updateState"@ + "="@;
    assert(p1 =~= k1 + "roth"@);
    assert(p2 =~= k2 + "1"@);
    lemma_hit(k1, "roth"@, p2 + seq!['&'] + rest);
    lemma_differ(p1, k2, 0);
    lemma_miss(p1, p2 + seq!['&'] + rest, k2);
    lemma_hit(k2, "1"@, rest);
}

/// Every step names the device and asks for an update of the state, and every step
/// but the last goes over plain HTTP.
pub proof fn steps_name_the_device(client: PairingView, root: RootView)
    ensures
        param_of(client.start().args, "devicename"@) == Some("roth"@),
        param_of(client.start().args, "updateState"@) == Some("1"@),
        !client.start().https,
        client.advance(root).1 matches Ok(Some(step)) ==> {
            &&& param_of(step.args, "devicename"@) == Some("roth"@)
            &&& param_of(step.args, "updateState"@) == Some("1"@)
            &&& step.https <==> client.phase == 3
        },
{
    reveal_strlit("devicename=roth&updateState=1&phrase=getservercert&salt=");
    reveal_strlit("devicename=roth&updateState=1&phrase=pairchallenge");
    reveal_strlit("devicename=roth&updateState=1&");
    let p1 = seq!['d', 'e', 'v', 'i', 'c', 'e', 'n', 'a', 'm', 'e', '=', 'r', 'o', 't', 'h'];
    let p2 = seq!['u', 'p', 'd', 'a', 't', 'e', 'S', 't', 'a', 't', 'e', '=', '1'];
    let first = client.start().args;
    let rest = first.skip(30);
    assert(first =~= p1 + seq!['&'] + (p2 + seq!['&'] + rest));
    lemma_device(rest);
    if let Ok(Some(step)) = client.advance(root).1 {
        let rest = step.args.skip(30);
        assert(step.args =~= p1 + seq!['&'] + (p2 + seq!['&'] + rest));
        lemma_device(rest);
    }
}

/// The first step carries the salt and the client's certificate, and with one-time
/// credentials the upper case digest of the PIN, the salt as it is sent and the
/// passphrase, in this order.
pub proof fn the_first_step_asks_for_the_certificate(client: PairingView)
    ensures
        ({
            let args = client.start().args;
            &&& param_of(args, "phrase"@) == Some("getservercert"@)
            &&& param_of(args, "salt"@) == Some(hex_of(client.salt))
            &&& param_of(args, "clientcert"@) == Some(hex_of(utf8(client.identity.cert_pem)))
            &&& match client.otp {
                Some(o) => param_of(args, "otpauth"@) == Some(
                    hex_upper_of(
                        sha256_of(
                            utf8(o.pin) + utf8(param_of(args, "salt"@)->0) + utf8(o.passphrase),
                        ),
                    ),
                ),
                None => param_of(args, "otpauth"@) is None,
            }
        }),
{
    lemma_start_params(client);
}

/// The host's certificate, sent as hexadecimal, is kept as it is, and answered with
/// the random challenge under the AES key.
pub proof fn the_certificate_is_answered_by_a_challenge(
    client: PairingView,
    root: RootView,
    pem: Seq<char>,
)
    requires
        client.phase == 0,
        root.child("paired"@) == Some("1"@),
        root.child("plaincert"@) == Some(hex_of(utf8(pem))),
        pem.len() > 0,
    ensures
        ({
            let (next, result) = client.advance(root);
            &&& next == (PairingView { phase: 1, server_cert_pem: Some(pem), ..client })
            &&& result is Ok && result->Ok_0 is Some
            &&& param_of(result->Ok_0->0.args, "clientchallenge"@) == Some(
                hex_of(ecb(client.aes_key, client.rand_challenge)),
            )
        }),
{
    lemma_trimmed_one();
    lemma_trimmed_hex(utf8(pem));
    lemma_utf8_nonempty(pem);
    hex_round_trip(utf8(pem));
    vstd::utf8::encode_utf8_valid_utf8(pem);
    vstd::utf8::encode_utf8_decode_utf8(pem);
    lemma_names();
    lemma_step_param(
        "clientchallenge="@,
        ecb(client.aes_key, client.rand_challenge),
        "clientchallenge"@,
        0,
    );
}

/// A host that gives no certificate is pairing with somebody else.
pub proof fn no_certificate_means_another_pairing(client: PairingView, root: RootView)
    requires
        client.phase == 0,
        root.child("paired"@) == Some("1"@),
        root.child("plaincert"@) is None || trimmed(root.child("plaincert"@)->0).len() == 0,
    ensures
        client.advance(root) == (
            client,
            Err::<Option<StepView>, ErrorView>(ErrorView::Pair(PairErrorView::AlreadyInProgress)),
        ),
{
    lemma_trimmed_one();
    reveal_strlit("");
    assert(trimmed(""@).len() == 0);
}

/// Of the decrypted answer to the challenge the first half is kept as the host's
/// hash. The sixteen bytes after it are answered with a digest of them, the signature
/// of the client's certificate and the client's secret, under the AES key.
pub proof fn the_host_challenge_is_answered_by_a_hash(
    client: PairingView,
    root: RootView,
    sent: Seq<u8>,
    sig: Seq<u8>,
)
    requires
        client.phase == 1,
        root.child("paired"@) == Some("1"@),
        root.child("challengeresponse"@) == Some(hex_of(sent)),
        sent.len() >= 48,
        sent.len() % 16 == 0,
        signature_of_cert(client.identity.cert_pem) == Ok::<Seq<u8>, ErrorView>(sig),
    ensures
        ({
            let plain = ecb_inverse(client.aes_key, sent);
            let (next, result) = client.advance(root);
            &&& next == (PairingView { phase: 2, server_response: plain.take(32), ..client })
            &&& result is Ok && result->Ok_0 is Some
            &&& param_of(result->Ok_0->0.args, "serverchallengeresp"@) == Some(
                hex_of(
                    ecb(
                        client.aes_key,
                        sha256_of(plain.subrange(32, 48) + sig + client.client_secret),
                    ),
                ),
            )
        }),
{
    lemma_trimmed_one();
    lemma_trimmed_hex(sent);
    hex_round_trip(sent);
    lemma_names();
    let plain = ecb_inverse(client.aes_key, sent);
    lemma_step_param(
        "serverchallengeresp="@,
        ecb(client.aes_key, sha256_of(plain.subrange(32, 48) + sig + client.client_secret)),
        "serverchallengeresp"@,
        0,
    );
}

/// A host that shows its key and the PIN gets the client's secret, with the client's
/// signature of it.
pub proof fn a_checked_host_gets_the_secret(
    client: PairingView,
    root: RootView,
    pem: Seq<char>,
    secret: Seq<u8>,
    sig: Seq<u8>,
    key: RsaPublicView,
    cert_sig: Seq<u8>,
)
    requires
        client.phase == 2,
        root.child("paired"@) == Some("1"@),
        root.child("pairingsecret"@) == Some(hex_of(secret + sig)),
        secret.len() == 16,
        sig.len() > 0,
        client.server_cert_pem == Some(pem),
        public_key_of_cert(pem) == Ok::<RsaPublicView, ErrorView>(key),
        rsa_accepts(key, secret, sig),
        signature_of_cert(pem) == Ok::<Seq<u8>, ErrorView>(cert_sig),
        client.server_response == sha256_of(client.rand_challenge + cert_sig + secret),
        signature_by(client.identity.key, client.client_secret) is Some,
    ensures
        ({
            let (next, result) = client.advance(root);
            &&& next == (PairingView { phase: 3, ..client })
            &&& result is Ok && result->Ok_0 is Some
            &&& param_of(result->Ok_0->0.args, "clientpairingsecret"@) == Some(
                hex_of(
                    client.client_secret + signature_by(
                        client.identity.key,
                        client.client_secret,
                    )->0,
                ),
            )
        }),
{
    lemma_trimmed_one();
    lemma_trimmed_hex(secret + sig);
    hex_round_trip(secret + sig);
    assert((secret + sig).take(16) =~= secret);
    assert((secret + sig).skip(16) =~= sig);
    lemma_names();
    lemma_step_param(
        "clientpairingsecret="@,
        client.client_secret + signature_by(client.identity.key, client.client_secret)->0,
        "clientpairingsecret"@,
        0,
    );
}

/// The answer to the last step completes the handshake.
pub proof fn the_last_answer_completes(client: PairingView, root: RootView)
    requires
        client.phase == 4,
        root.child("paired"@) == Some("1"@),
    ensures
        client.advance(root) == (
            PairingView { phase: 5, ..client },
            Ok::<Option<StepView>, ErrorView>(None),
        ),
{
    lemma_trimmed_one();
}

/// The AES key is the first sixteen bytes of a digest of the salt and the PIN.
pub proof fn the_key_comes_from_salt_and_pin(client: PairingView)
    requires
        client.wf(),
    ensures
        client.aes_key == sha256_of(client.salt + utf8(client.pin)).take(16),
{
}

/// A field must be there, and in hexadecimal; white space around it does not count.
pub proof fn fields_are_hexadecimal(root: RootView, name: Seq<char>, b: Seq<u8>)
    ensures
        root.child(name) == Some(hex_of(b)) ==> hex_field(root, name) == Ok::<Seq<u8>, ErrorView>(b),
        root.child(name) is None ==> hex_field(root, name) == Err::<Seq<u8>, ErrorView>(
            ErrorView::Missing(name),
        ),
        root.child(name) matches Some(t) ==> hex_decoded(utf8(trimmed(t))) matches Err(e)
            ==> hex_field(root, name) == Err::<Seq<u8>, ErrorView>(ErrorView::Hex(e)),
{
    lemma_trimmed_hex(b);
    hex_round_trip(b);
}

/// Two parameters in a row, of which the first is a client's ID.
pub(crate) proof fn lemma_two_params(unique_id: Seq<char>, uuid: Seq<u8>)
    requires
        forall|i: int| 0 <= i < unique_id.len() ==> #[trigger] unique_id[i] != '&',
    ensures
        ({
            let args = "uniqueid="@ + unique_id + "&uuid="@ + hex_of(uuid);
            &&& param_of(args, "uniqueid"@) == Some(unique_id)
            &&& param_of(args, "uuid"@) == Some(hex_of(uuid))
        }),
{
    reveal_strlit("uniqueid=");
    reveal_strlit("uniqueid");
    reveal_strlit("&uuid=");
    reveal_strlit("uuid");
    reveal_strlit("=");
    let k1 = "uniqueid"@ + "="@;
    let k2 = "uuid"@ + "="@;
    let hex = hex_of(uuid);
    lemma_hex_plain(uuid);
    let p1 = k1 + unique_id;
    let p2 = k2 + hex;
    let args = "uniqueid="@ + unique_id + "&uuid="@ + hex;
    assert(args =~= p1 + seq!['&'] + p2);
    assert(plain(p1)) by {
        assert forall|i: int| 0 <= i < p1.len() implies #[trigger] p1[i] != '&' by {
            if i >= 9 {
                assert(p1[i] == unique_id[i - 9]);
            }
        }
    }
    assert(plain(p2));
    lemma_hit(k1, unique_id, p2);
    lemma_differ(p1, k2, 1);
    lemma_miss(p1, p2, k2);
    lemma_last_hit(k2, hex);
}

/// A handshake is stuck exactly where the host was found right, its turn has come to
/// get the signed secret, and the client's key cannot sign.
pub proof fn only_a_due_signature_can_be_missing(client: PairingView, root: RootView)
    ensures
        client.stuck(root) <==> client.phase == 2 && says_paired(root) && client.server_check(
            root,
        ) is Ok && signature_by(client.identity.key, client.client_secret) is None,
{
}

/// An answer to the challenge that is no whole number of blocks, or shorter than a hash
/// and a challenge, is refused with its length; so is a secret without a signature.
pub proof fn short_answers_are_refused(client: PairingView, root: RootView, sent: Seq<u8>)
    ensures
        root.child("paired"@) == Some("1"@) && client.phase == 1 && root.child(
            "challengeresponse"@,
        ) == Some(hex_of(sent)) ==> {
            &&& sent.len() == 0 || sent.len() % 16 != 0 ==> client.advance(root) == (
                client,
                Err::<Option<StepView>, ErrorView>(
                    ErrorView::Crypto(
                        "AES-ECB input length "@ + decimal(sent.len())
                            + " is not a multiple of 16"@,
                    ),
                ),
            )
            &&& 0 < sent.len() < 48 && sent.len() % 16 == 0 ==> client.advance(root) == (
                client,
                Err::<Option<StepView>, ErrorView>(
                    ErrorView::Pair(
                        PairErrorView::Malformed(
                            "challengeresponse is "@ + decimal(sent.len())
                                + " bytes, expected >= 48"@,
                        ),
                    ),
                ),
            )
        },
        root.child("paired"@) == Some("1"@) && client.phase == 2 && root.child("pairingsecret"@)
            == Some(hex_of(sent)) && sent.len() <= 16 ==> client.advance(root) == (
            client,
            Err::<Option<StepView>, ErrorView>(
                ErrorView::Pair(PairErrorView::Malformed("pairingsecret too short"@)),
            ),
        ),
{
    lemma_trimmed_one();
    lemma_trimmed_hex(sent);
    hex_round_trip(sent);
}

/// A certificate that is not hexadecimal, or no text, is refused.
pub proof fn unreadable_certificates_are_refused(client: PairingView, root: RootView, sent: Seq<u8>)
    requires
        client.phase == 0,
        root.child("paired"@) == Some("1"@),
        root.child("plaincert"@) == Some(hex_of(sent)),
        sent.len() > 0,
        !vstd::utf8::valid_utf8(sent),
    ensures
        client.advance(root) == (
            client,
            Err::<Option<StepView>, ErrorView>(
                ErrorView::Pair(
                    PairErrorView::Malformed("plaincert utf8: "@ + utf8_error(sent)),
                ),
            ),
        ),
{
    lemma_trimmed_one();
    lemma_trimmed_hex(sent);
    hex_round_trip(sent);
}

} // verus!
