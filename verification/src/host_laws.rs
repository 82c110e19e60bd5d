//! What the simulated host answers, and how what goes wrong is told.

use vstd::prelude::*;
use crate::crypto::{ecb, ecb_inverse, public_key_of_cert, signature_by, signature_of_cert};
use crate::error::{ErrorView, PairErrorView};
use crate::fakehost::{
    applist_words, changed, client_index, new_client_of, serverinfo_words, xml_err_words, ClientUpdate,
    FakeApolloView, FakeClientView, FakePairView, JsonValueView,
};
use crate::foreign::{
    hex_decoded, hex_of, hex_upper_of, nibble, rsa_accepts, sha256_of, HexError, RsaPublicView,
};
use crate::pairing::{PairingView, StepView};
use crate::proto::hex_round_trip;
use crate::testing::{param_of, FakeHostView, ReplyView};
use crate::text::{decimal, digits_value, has_part, has_prefix, has_suffix, utf8};
use crate::text_laws::parts_are_found;

verus! {

// ---------------------------------------------------------------------------
// The pairing handshake from the host's side
// ---------------------------------------------------------------------------

/// Over HTTPS every step is taken for the last one: the host says that it is paired.
pub proof fn hosts_agree_over_https(host: FakeHostView, args: Seq<char>)
    ensures
        host.respond(StepView { args, https: true }) == Some(
            (host, ReplyView { paired: true, field: None }),
        ),
{
    reveal(FakeHostView::respond);
}

/// The first step of a client without one-time credentials gets the host's
/// certificate. The host keeps the client's, and takes the key from the salt and from
/// its own PIN, whatever the client's is.
pub proof fn hosts_answer_the_first_step(host: FakeHostView, client: PairingView)
    requires
        client.wf(),
        client.otp is None,
    ensures
        host.respond(client.start()) is Some,
        ({
            let (after, reply) = host.respond(client.start())->0;
            &&& reply.paired
            &&& reply.field == Some(("plaincert"@, hex_of(utf8(host.cert_pem))))
            &&& after == (FakeHostView {
                aes_key: Some(sha256_of(client.salt + utf8(host.pin)).take(16)),
                client_cert_pem: Some(client.identity.cert_pem),
                ..host
            })
        }),
{
    reveal(FakeHostView::respond);
    crate::handshake::the_first_step_asks_for_the_certificate(client);
    hex_round_trip(client.salt);
    hex_round_trip(utf8(client.identity.cert_pem));
    vstd::utf8::encode_utf8_valid_utf8(client.identity.cert_pem);
    vstd::utf8::encode_utf8_decode_utf8(client.identity.cert_pem);
    assert(client.salt.take(16) =~= client.salt);
}

/// A challenge is answered with a digest of what it decrypts to, of the signature of
/// the host's certificate and of the host's secret; behind it stands the host's own
/// challenge, and all of it is encrypted.
pub proof fn hosts_answer_the_challenge(
    host: FakeHostView,
    key: Seq<u8>,
    sent: Seq<u8>,
    sig: Seq<u8>,
)
    requires
        host.aes_key == Some(key),
        signature_of_cert(host.cert_pem) == Ok::<Seq<u8>, ErrorView>(sig),
        sent.len() > 0,
        sent.len() % 16 == 0,
    ensures
        host.on_clientchallenge(hex_of(sent)) == Some(
            (
                host,
                ReplyView {
                    paired: true,
                    field: Some(
                        (
                            "challengeresponse"@,
                            hex_of(
                                ecb(
                                    key,
                                    sha256_of(ecb_inverse(key, sent) + sig + host.server_secret)
                                        + host.server_challenge,
                                ),
                            ),
                        ),
                    ),
                },
            ),
        ),
{
    hex_round_trip(sent);
}

/// The client's hash is kept decrypted, and answered with the host's secret and the
/// host's signature of it.
pub proof fn hosts_answer_the_hash(host: FakeHostView, key: Seq<u8>, sent: Seq<u8>, sig: Seq<u8>)
    requires
        host.aes_key == Some(key),
        signature_by(host.key, host.server_secret) == Some(sig),
        sent.len() > 0,
        sent.len() % 16 == 0,
    ensures
        host.on_serverchallengeresp(hex_of(sent)) == Some(
            (
                FakeHostView { client_hash: ecb_inverse(key, sent), ..host },
                ReplyView {
                    paired: true,
                    field: Some(("pairingsecret"@, hex_of(host.server_secret + sig))),
                },
            ),
        ),
{
    hex_round_trip(sent);
}

/// A client is paired with exactly if its earlier hash shows the PIN and its key signed
/// its secret; the host itself does not change.
pub proof fn hosts_judge_the_secret(
    host: FakeHostView,
    pem: Seq<char>,
    secret: Seq<u8>,
    sig: Seq<u8>,
    cert_sig: Seq<u8>,
    key: RsaPublicView,
)
    requires
        host.client_cert_pem == Some(pem),
        signature_of_cert(pem) == Ok::<Seq<u8>, ErrorView>(cert_sig),
        public_key_of_cert(pem) == Ok::<RsaPublicView, ErrorView>(key),
        secret.len() == 16,
        host.client_hash.len() == 32,
    ensures
        host.on_clientpairingsecret(hex_of(secret + sig)) == Some(
            (
                host,
                ReplyView {
                    paired: host.client_hash == sha256_of(host.server_challenge + cert_sig + secret)
                        && rsa_accepts(key, secret, sig),
                    field: None,
                },
            ),
        ),
{
    hex_round_trip(secret + sig);
    assert((secret + sig).take(16) =~= secret);
    assert((secret + sig).skip(16) =~= sig);
    assert(host.client_hash.take(32) =~= host.client_hash);
}

/// Before the first step a host has no key, and answers no later one.
pub proof fn steps_cannot_be_left_out(host: FakeHostView, value: Seq<char>)
    ensures
        host.aes_key is None ==> host.on_clientchallenge(value) is None
            && host.on_serverchallengeresp(value) is None,
        host.client_cert_pem is None ==> host.on_clientpairingsecret(value) is None,
{
}

// ---------------------------------------------------------------------------
// The simulated Apollo
// ---------------------------------------------------------------------------

/// A request without the client's ID is refused. The first step is put aside until the
/// PIN is typed in; every other goes to the host.
pub proof fn first_steps_wait_for_the_pin(
    s: FakeApolloView,
    q: Seq<char>,
    https: bool,
    uuid: Seq<char>,
)
    ensures
        param_of(q, "uniqueid"@) is None ==> s.pair(q, https, uuid) == (
            s,
            FakePairView::Answer(xml_err_words(400, "Missing uniqueid parameter"@)),
        ),
        param_of(q, "uniqueid"@) is Some && param_of(q, "phrase"@) == Some("getservercert"@)
            ==> s.pair(q, https, uuid) == (
            FakeApolloView { parked: Some(q), ..s },
            FakePairView::Park,
        ),
        param_of(q, "uniqueid"@) is Some && param_of(q, "phrase"@) != Some("getservercert"@)
            ==> match s.host.respond(StepView { args: q, https }) {
            Some(answer) => {
                let (after, r) = s.pair(q, https, uuid);
                &&& r == FakePairView::Answer(answer.1.xml())
                &&& after.host == answer.0
                &&& after.parked == s.parked
            },
            None => s.pair(q, https, uuid) == (s, FakePairView::Unexpected),
        },
{
}

/// A client is listed once its secret was taken, under the name that was typed in with
/// the PIN and with no more than the permission to look; otherwise the list stays.
pub proof fn clients_are_listed_once_they_are_paired(
    s: FakeApolloView,
    q: Seq<char>,
    https: bool,
    uuid: Seq<char>,
)
    requires
        param_of(q, "uniqueid"@) is Some,
        param_of(q, "phrase"@) != Some("getservercert"@),
        s.host.respond(StepView { args: q, https }) is Some,
    ensures
        ({
            let body = (s.host.respond(StepView { args: q, https })->0).1.xml();
            let listed = param_of(q, "clientpairingsecret"@) is Some && has_part(
                body,
                "<paired>1</paired>"@,
            );
            let after = s.pair(q, https, uuid).0;
            &&& !listed ==> after.clients == s.clients && after.pending_name == s.pending_name
            &&& listed ==> {
                &&& after.pending_name is None
                &&& after.clients.len() == s.clients.len() + 1
                &&& after.clients.drop_last() == s.clients
                &&& after.clients.last().uuid == uuid
                &&& after.clients.last().perm == JsonValueView::Number(0x0300_0000)
                &&& s.pending_name is Some ==> after.clients.last().name == JsonValueView::Text(
                    s.pending_name->0,
                )
                &&& s.pending_name is None ==> after.clients.last().name == JsonValueView::Text(
                    "Unnamed"@,
                )
                &&& after.clients.last().display_mode == JsonValueView::Text(Seq::empty())
                &&& after.clients.last().enable_legacy_ordering == JsonValueView::Flag(true)
                &&& after.clients.last().allow_client_commands == JsonValueView::Flag(true)
                &&& after.clients.last().always_use_virtual_display == JsonValueView::Flag(false)
            }
        }),
{
    let new = new_client_of(
        match s.pending_name {
            Some(n) => n,
            None => "Unnamed"@,
        },
        uuid,
    );
    assert(s.clients.push(new).drop_last() =~= s.clients);
}

/// The PIN that is typed in is the host's from then on, the name is kept for the client,
/// and the step that waited is answered with it.
pub proof fn the_pin_answers_the_waiting_step(
    s: FakeApolloView,
    q: Seq<char>,
    pin: Seq<char>,
    name: Seq<char>,
)
    ensures
        ({
            let host = FakeHostView { pin, ..s.host };
            let (after, r) = s.resumed(q, pin, name);
            &&& after.pending_name == Some(name)
            &&& after.clients == s.clients && after.parked == s.parked
            &&& match host.respond(StepView { args: q, https: false }) {
                Some(answer) => after.host == answer.0 && r == FakePairView::Answer(answer.1.xml()),
                None => after.host == host && r == FakePairView::Unexpected,
            }
        }),
{
}

/// An update changes what it gives and keeps what it does not; a client is found by its
/// ID.
pub proof fn updates_change_what_they_give(c: FakeClientView, u: ClientUpdate)
    ensures
        changed(c, u).uuid == c.uuid,
        u.name is None ==> changed(c, u).name == c.name,
        u.name is Some ==> changed(c, u).name == u.name->0@,
        u.perm is None ==> changed(c, u).perm == c.perm,
        u.perm is Some ==> changed(c, u).perm == u.perm->0@,
        u.display_mode is None ==> changed(c, u).display_mode == c.display_mode,
        u.display_mode is Some ==> changed(c, u).display_mode == u.display_mode->0@,
        u.enable_legacy_ordering is None ==> changed(c, u).enable_legacy_ordering
            == c.enable_legacy_ordering,
        u.enable_legacy_ordering is Some ==> changed(c, u).enable_legacy_ordering
            == u.enable_legacy_ordering->0@,
        u.allow_client_commands is None ==> changed(c, u).allow_client_commands
            == c.allow_client_commands,
        u.allow_client_commands is Some ==> changed(c, u).allow_client_commands
            == u.allow_client_commands->0@,
        u.always_use_virtual_display is None ==> changed(c, u).always_use_virtual_display
            == c.always_use_virtual_display,
        u.always_use_virtual_display is Some ==> changed(c, u).always_use_virtual_display
            == u.always_use_virtual_display->0@,
{
}

/// Of the clients of an ID the first is meant.
pub proof fn clients_are_found_by_their_id(clients: Seq<FakeClientView>, uuid: Seq<char>, from: int)
    requires
        0 <= from,
    ensures
        match client_index(clients, uuid, from) {
            Some(i) => {
                &&& from <= i < clients.len()
                &&& clients[i].uuid == uuid
                &&& forall|j: int| from <= j < i ==> (#[trigger] clients[j]).uuid != uuid
            },
            None => forall|j: int| from <= j < clients.len() ==> (#[trigger] clients[j]).uuid
                != uuid,
        },
    decreases clients.len() - from,
{
    if from < clients.len() && clients[from].uuid != uuid {
        clients_are_found_by_their_id(clients, uuid, from + 1);
    }
}

/// The description of the host says whether it is paired, and at which ports it is:
/// HTTPS five below the other.
pub proof fn hosts_describe_themselves(name: Seq<char>, uuid: Seq<char>, port: u16)
    requires
        port >= 5,
    ensures
        has_part(serverinfo_words(name, uuid, port, true), "<PairStatus>1</PairStatus>"@),
        has_part(serverinfo_words(name, uuid, port, false), "<PairStatus>0</PairStatus>"@),
        forall|paired: bool| {
            let words = #[trigger] serverinfo_words(name, uuid, port, paired);
            &&& has_part(words, "<hostname>"@ + name + "</hostname>"@)
            &&& has_part(words, "<uniqueid>"@ + uuid + "</uniqueid>"@)
            &&& has_part(words, "<HttpsPort>"@ + decimal((port - 5) as nat) + "</HttpsPort>"@)
            &&& has_part(words, "<ExternalPort>"@ + decimal(port as nat) + "</ExternalPort>"@)
        },
{
    lemma_pair_status(name, uuid, port, true);
    lemma_pair_status(name, uuid, port, false);
    lemma_names_and_ports(name, uuid, port, true);
    lemma_names_and_ports(name, uuid, port, false);
    assert forall|paired: bool| {
        let words = #[trigger] serverinfo_words(name, uuid, port, paired);
        &&& has_part(words, "<hostname>"@ + name + "</hostname>"@)
        &&& has_part(words, "<uniqueid>"@ + uuid + "</uniqueid>"@)
        &&& has_part(words, "<HttpsPort>"@ + decimal((port - 5) as nat) + "</HttpsPort>"@)
        &&& has_part(words, "<ExternalPort>"@ + decimal(port as nat) + "</ExternalPort>"@)
    } by {
        lemma_names_and_ports(name, uuid, port, paired);
    }
}

/// What stands between two tags stands there with them.
proof fn lemma_between(
    front: Seq<char>,
    open: Seq<char>,
    value: Seq<char>,
    close: Seq<char>,
    back: Seq<char>,
    start: Seq<char>,
    end: Seq<char>,
)
    requires
        has_suffix(open, start),
        has_prefix(close, end),
    ensures
        has_part(front + open + value + close + back, start + value + end),
{
    let a = open.take(open.len() - start.len());
    let b = close.skip(end.len() as int);
    assert(open =~= a + start);
    assert(close =~= end + b);
    let part = start + value + end;
    parts_are_found(front + a, part, b + back, part);
    assert(front + open + value + close + back =~= (front + a) + part + (b + back));
}

/// The tags around the fields of a description.
proof fn lemma_tags()
    ensures
        has_suffix("<?xml version=\"1.0\"?><root status_code=\"200\"><hostname>"@, "<hostname>"@),
        has_prefix("</hostname><appversion>7.1.431.-1</appversion><GfeVersion>3.23.0.74</GfeVersion><uniqueid>"@, "</hostname>"@),
        has_suffix("</hostname><appversion>7.1.431.-1</appversion><GfeVersion>3.23.0.74</GfeVersion><uniqueid>"@, "<uniqueid>"@),
        has_prefix("</uniqueid><HttpsPort>"@, "</uniqueid>"@),
        has_suffix("</uniqueid><HttpsPort>"@, "<HttpsPort>"@),
        has_prefix("</HttpsPort><ExternalPort>"@, "</HttpsPort>"@),
        has_suffix("</HttpsPort><ExternalPort>"@, "<ExternalPort>"@),
        has_prefix("</ExternalPort><mac>00:00:00:00:00:00</mac><LocalIP>127.0.0.1</LocalIP><ServerCodecModeSupport>259</ServerCodecModeSupport><PairStatus>"@, "</ExternalPort>"@),
        has_suffix("</ExternalPort><mac>00:00:00:00:00:00</mac><LocalIP>127.0.0.1</LocalIP><ServerCodecModeSupport>259</ServerCodecModeSupport><PairStatus>"@, "<PairStatus>"@),
        has_prefix("</PairStatus><currentgame>0</currentgame><state>SUNSHINE_SERVER_FREE</state></root>"@, "</PairStatus>"@),
{
    lemma_open_0();
    lemma_close_0();
    lemma_open_1();
    lemma_close_1();
    lemma_open_2();
    lemma_close_2();
    lemma_open_3();
    lemma_close_3();
    lemma_open_4();
    lemma_close_4();
}

proof fn lemma_open_0()
    ensures
        has_suffix("<?xml version=\"1.0\"?><root status_code=\"200\"><hostname>"@, "<hostname>"@),
{
    reveal_strlit("<?xml version=\"1.0\"?><root status_code=\"200\"><hostname>");
    reveal_strlit("<hostname>");
    let l = "<?xml version=\"1.0\"?><root status_code=\"200\"><hostname>"@;
    assert(l.skip(l.len() - "<hostname>"@.len()) =~= "<hostname>"@);
}

proof fn lemma_close_0()
    ensures
        has_prefix("</hostname><appversion>7.1.431.-1</appversion><GfeVersion>3.23.0.74</GfeVersion><uniqueid>"@, "</hostname>"@),
{
    reveal_strlit("</hostname><appversion>7.1.431.-1</appversion><GfeVersion>3.23.0.74</GfeVersion><uniqueid>");
    reveal_strlit("</hostname>");
    let l = "</hostname><appversion>7.1.431.-1</appversion><GfeVersion>3.23.0.74</GfeVersion><uniqueid>"@;
    assert(l.take("</hostname>"@.len() as int) =~= "</hostname>"@);
}

proof fn lemma_open_1()
    ensures
        has_suffix("</hostname><appversion>7.1.431.-1</appversion><GfeVersion>3.23.0.74</GfeVersion><uniqueid>"@, "<uniqueid>"@),
{
    reveal_strlit("</hostname><appversion>7.1.431.-1</appversion><GfeVersion>3.23.0.74</GfeVersion><uniqueid>");
    reveal_strlit("<uniqueid>");
    let l = "</hostname><appversion>7.1.431.-1</appversion><GfeVersion>3.23.0.74</GfeVersion><uniqueid>"@;
    assert(l.skip(l.len() - "<uniqueid>"@.len()) =~= "<uniqueid>"@);
}

proof fn lemma_close_1()
    ensures
        has_prefix("</uniqueid><HttpsPort>"@, "</uniqueid>"@),
{
    reveal_strlit("</uniqueid><HttpsPort>");
    reveal_strlit("</uniqueid>");
    let l = "</uniqueid><HttpsPort>"@;
    assert(l.take("</uniqueid>"@.len() as int) =~= "</uniqueid>"@);
}

proof fn lemma_open_2()
    ensures
        has_suffix("</uniqueid><HttpsPort>"@, "<HttpsPort>"@),
{
    reveal_strlit("</uniqueid><HttpsPort>");
    reveal_strlit("<HttpsPort>");
    let l = "</uniqueid><HttpsPort>"@;
    assert(l.skip(l.len() - "<HttpsPort>"@.len()) =~= "<HttpsPort>"@);
}

proof fn lemma_close_2()
    ensures
        has_prefix("</HttpsPort><ExternalPort>"@, "</HttpsPort>"@),
{
    reveal_strlit("</HttpsPort><ExternalPort>");
    reveal_strlit("</HttpsPort>");
    let l = "</HttpsPort><ExternalPort>"@;
    assert(l.take("</HttpsPort>"@.len() as int) =~= "</HttpsPort>"@);
}

proof fn lemma_open_3()
    ensures
        has_suffix("</HttpsPort><ExternalPort>"@, "<ExternalPort>"@),
{
    reveal_strlit("</HttpsPort><ExternalPort>");
    reveal_strlit("<ExternalPort>");
    let l = "</HttpsPort><ExternalPort>"@;
    assert(l.skip(l.len() - "<ExternalPort>"@.len()) =~= "<ExternalPort>"@);
}

proof fn lemma_close_3()
    ensures
        has_prefix("</ExternalPort><mac>00:00:00:00:00:00</mac><LocalIP>127.0.0.1</LocalIP><ServerCodecModeSupport>259</ServerCodecModeSupport><PairStatus>"@, "</ExternalPort>"@),
{
    reveal_strlit("</ExternalPort><mac>00:00:00:00:00:00</mac><LocalIP>127.0.0.1</LocalIP><ServerCodecModeSupport>259</ServerCodecModeSupport><PairStatus>");
    reveal_strlit("</ExternalPort>");
    let l = "</ExternalPort><mac>00:00:00:00:00:00</mac><LocalIP>127.0.0.1</LocalIP><ServerCodecModeSupport>259</ServerCodecModeSupport><PairStatus>"@;
    assert(l.take("</ExternalPort>"@.len() as int) =~= "</ExternalPort>"@);
}

proof fn lemma_open_4()
    ensures
        has_suffix("</ExternalPort><mac>00:00:00:00:00:00</mac><LocalIP>127.0.0.1</LocalIP><ServerCodecModeSupport>259</ServerCodecModeSupport><PairStatus>"@, "<PairStatus>"@),
{
    reveal_strlit("</ExternalPort><mac>00:00:00:00:00:00</mac><LocalIP>127.0.0.1</LocalIP><ServerCodecModeSupport>259</ServerCodecModeSupport><PairStatus>");
    reveal_strlit("<PairStatus>");
    let l = "</ExternalPort><mac>00:00:00:00:00:00</mac><LocalIP>127.0.0.1</LocalIP><ServerCodecModeSupport>259</ServerCodecModeSupport><PairStatus>"@;
    assert(l.skip(l.len() - "<PairStatus>"@.len()) =~= "<PairStatus>"@);
}

proof fn lemma_close_4()
    ensures
        has_prefix("</PairStatus><currentgame>0</currentgame><state>SUNSHINE_SERVER_FREE</state></root>"@, "</PairStatus>"@),
{
    reveal_strlit("</PairStatus><currentgame>0</currentgame><state>SUNSHINE_SERVER_FREE</state></root>");
    reveal_strlit("</PairStatus>");
    let l = "</PairStatus><currentgame>0</currentgame><state>SUNSHINE_SERVER_FREE</state></root>"@;
    assert(l.take("</PairStatus>"@.len() as int) =~= "</PairStatus>"@);
}

proof fn lemma_pair_status(name: Seq<char>, uuid: Seq<char>, port: u16, paired: bool)
    requires
        port >= 5,
    ensures
        has_part(
            serverinfo_words(name, uuid, port, paired),
            if paired {
                "<PairStatus>1</PairStatus>"@
            } else {
                "<PairStatus>0</PairStatus>"@
            },
        ),
{
    let l0 = "<?xml version=\"1.0\"?><root status_code=\"200\"><hostname>"@;
    let l1 = "</hostname><appversion>7.1.431.-1</appversion><GfeVersion>3.23.0.74</GfeVersion><uniqueid>"@;
    let l2 = "</uniqueid><HttpsPort>"@;
    let l3 = "</HttpsPort><ExternalPort>"@;
    let l4 = "</ExternalPort><mac>00:00:00:00:00:00</mac><LocalIP>127.0.0.1</LocalIP><ServerCodecModeSupport>259</ServerCodecModeSupport><PairStatus>"@;
    let l5 = "</PairStatus><currentgame>0</currentgame><state>SUNSHINE_SERVER_FREE</state></root>"@;
    let https = decimal((port - 5) as nat);
    let http = decimal(port as nat);
    let flag = if paired {
        "1"@
    } else {
        "0"@
    };
    let none = Seq::<char>::empty();
    let words = serverinfo_words(name, uuid, port, paired);
    lemma_tags();
    let front = l0 + name + l1 + uuid + l2 + https + l3 + http;
    lemma_between(front, l4, flag, l5, none, "<PairStatus>"@, "</PairStatus>"@);
    assert(words =~= front + l4 + flag + l5 + none);
    reveal_strlit("<PairStatus>");
    reveal_strlit("</PairStatus>");
    reveal_strlit("1");
    reveal_strlit("0");
    reveal_strlit("<PairStatus>1</PairStatus>");
    reveal_strlit("<PairStatus>0</PairStatus>");
    if paired {
        assert("<PairStatus>"@ + "1"@ + "</PairStatus>"@ =~= "<PairStatus>1</PairStatus>"@);
    } else {
        assert("<PairStatus>"@ + "0"@ + "</PairStatus>"@ =~= "<PairStatus>0</PairStatus>"@);
    }
}

proof fn lemma_names_and_ports(name: Seq<char>, uuid: Seq<char>, port: u16, paired: bool)
    requires
        port >= 5,
    ensures
        ({
            let words = serverinfo_words(name, uuid, port, paired);
            &&& has_part(words, "<hostname>"@ + name + "</hostname>"@)
            &&& has_part(words, "<uniqueid>"@ + uuid + "</uniqueid>"@)
            &&& has_part(words, "<HttpsPort>"@ + decimal((port - 5) as nat) + "</HttpsPort>"@)
            &&& has_part(words, "<ExternalPort>"@ + decimal(port as nat) + "</ExternalPort>"@)
        }),
{
    let l0 = "<?xml version=\"1.0\"?><root status_code=\"200\"><hostname>"@;
    let l1 = "</hostname><appversion>7.1.431.-1</appversion><GfeVersion>3.23.0.74</GfeVersion><uniqueid>"@;
    let l2 = "</uniqueid><HttpsPort>"@;
    let l3 = "</HttpsPort><ExternalPort>"@;
    let l4 = "</ExternalPort><mac>00:00:00:00:00:00</mac><LocalIP>127.0.0.1</LocalIP><ServerCodecModeSupport>259</ServerCodecModeSupport><PairStatus>"@;
    let l5 = "</PairStatus><currentgame>0</currentgame><state>SUNSHINE_SERVER_FREE</state></root>"@;
    let https = decimal((port - 5) as nat);
    let http = decimal(port as nat);
    let flag = if paired {
        "1"@
    } else {
        "0"@
    };
    let none = Seq::<char>::empty();
    let words = serverinfo_words(name, uuid, port, paired);
    lemma_tags();
    let b3 = l4 + flag + l5;
    let b2 = l3 + http + b3;
    let b1 = l2 + https + b2;
    lemma_between(none, l0, name, l1, uuid + b1, "<hostname>"@, "</hostname>"@);
    assert(words =~= none + l0 + name + l1 + (uuid + b1));
    lemma_between(l0 + name, l1, uuid, l2, https + b2, "<uniqueid>"@, "</uniqueid>"@);
    assert(words =~= (l0 + name) + l1 + uuid + l2 + (https + b2));
    let f2 = l0 + name + l1 + uuid;
    lemma_between(f2, l2, https, l3, http + b3, "<HttpsPort>"@, "</HttpsPort>"@);
    assert(words =~= f2 + l2 + https + l3 + (http + b3));
    let f3 = f2 + l2 + https;
    lemma_between(f3, l3, http, l4, flag + l5, "<ExternalPort>"@, "</ExternalPort>"@);
    assert(words =~= f3 + l3 + http + l4 + (flag + l5));
}

/// An error is told with its number and its words, in the notation of a response.
pub proof fn errors_are_responses_with_a_status(code: u16, msg: Seq<char>)
    ensures
        xml_err_words(code, msg) == "<root status_code=\""@ + decimal(code as nat)
            + "\" status_message=\""@ + msg + "\"/>"@,
        digits_value(decimal(code as nat)) == code,
{
    crate::text_laws::decimal_notation_denotes_the_number(code as nat, code as nat);
}

// ---------------------------------------------------------------------------
// Hexadecimal notation
// ---------------------------------------------------------------------------

/// Bytes are written in two digits each, one after the other; the first shows the
/// upper half of the byte. Both notations read back as the bytes.
pub proof fn bytes_are_written_in_two_digits(a: Seq<u8>, b: Seq<u8>, x: u8)
    ensures
        hex_of(a + b) == hex_of(a) + hex_of(b),
        hex_upper_of(a + b) == hex_upper_of(a) + hex_upper_of(b),
        hex_of(seq![x]) == seq![
            crate::foreign::hex_digit(x as int / 16),
            crate::foreign::hex_digit(x as int % 16),
        ],
        hex_decoded(utf8(hex_of(a))) == Ok::<Seq<u8>, HexError>(a),
{
    hex_round_trip(a);
    let ab = a + b;
    assert forall|i: int| 0 <= i < 2 * ab.len() implies #[trigger] nibble(ab, i) == (if i < 2
        * a.len() {
        nibble(a, i)
    } else {
        nibble(b, i - 2 * a.len())
    }) by {
        if i < 2 * a.len() {
            assert(ab[i / 2] == a[i / 2]);
        } else {
            assert((i - 2 * a.len()) / 2 == i / 2 - a.len());
            assert((i - 2 * a.len()) % 2 == i % 2);
            assert(ab[i / 2] == b[i / 2 - a.len()]);
        }
    }
    assert(hex_of(ab) =~= hex_of(a) + hex_of(b));
    assert(hex_upper_of(ab) =~= hex_upper_of(a) + hex_upper_of(b));
    assert(hex_of(seq![x]) =~= seq![
        crate::foreign::hex_digit(x as int / 16),
        crate::foreign::hex_digit(x as int % 16),
    ]);
}

/// The upper case notation has the same digits, with capital letters.
pub proof fn upper_case_has_capital_letters(b: Seq<u8>, i: int)
    requires
        0 <= i < 2 * b.len(),
    ensures
        hex_upper_of(b).len() == hex_of(b).len(),
        ({
            let lower = hex_of(b)[i] as u32;
            let upper = hex_upper_of(b)[i] as u32;
            if lower <= 57 {
                48 <= lower && upper == lower
            } else {
                97 <= lower <= 102 && upper == lower - 32
            }
        }),
{
    assert(0 <= nibble(b, i) < 16);
    lemma_cases(nibble(b, i));
}

proof fn lemma_cases(d: int)
    requires
        0 <= d < 16,
    ensures
        ({
            let lower = crate::foreign::hex_digit(d) as u32;
            let upper = crate::foreign::hex_digit_upper(d) as u32;
            if lower <= 57 {
                48 <= lower && upper == lower
            } else {
                97 <= lower <= 102 && upper == lower - 32
            }
        }),
{
}

// ---------------------------------------------------------------------------
// What goes wrong
// ---------------------------------------------------------------------------

/// Every error is told by its kind and its own words.
pub proof fn errors_are_told(w: Seq<char>, code: i32, version: u32)
    ensures
        ErrorView::Http(w).words() == "http: "@ + w,
        ErrorView::Xml(w).words() == "xml: "@ + w,
        ErrorView::Crypto(w).words() == "crypto: "@ + w,
        ErrorView::Identity(w).words() == "identity: "@ + w,
        ErrorView::Io(w).words() == "io: "@ + w,
        ErrorView::Tls(w).words() == "tls: "@ + w,
        ErrorView::Missing(w).words() == "missing field "@ + w + " in response"@,
        code >= 0 ==> (ErrorView::Status { code, message: w }).words() == "server returned status "@
            + decimal(code as nat) + ": "@ + w,
        code < 0 ==> (ErrorView::Status { code, message: w }).words() == "server returned status -"@
            + decimal((-code) as nat) + ": "@ + w,
        ErrorView::Pair(PairErrorView::Malformed(w)).words() == "pairing: malformed response: "@ + w,
        ErrorView::Pair(PairErrorView::WrongPin).words() == "pairing: wrong PIN"@,
        PairErrorView::OldServer(version).words() == "host reports server version "@ + decimal(
            version as nat,
        ) + " < 7; only SHA-256 pairing is supported"@,
{
    reveal_strlit("-");
    reveal_strlit("server returned status ");
    reveal_strlit("server returned status -");
    reveal_strlit("pairing: ");
    reveal_strlit("malformed response: ");
    reveal_strlit("pairing: malformed response: ");
    reveal_strlit("wrong PIN");
    reveal_strlit("pairing: wrong PIN");
    assert("server returned status "@ + "-"@ =~= "server returned status -"@);
    if code >= 0 {
        assert("server returned status "@ + decimal(code as nat) + (": "@ + w)
            =~= "server returned status "@ + decimal(code as nat) + ": "@ + w);
    } else {
        let n = decimal((-code) as nat);
        assert("server returned status "@ + ("-"@ + n) + (": "@ + w)
            =~= "server returned status -"@ + n + ": "@ + w);
    }
    assert("pairing: "@ + ("malformed response: "@ + w) =~= "pairing: malformed response: "@ + w);
    assert("pairing: "@ + "wrong PIN"@ =~= "pairing: wrong PIN"@);
}

/// A host that is told apart by its refusal: each has words of its own.
pub proof fn refusals_are_told_apart()
    ensures
        PairErrorView::NotPaired.words() == "host did not return paired=1"@,
        PairErrorView::AlreadyInProgress.words()
            == "another pairing is already in progress on the host"@,
        PairErrorView::BadServerSignature.words() == "server signature invalid (possible MITM)"@,
{
}

/// The simulated host lists the desktop, a game library, and how many clients are
/// paired with it.
pub proof fn paired_clients_are_counted(clients: nat)
    ensures
        applist_words(clients) == "<root status_code=\"200\"><App><IsHdrSupported>1</IsHdrSupported><AppTitle>Desktop</AppTitle><UUID>desk</UUID><IDX>0</IDX><ID>1</ID></App><App><IsHdrSupported>0</IsHdrSupported><AppTitle>Steam Big Picture</AppTitle><UUID>steam</UUID><IDX>1</IDX><ID>2</ID></App><App><IsHdrSupported>0</IsHdrSupported><AppTitle>Paired clients: "@
            + decimal(clients) + "</AppTitle><ID>3</ID></App></root>"@,
{
}

} // verus!
