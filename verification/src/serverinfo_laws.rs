//! What a host's description says of the response that it was read from.

use vstd::prelude::*;
use crate::error::ErrorView;
use crate::serverinfo::{info_of, major_of, serverinfo_of, ServerInfoView};
use crate::text::{decimal, trimmed};
use crate::text_laws::{cut_at_the_first, numbers_are_read_from_decimal};
use crate::xml::{root_of, RootView};

verus! {

/// The trimmed text of an element of the response; empty where there is none.
pub open spec fn shown(root: RootView, name: Seq<char>) -> Seq<char> {
    match root.child(name) {
        Some(t) => trimmed(t),
        None => Seq::empty(),
    }
}

/// The texts of a description are those of the elements of these names.
pub proof fn texts_are_those_of_the_response(root: RootView)
    ensures
        info_of(root).hostname == shown(root, "hostname"@),
        info_of(root).uuid == shown(root, "uniqueid"@),
        info_of(root).app_version == shown(root, "appversion"@),
        info_of(root).gfe_version == shown(root, "GfeVersion"@),
        info_of(root).state == shown(root, "state"@),
        info_of(root).external_ip == (if shown(root, "ExternalIP"@).len() == 0 {
            None
        } else {
            Some(shown(root, "ExternalIP"@))
        }),
{
    if root.child("hostname"@) is Some {
        assert(shown(root, "hostname"@).len() == 0 ==> shown(root, "hostname"@) =~= Seq::empty());
    }
    assert(shown(root, "uniqueid"@).len() == 0 ==> shown(root, "uniqueid"@) =~= Seq::empty());
    assert(shown(root, "appversion"@).len() == 0 ==> shown(root, "appversion"@) =~= Seq::empty());
    assert(shown(root, "GfeVersion"@).len() == 0 ==> shown(root, "GfeVersion"@) =~= Seq::empty());
    assert(shown(root, "state"@).len() == 0 ==> shown(root, "state"@) =~= Seq::empty());
}

/// A local address is kept unless it is one of the host to itself, and a hardware
/// address unless it is all zeros.
pub proof fn addresses_are_kept_where_they_are_of_use(root: RootView)
    ensures
        ({
            let ip = shown(root, "LocalIP"@);
            let mac = shown(root, "mac"@);
            let loopback = ip.len() >= 4 && ip[0] == '1' && ip[1] == '2' && ip[2] == '7' && ip[3]
                == '.';
            &&& info_of(root).local_ip is None <==> ip.len() == 0 || loopback
            &&& info_of(root).local_ip is Some ==> info_of(root).local_ip == Some(ip)
            &&& info_of(root).mac is None <==> mac.len() == 0 || mac == "00:00:00:00:00:00"@
            &&& info_of(root).mac is Some ==> info_of(root).mac == Some(mac)
        }),
{
    reveal_strlit("127.");
    let ip = shown(root, "LocalIP"@);
    if ip.len() >= 4 {
        assert(ip.take(4) =~= seq![ip[0], ip[1], ip[2], ip[3]]);
        assert("127."@ =~= seq!['1', '2', '7', '.']);
        if ip.take(4) == "127."@ {
            assert(ip.take(4)[0] == '1' && ip.take(4)[1] == '2' && ip.take(4)[2] == '7'
                && ip.take(4)[3] == '.');
        }
    }
}

/// A host counts as paired with us exactly where it says 1.
pub proof fn pair_status_is_one(root: RootView)
    ensures
        info_of(root).paired <==> shown(root, "PairStatus"@) == "1"@,
        info_of(root).virtual_display_capable is None <==> shown(
            root,
            "VirtualDisplayCapable"@,
        ).len() == 0,
        info_of(root).virtual_display_capable == Some(true) <==> shown(
            root,
            "VirtualDisplayCapable"@,
        ) == "1"@,
{
    reveal_strlit("1");
    let s = shown(root, "PairStatus"@);
    if s =~= "1"@ {
        assert(s == "1"@);
        assert(crate::serverinfo::field(root, "PairStatus"@) == Some("1"@));
    }
}

/// The numbers of a description are those that the elements of these names show; a
/// port that is not shown is the usual one or none, and other numbers are then 0 or
/// none.
pub proof fn numbers_are_those_of_the_response(root: RootView, n: nat)
    ensures
        n < 0x10000 && shown(root, "HttpsPort"@) == decimal(n) ==> info_of(root).https_port == n,
        shown(root, "HttpsPort"@).len() == 0 ==> info_of(root).https_port == 47984,
        n < 0x10000 && shown(root, "ExternalPort"@) == decimal(n) ==> info_of(root).external_port
            == Some(n as u16),
        shown(root, "ExternalPort"@).len() == 0 ==> info_of(root).external_port is None,
        n <= 0xFFFF_FFFF && shown(root, "currentgame"@) == decimal(n) ==> info_of(
            root,
        ).current_game == n,
        shown(root, "currentgame"@).len() == 0 ==> info_of(root).current_game == 0,
        n <= 0xFFFF_FFFF && shown(root, "ServerCodecModeSupport"@) == decimal(n) ==> info_of(
            root,
        ).server_codec_mode_support == n,
        shown(root, "ServerCodecModeSupport"@).len() == 0 ==> info_of(
            root,
        ).server_codec_mode_support == 0,
        n <= 0xFFFF_FFFF && shown(root, "Permission"@) == decimal(n) ==> info_of(root).permission
            == Some(n as u32),
        shown(root, "Permission"@).len() == 0 ==> info_of(root).permission is None,
{
    numbers_are_read_from_decimal(n, Seq::empty(), 0);
    crate::text_laws::decimal_notation_denotes_the_number(n, n);
}

/// The major version is the number before the first point of the version, and 0 where
/// there is none.
pub proof fn the_major_version_comes_first(version: Seq<char>, n: nat)
    ensures
        n <= 0xFFFF_FFFF ==> major_of(decimal(n)) == n,
        n <= 0xFFFF_FFFF ==> major_of(decimal(n) + "."@ + version) == n,
        major_of(Seq::empty()) == 0,
{
    reveal_strlit(".");
    numbers_are_read_from_decimal(n, Seq::empty(), 0);
    crate::text_laws::decimal_notation_denotes_the_number(n, n);
    let d = decimal(n);
    assert(!d.contains('.')) by {
        if d.contains('.') {
            let i = choose|i: int| 0 <= i < d.len() && d[i] == '.';
            assert(crate::text::is_digit(d[i]));
        }
    }
    cut_at_the_first(d, '.');
    let s = d + "."@ + version;
    cut_at_the_first(s, '.');
    let b = crate::text::before_first(s, '.');
    let a = crate::text::before_first(d, '.');
    if a.len() < d.len() {
        assert(d.contains(d[a.len() as int]));
    }
    assert(a =~= d);
    assert(s[d.len() as int] == '.');
    if b.len() > d.len() {
        assert(b[d.len() as int] == s.take(b.len() as int)[d.len() as int]);
        assert(b.contains(b[d.len() as int]));
    }
    if b.len() < d.len() {
        assert(s[b.len() as int] == d[b.len() as int]);
        assert(d.contains(d[b.len() as int]));
    }
    assert(b =~= d);
    cut_at_the_first(Seq::empty(), '.');
    assert(crate::text::before_first(Seq::empty(), '.') =~= Seq::<char>::empty());
}

/// A description is read from a response that is taken, and a refused response gives
/// its error.
pub proof fn descriptions_come_from_responses(body: Seq<char>)
    ensures
        serverinfo_of(body) is Ok <==> root_of(body) is Ok,
        root_of(body) is Err ==> serverinfo_of(body) == Err::<ServerInfoView, ErrorView>(
            root_of(body)->Err_0,
        ),
        root_of(body) is Ok ==> (serverinfo_of(body)->Ok_0).hostname == shown(
            root_of(body)->Ok_0,
            "hostname"@,
        ),
{
    if root_of(body) is Ok {
        texts_are_those_of_the_response(root_of(body)->Ok_0);
    }
}

} // verus!
