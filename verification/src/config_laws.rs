//! What the settings, and the programs that they name, come to.

use vstd::prelude::*;
use crate::apollo::{auth_cookie_of, call_with, login_of, CallActionView, LoginError};
use crate::client_config::{
    comes_before, device_name_of, joined_path, unknown_host, ClientConfigView, RememberedHostView,
};
use crate::foreign::hex_digit;
use crate::host_config::{
    default_config, hex_char_value, hex_number, hex_u32, is_salt, mask_of, without_0x,
};
use crate::moonlight::{candidates_of, search_paths, titles, titles_from, CandidateView, Platform};
use crate::perm::{
    ALL_ACTIONS, ALL_INPUTS, CLIPBOARD_READ, CLIPBOARD_SET, FILE_DOWNLOAD, FILE_UPLOAD, LAUNCH,
    LIST, SERVER_CMD, VIEW,
};
use crate::text::{before_first, has_prefix, trimmed};

verus! {

// ---------------------------------------------------------------------------
// The host's settings
// ---------------------------------------------------------------------------

/// A new host has no ID and no password yet, advertises its addresses, finds Apollo on
/// its own machine at the usual ports, and keeps what it was given.
pub proof fn new_hosts_have_neither_id_nor_password(
    url: Seq<char>,
    user: Seq<char>,
    password: Seq<char>,
    host_name: Option<Seq<char>>,
    token: Seq<char>,
    salt: Seq<char>,
)
    ensures
        ({
            let cfg = default_config(url, user, password, host_name, token, salt);
            &&& cfg.id is None && cfg.password_h1 is None
            &&& cfg.token == token && cfg.password_salt == salt
            &&& cfg.rendezvous_url == url
            &&& cfg.apollo_username == user && cfg.apollo_password == password
            &&& cfg.apollo_url == "https://127.0.0.1:47990"@
            &&& cfg.gamestream_port == 47989
            &&& cfg.extra_endpoints.len() == 0
            &&& cfg.advertise_lan_ips && cfg.advertise_public_ip
            &&& host_name is Some ==> cfg.name == host_name->0
            &&& host_name is None ==> cfg.name == "Apollo Host"@
            &&& mask_of("control"@) == Some(cfg.client_permissions)
        }),
{
}

/// A salt is sixteen letters and digits of ASCII.
pub proof fn salts_are_sixteen_letters_and_digits(s: Seq<char>, i: int)
    requires
        is_salt(s),
        0 <= i < s.len(),
    ensures
        s.len() == 16,
        ({
            let u = s[i] as u32;
            48 <= u <= 57 || 65 <= u <= 90 || 97 <= u <= 122
        }),
{
    crate::proto_laws::letters_and_digits_are_ascii(s[i]);
}

/// "control" stands for every input, every action and the clipboard, but for neither
/// files nor commands of the server; "view" for listing and viewing alone; "all" for
/// every permission.
pub proof fn names_of_masks()
    ensures
        mask_of("control"@) == Some(
            (ALL_INPUTS + ALL_ACTIONS + CLIPBOARD_SET + CLIPBOARD_READ) as u32,
        ),
        mask_of("view"@) == Some((LIST + VIEW) as u32),
        mask_of("all"@) == Some(
            (ALL_INPUTS + ALL_ACTIONS + CLIPBOARD_SET + CLIPBOARD_READ + FILE_UPLOAD
                + FILE_DOWNLOAD + SERVER_CMD) as u32,
        ),
        ALL_ACTIONS == LIST + VIEW + LAUNCH,
{
    reveal_strlit("control");
    reveal_strlit("view");
    reveal_strlit("all");
    assert("control"@.len() != "view"@.len() && "control"@.len() != "all"@.len() && "view"@.len()
        != "all"@.len());
    assert(0x0700_0000u32 | 0x0000_1F00u32 | 0x0001_0000u32 | 0x0002_0000u32 == 0x0703_1F00u32)
        by (bit_vector);
    assert(0x0100_0000u32 | 0x0200_0000u32 == 0x0300_0000u32) by (bit_vector);
}

/// A hexadecimal digit of either case is worth what it stands for, and no other
/// character is worth anything.
pub proof fn hexadecimal_digits_have_their_worth(c: char)
    ensures
        hex_char_value(c) == ({
            let u = c as u32 as int;
            if 48 <= u <= 57 {
                Some(u - 48)
            } else if 65 <= u <= 70 {
                Some(u - 55)
            } else if 97 <= u <= 102 {
                Some(u - 87)
            } else {
                None
            }
        }),
        forall|d: int| 0 <= d < 16 ==> hex_char_value(#[trigger] hex_digit(d)) == Some(d),
{
}

/// A number in hexadecimal counts in sixteens, and any other character spoils it.
pub proof fn hexadecimal_counts_in_sixteens(s: Seq<char>, d: int, c: char)
    requires
        0 <= d < 16,
    ensures
        hex_number(s) is Some ==> hex_number(s.push(hex_digit(d))) == Some(16 * hex_number(s)->0 + d),
        hex_number(s) is None ==> hex_number(s.push(c)) is None,
        hex_char_value(c) is None ==> hex_number(s.push(c)) is None,
        hex_number(Seq::<char>::empty()) == Some(0int),
{
    assert(s.push(hex_digit(d)).drop_last() =~= s);
    assert(s.push(c).drop_last() =~= s);
    hexadecimal_digits_have_their_worth(hex_digit(d));
}

/// A mask in hexadecimal may have `0x` in front of it, once or more often, and a sign.
/// It must have a digit, and fit into 32 bits.
pub proof fn masks_are_read_from_hexadecimal(s: Seq<char>)
    requires
        s.len() > 0,
        hex_number(s) is Some,
    ensures
        hex_u32(s) == (if hex_number(s)->0 <= 0xffff_ffff {
            Some(hex_number(s)->0 as u32)
        } else {
            None
        }),
        hex_u32("+"@ + s) == hex_u32(s),
        without_0x("0x"@ + s) == without_0x(s),
        without_0x(s) == s,
        mask_of("0x"@ + s) == hex_u32(s),
        hex_u32(Seq::<char>::empty()) is None,
        s != "all"@ && s != "view"@ && s != "control"@ ==> mask_of(s) == hex_u32(s),
{
    reveal_strlit("+");
    reveal_strlit("0x");
    reveal_strlit("control");
    reveal_strlit("view");
    reveal_strlit("all");
    lemma_hex_number_at(s, 0);
    assert(("+"@ + s).skip(1) =~= s);
    assert(("0x"@ + s).skip(2) =~= s);
    if s.len() >= 2 {
        lemma_hex_number_at(s, 1);
    }
    assert(("0x"@ + s)[0] == '0');
    assert("control"@[0] == 'c' && "view"@[0] == 'v' && "all"@[0] == 'a');
}

/// A `0x` in front is left out, and nothing else.
pub proof fn only_the_mark_is_left_out(s: Seq<char>)
    ensures
        without_0x("0x"@ + s) == without_0x(s),
        !has_prefix(s, "0x"@) ==> without_0x(s) == s,
{
    reveal_strlit("0x");
    assert(("0x"@ + s).skip(2) =~= s);
    if s.len() >= 2 && s[0] == '0' && s[1] == 'x' {
        assert(s.take(2) =~= "0x"@);
    }
}

/// Every character of a number is a digit.
proof fn lemma_hex_number_at(s: Seq<char>, i: int)
    requires
        hex_number(s) is Some,
        0 <= i < s.len(),
    ensures
        hex_char_value(s[i]) is Some,
        s[i] != '+' && s[i] != 'x',
    decreases s.len(),
{
    if i < s.len() - 1 {
        lemma_hex_number_at(s.drop_last(), i);
    } else {
        hexadecimal_digits_have_their_worth(s.last());
    }
}

// ---------------------------------------------------------------------------
// Apollo
// ---------------------------------------------------------------------------

/// The cookie of a session is the first that is named `auth`, without its attributes.
pub proof fn the_first_session_cookie_counts(
    value: Seq<char>,
    attributes: Seq<char>,
    other: Seq<char>,
    rest: Seq<Seq<char>>,
)
    requires
        forall|i: int| 0 <= i < value.len() ==> #[trigger] value[i] != ';',
    ensures
        auth_cookie_of(seq!["auth="@ + value] + rest) == Some("auth="@ + value),
        auth_cookie_of(seq!["auth="@ + value + ";"@ + attributes] + rest) == Some("auth="@ + value),
        !has_prefix(before_first(other, ';'), "auth="@) ==> auth_cookie_of(seq![other] + rest)
            == auth_cookie_of(rest),
        auth_cookie_of(Seq::<Seq<char>>::empty()) is None,
{
    reveal_strlit("auth=");
    reveal_strlit(";");
    let cookie = "auth="@ + value;
    assert forall|i: int| 0 <= i < cookie.len() implies #[trigger] cookie[i] != ';' by {
        if i >= 5 {
            assert(cookie[i] == value[i - 5]);
        }
    }
    lemma_until_plain(cookie);
    lemma_until(cookie, attributes);
    assert(cookie.take(5) =~= "auth="@);
    assert((seq![cookie] + rest)[0] == cookie);
    let long = cookie + ";"@ + attributes;
    assert((seq![long] + rest)[0] == long);
    assert(long =~= cookie + seq![';'] + attributes);
    assert((seq![other] + rest)[0] == other);
    assert((seq![other] + rest).drop_first() =~= rest);
}

proof fn lemma_until_plain(p: Seq<char>)
    requires
        forall|i: int| 0 <= i < p.len() ==> #[trigger] p[i] != ';',
    ensures
        before_first(p, ';') == p,
    decreases p.len(),
{
    if p.len() > 0 {
        assert forall|i: int| 0 <= i < p.len() - 1 implies #[trigger] p.drop_first()[i] != ';' by {
            assert(p.drop_first()[i] == p[i + 1]);
        }
        lemma_until_plain(p.drop_first());
        assert(seq![p[0]] + p.drop_first() =~= p);
    }
}

proof fn lemma_until(p: Seq<char>, rest: Seq<char>)
    requires
        forall|i: int| 0 <= i < p.len() ==> #[trigger] p[i] != ';',
    ensures
        before_first(p + seq![';'] + rest, ';') == p,
    decreases p.len(),
{
    let s = p + seq![';'] + rest;
    if p.len() > 0 {
        assert forall|i: int| 0 <= i < p.len() - 1 implies #[trigger] p.drop_first()[i] != ';' by {
            assert(p.drop_first()[i] == p[i + 1]);
        }
        lemma_until(p.drop_first(), rest);
        assert(s[0] == p[0]);
        assert(s.drop_first() =~= p.drop_first() + seq![';'] + rest);
        assert(seq![p[0]] + p.drop_first() =~= p);
    } else {
        assert(s[0] == ';');
        assert(before_first(s, ';') =~= p);
    }
}

/// Apollo turns wrong credentials down by 401; any other error of the client's or the
/// server's is reported by its number; an answer without an error must bring a cookie.
pub proof fn logins_bring_a_cookie(status: u16, headers: Seq<Seq<char>>)
    ensures
        login_of(status, headers) == Err::<Seq<char>, LoginError>(LoginError::Rejected) <==> status
            == 401,
        400 <= status <= 599 && status != 401 ==> login_of(status, headers) == Err::<
            Seq<char>,
            LoginError,
        >(LoginError::Status(status)),
        status < 400 || status > 599 ==> match auth_cookie_of(headers) {
            Some(cookie) => login_of(status, headers) == Ok::<Seq<char>, LoginError>(cookie),
            None => login_of(status, headers) == Err::<Seq<char>, LoginError>(LoginError::NoCookie),
        },
{
}

/// A call goes out with the cookie, and waits for a login only where there is none.
pub proof fn calls_use_the_cookie(cookie: Seq<char>)
    ensures
        call_with(Some(cookie)) == CallActionView::Send(cookie),
        call_with(None) == CallActionView::Login,
{
}

// ---------------------------------------------------------------------------
// Moonlight
// ---------------------------------------------------------------------------

/// The program that the settings name is tried first, then that of the environment,
/// then the usual places, then the directories of the search path in their order. What
/// is named need not be a plain file; what is searched for must be.
pub proof fn moonlight_is_looked_for_in_order(
    platform: Platform,
    configured: Seq<char>,
    env_bin: Seq<char>,
    env: Option<Seq<char>>,
    dirs: Seq<Seq<char>>,
    more: Seq<Seq<char>>,
    dir: Seq<char>,
    separator: char,
)
    ensures
        candidates_of(platform, Some(configured), env, dirs, separator) == seq![
            CandidateView { path: configured, plain_file: false },
        ] + candidates_of(platform, None, env, dirs, separator),
        candidates_of(platform, None, Some(env_bin), dirs, separator) == seq![
            CandidateView { path: env_bin, plain_file: false },
        ] + candidates_of(platform, None, None, dirs, separator),
        candidates_of(platform, None, None, dirs, separator) == candidates_of(
            platform,
            None,
            None,
            Seq::empty(),
            separator,
        ) + search_paths(dirs, separator),
        search_paths(dirs + more, separator) == search_paths(dirs, separator) + search_paths(
            more,
            separator,
        ),
        search_paths(seq![dir], separator) == seq![
            CandidateView { path: joined_path(dir, separator, "moonlight"@), plain_file: true },
            CandidateView { path: joined_path(dir, separator, "moonlight-qt"@), plain_file: true },
            CandidateView { path: joined_path(dir, separator, "Moonlight.exe"@), plain_file: true },
        ],
{
    let none = Seq::<CandidateView>::empty();
    assert(candidates_of(platform, Some(configured), env, dirs, separator) =~= seq![
        CandidateView { path: configured, plain_file: false },
    ] + candidates_of(platform, None, env, dirs, separator));
    assert(candidates_of(platform, None, Some(env_bin), dirs, separator) =~= seq![
        CandidateView { path: env_bin, plain_file: false },
    ] + candidates_of(platform, None, None, dirs, separator));
    assert(search_paths(Seq::empty(), separator) =~= none);
    assert(candidates_of(platform, None, None, dirs, separator) =~= candidates_of(
        platform,
        None,
        None,
        Seq::empty(),
        separator,
    ) + search_paths(dirs, separator));
    lemma_search_both(dirs, more, separator);
    assert(seq![dir].drop_last() =~= Seq::<Seq<char>>::empty());
    assert(search_paths(seq![dir].drop_last(), separator) =~= none);
    assert(search_paths(seq![dir], separator) =~= seq![
        CandidateView { path: joined_path(dir, separator, "moonlight"@), plain_file: true },
        CandidateView { path: joined_path(dir, separator, "moonlight-qt"@), plain_file: true },
        CandidateView { path: joined_path(dir, separator, "Moonlight.exe"@), plain_file: true },
    ]);
}

proof fn lemma_search_both(dirs: Seq<Seq<char>>, more: Seq<Seq<char>>, separator: char)
    ensures
        search_paths(dirs + more, separator) == search_paths(dirs, separator) + search_paths(
            more,
            separator,
        ),
    decreases more.len(),
{
    if more.len() == 0 {
        assert(dirs + more =~= dirs);
        assert(search_paths(dirs, separator) + search_paths(more, separator) =~= search_paths(
            dirs,
            separator,
        ));
    } else {
        lemma_search_both(dirs, more.drop_last(), separator);
        assert((dirs + more).drop_last() =~= dirs + more.drop_last());
        assert((dirs + more).last() == more.last());
        assert(search_paths(dirs + more, separator) =~= search_paths(dirs, separator)
            + search_paths(more, separator));
    }
}

/// Where each platform has Moonlight.
pub proof fn the_usual_places(platform: Platform, separator: char)
    ensures
        ({
            let places = candidates_of(platform, None, None, Seq::empty(), separator);
            let paths = Seq::new(places.len(), |i: int| places[i].path);
            &&& forall|i: int| 0 <= i < places.len() ==> !(#[trigger] places[i]).plain_file
            &&& platform is Macos ==> paths == seq![
                "/Applications/Moonlight.app/Contents/MacOS/Moonlight"@,
                "/opt/homebrew/bin/moonlight"@,
                "/usr/local/bin/moonlight"@,
            ]
            &&& platform is Windows ==> paths == seq![
                "C:\\Program Files\\Moonlight Game Streaming\\Moonlight.exe"@,
                "C:\\Program Files (x86)\\Moonlight Game Streaming\\Moonlight.exe"@,
            ]
            &&& platform is Linux || platform is Other ==> paths == seq![
                "/usr/bin/moonlight-qt"@,
                "/usr/bin/moonlight"@,
                "/usr/local/bin/moonlight"@,
                "/var/lib/flatpak/exports/bin/com.moonlight_stream.Moonlight"@,
            ]
        }),
{
    let places = candidates_of(platform, None, None, Seq::empty(), separator);
    let paths = Seq::new(places.len(), |i: int| places[i].path);
    if platform is Macos {
        assert(paths =~= seq![
            "/Applications/Moonlight.app/Contents/MacOS/Moonlight"@,
            "/opt/homebrew/bin/moonlight"@,
            "/usr/local/bin/moonlight"@,
        ]);
    } else if platform is Windows {
        assert(paths =~= seq![
            "C:\\Program Files\\Moonlight Game Streaming\\Moonlight.exe"@,
            "C:\\Program Files (x86)\\Moonlight Game Streaming\\Moonlight.exe"@,
        ]);
    } else {
        assert(paths =~= seq![
            "/usr/bin/moonlight-qt"@,
            "/usr/bin/moonlight"@,
            "/usr/local/bin/moonlight"@,
            "/var/lib/flatpak/exports/bin/com.moonlight_stream.Moonlight"@,
        ]);
    }
}

/// Every line of a list that is not blank is a title, without the blanks around it, in
/// the order of the lines.
pub proof fn each_line_is_a_title(line: Seq<char>, rest: Seq<char>)
    requires
        forall|i: int| 0 <= i < line.len() ==> #[trigger] line[i] != '\n',
    ensures
        titles(line) == (if trimmed(line).len() > 0 {
            seq![trimmed(line)]
        } else {
            Seq::empty()
        }),
        titles(line + "\n"@ + rest) == titles(line) + titles(rest),
{
    reveal_strlit("\n");
    lemma_line(Seq::empty(), line);
    lemma_lines(Seq::empty(), line, rest);
    assert(Seq::<char>::empty() + line =~= line);
    assert(line + "\n"@ + rest =~= line + seq!['\n'] + rest);
}

proof fn lemma_line(start: Seq<char>, line: Seq<char>)
    requires
        forall|i: int| 0 <= i < line.len() ==> #[trigger] line[i] != '\n',
    ensures
        titles_from(start, line) == titles_from(start + line, Seq::empty()),
    decreases line.len(),
{
    if line.len() == 0 {
        assert(start + line =~= start);
        assert(line =~= Seq::<char>::empty());
    } else {
        assert forall|i: int| 0 <= i < line.len() - 1 implies #[trigger] line.drop_first()[i]
            != '\n' by {
            assert(line.drop_first()[i] == line[i + 1]);
        }
        lemma_line(start.push(line[0]), line.drop_first());
        assert(start.push(line[0]) + line.drop_first() =~= start + line);
    }
}

proof fn lemma_lines(start: Seq<char>, line: Seq<char>, rest: Seq<char>)
    requires
        forall|i: int| 0 <= i < line.len() ==> #[trigger] line[i] != '\n',
    ensures
        titles_from(start, line + seq!['\n'] + rest) == titles_from(start + line, Seq::empty())
            + titles(rest),
    decreases line.len(),
{
    let all = line + seq!['\n'] + rest;
    if line.len() == 0 {
        assert(start + line =~= start);
        assert(all[0] == '\n');
        assert(all.drop_first() =~= rest);
    } else {
        assert forall|i: int| 0 <= i < line.len() - 1 implies #[trigger] line.drop_first()[i]
            != '\n' by {
            assert(line.drop_first()[i] == line[i + 1]);
        }
        lemma_lines(start.push(line[0]), line.drop_first(), rest);
        assert(start.push(line[0]) + line.drop_first() =~= start + line);
        assert(all[0] == line[0]);
        assert(all.drop_first() =~= line.drop_first() + seq!['\n'] + rest);
    }
}

// ---------------------------------------------------------------------------
// The client's settings
// ---------------------------------------------------------------------------

/// A host that is remembered is found again, in place of what was known of it; every
/// other host, and every other setting, stays.
pub proof fn hosts_are_remembered(
    cfg: ClientConfigView,
    id: Seq<char>,
    h: RememberedHostView,
    other: Seq<char>,
)
    ensures
        cfg.with_host(id, h).host(id) == h,
        cfg.with_host(id, h).hosts.contains_key(id),
        other != id ==> cfg.with_host(id, h).host(other) == cfg.host(other),
        cfg.with_host(id, h).rendezvous_url == cfg.rendezvous_url,
        cfg.with_host(id, h).moonlight_path == cfg.moonlight_path,
        cfg.with_host(id, h).device_name == cfg.device_name,
        cfg.with_host(id, h).stream_args == cfg.stream_args,
        !cfg.hosts.contains_key(other) ==> cfg.host(other) == unknown_host(),
{
}

/// Of a host that is not remembered nothing is known.
pub proof fn nothing_is_known_of_other_hosts()
    ensures
        unknown_host().name.len() == 0,
        unknown_host().password_h1 is None,
        unknown_host().password_salt is None,
        unknown_host().last_endpoint is None,
        unknown_host().last_app is None,
        unknown_host().server_cert_pem is None,
{
}

/// A device is called as its machine is, where that has a name.
pub proof fn devices_are_called_as_their_machine(name: Seq<char>)
    ensures
        device_name_of(Some(name)) == name,
        device_name_of(None) == "remote-access client"@,
{
}

/// Texts are in order by the first character in which they differ; where there is
/// none, the shorter comes first.
pub proof fn the_first_difference_decides(
    p: Seq<char>,
    x: char,
    y: char,
    s: Seq<char>,
    t: Seq<char>,
)
    ensures
        x < y ==> comes_before(p + seq![x] + s, p + seq![y] + t),
        x >= y && x != y ==> !comes_before(p + seq![x] + s, p + seq![y] + t),
        comes_before(p, p + seq![x] + s),
        !comes_before(p + seq![x] + s, p),
        !comes_before(p, p),
    decreases p.len(),
{
    let a = p + seq![x] + s;
    let b = p + seq![y] + t;
    if p.len() == 0 {
        assert(a[0] == x && b[0] == y);
    } else {
        the_first_difference_decides(p.drop_first(), x, y, s, t);
        assert(a[0] == p[0] && b[0] == p[0]);
        assert(a.drop_first() =~= p.drop_first() + seq![x] + s);
        assert(b.drop_first() =~= p.drop_first() + seq![y] + t);
    }
}

/// Of two different texts exactly one comes before the other.
pub proof fn texts_are_ordered(a: Seq<char>, b: Seq<char>)
    ensures
        a != b ==> (comes_before(a, b) <==> !comes_before(b, a)),
        a == b ==> !comes_before(a, b),
    decreases a.len(),
{
    if a.len() > 0 && b.len() > 0 {
        texts_are_ordered(a.drop_first(), b.drop_first());
        if a[0] == b[0] && a.drop_first() == b.drop_first() {
            assert(a =~= seq![a[0]] + a.drop_first());
            assert(b =~= seq![b[0]] + b.drop_first());
        }
    } else if a.len() == 0 && b.len() == 0 {
        assert(a =~= b);
    }
}

/// A name in a directory stands behind one separator, whether or not the directory
/// ends in one. On Windows a slash separates too, and a bare drive needs no separator.
pub proof fn names_stand_behind_one_separator(dir: Seq<char>, name: Seq<char>, separator: char)
    ensures
        joined_path(dir.push(separator), separator, name) == dir + seq![separator] + name,
        dir.len() > 0 && dir.last() != '/' ==> joined_path(dir, '/', name) == dir + "/"@ + name,
        dir.len() > 2 && dir.last() != '/' && dir.last() != '\\' ==> joined_path(dir, '\\', name)
            == dir + "\\"@ + name,
        dir.len() > 0 && dir.last() == '/' ==> joined_path(dir, '\\', name) == dir + name,
        dir.len() == 2 && 65 <= dir[0] as u32 <= 90 && dir[1] == ':' ==> joined_path(
            dir,
            '\\',
            name,
        ) == dir + name,
        dir.len() == 0 ==> joined_path(dir, separator, name) == name,
{
    reveal_strlit("/");
    reveal_strlit("\\");
    assert(dir.push(separator) + name =~= dir + seq![separator] + name);
    assert(dir.push('/') + name =~= dir + "/"@ + name);
    assert(dir.push('\\') + name =~= dir + "\\"@ + name);
    if dir.len() == 0 {
        assert(dir + name =~= name);
    }
    if dir.len() == 2 {
        crate::proto_laws::letters_and_digits_are_ascii(dir[0]);
    }
}

} // verus!
