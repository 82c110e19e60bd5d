//! Settings of the host agent.

use vstd::prelude::*;
use crate::foreign::{hex_digit, hex_encode, hex_of, nibble};
use crate::perm::{ALL, CONTROL, VIEW_ONLY};
use crate::proto::{
    clone_endpoints, clone_text, endpoint_views, h1_of, is_alphanumeric_ascii, password_h1,
    random_hex, random_salt, DEFAULT_GAMESTREAM_PORT, Endpoint, EndpointView,
};
use crate::text::{byte_len, cat2, chars, str_eq, text_view, utf8};

verus! {

#[derive(Debug)]
pub struct Config {
    /// Base URL of the rendezvous server, e.g. `https://rv.example.com`.
    pub rendezvous_url: String,
    /// Assigned 9-digit ID (filled in after first registration).
    pub id: Option<String>,
    /// Secret proving ownership of `id` at the rendezvous server.
    pub token: String,
    /// Friendly name shown to clients.
    pub name: String,
    /// Salted password hash `h1 = SHA256(password || salt)`, hex.
    pub password_h1: Option<String>,
    pub password_salt: String,
    /// Apollo web UI, default `https://127.0.0.1:47990`.
    pub apollo_url: String,
    pub apollo_username: String,
    pub apollo_password: String,
    /// Apollo base port advertised to clients (HTTP GameStream port).
    pub gamestream_port: u16,
    /// Permission bitmask granted to freshly paired clients.
    pub client_permissions: u32,
    /// Extra endpoints to advertise (e.g. a DDNS name or Tailscale IP).
    pub extra_endpoints: Vec<Endpoint>,
    /// Advertise the address the rendezvous server sees us from.
    pub advertise_public_ip: bool,
    /// Advertise LAN interface addresses.
    pub advertise_lan_ips: bool,
}

/// What a [`Config`] holds.
#[verifier::ext_equal]
pub struct ConfigView {
    pub rendezvous_url: Seq<char>,
    pub id: Option<Seq<char>>,
    pub token: Seq<char>,
    pub name: Seq<char>,
    pub password_h1: Option<Seq<char>>,
    pub password_salt: Seq<char>,
    pub apollo_url: Seq<char>,
    pub apollo_username: Seq<char>,
    pub apollo_password: Seq<char>,
    pub gamestream_port: u16,
    pub client_permissions: u32,
    pub extra_endpoints: Seq<EndpointView>,
    pub advertise_public_ip: bool,
    pub advertise_lan_ips: bool,
}

impl View for Config {
    type V = ConfigView;

    open spec fn view(&self) -> ConfigView {
        ConfigView {
            rendezvous_url: self.rendezvous_url@,
            id: text_view(self.id),
            token: self.token@,
            name: self.name@,
            password_h1: text_view(self.password_h1),
            password_salt: self.password_salt@,
            apollo_url: self.apollo_url@,
            apollo_username: self.apollo_username@,
            apollo_password: self.apollo_password@,
            gamestream_port: self.gamestream_port,
            client_permissions: self.client_permissions,
            extra_endpoints: endpoint_views(self.extra_endpoints@),
            advertise_public_ip: self.advertise_public_ip,
            advertise_lan_ips: self.advertise_lan_ips,
        }
    }
}

impl Clone for Config {
    fn clone(&self) -> (r: Self)
        ensures
            r@ == self@,
    {
        Config {
            rendezvous_url: self.rendezvous_url.clone(),
            id: clone_text(&self.id),
            token: self.token.clone(),
            name: self.name.clone(),
            password_h1: clone_text(&self.password_h1),
            password_salt: self.password_salt.clone(),
            apollo_url: self.apollo_url.clone(),
            apollo_username: self.apollo_username.clone(),
            apollo_password: self.apollo_password.clone(),
            gamestream_port: self.gamestream_port,
            client_permissions: self.client_permissions,
            extra_endpoints: clone_endpoints(&self.extra_endpoints),
            advertise_public_ip: self.advertise_public_ip,
            advertise_lan_ips: self.advertise_lan_ips,
        }
    }
}

/// What a settings file without the entry means for the advertising switches.
pub fn default_true() -> (r: bool)
    ensures
        r,
{
    true
}

/// Settings of a host that has not been registered yet, with a given token and
/// salt.
pub open spec fn default_config(
    rendezvous_url: Seq<char>,
    apollo_username: Seq<char>,
    apollo_password: Seq<char>,
    host_name: Option<Seq<char>>,
    token: Seq<char>,
    salt: Seq<char>,
) -> ConfigView {
    ConfigView {
        rendezvous_url,
        id: None,
        token,
        name: match host_name {
            Some(n) => n,
            None => "Apollo Host"@,
        },
        password_h1: None,
        password_salt: salt,
        apollo_url: "https://127.0.0.1:47990"@,
        apollo_username,
        apollo_password,
        gamestream_port: DEFAULT_GAMESTREAM_PORT,
        client_permissions: CONTROL,
        extra_endpoints: Seq::empty(),
        advertise_public_ip: true,
        advertise_lan_ips: true,
    }
}

/// Whether a text is a salt of sixteen letters and digits.
pub open spec fn is_salt(s: Seq<char>) -> bool {
    s.len() == 16 && forall|i: int| 0 <= i < s.len() ==> is_alphanumeric_ascii(#[trigger] s[i])
}

impl Config {
    /// Settings of a host that has not been registered yet; `host_name` is what
    /// the machine is called, where that is known.
    pub fn new_default(
        rendezvous_url: String,
        apollo_username: String,
        apollo_password: String,
        host_name: Option<String>,
    ) -> (r: Self)
        ensures
            r@ == default_config(
                rendezvous_url@,
                apollo_username@,
                apollo_password@,
                text_view(host_name),
                r@.token,
                r@.password_salt,
            ),
            exists|b: Seq<u8>| b.len() == 32 && r@.token == hex_of(b),
            is_salt(r@.password_salt),
    {
        let name = match host_name {
            Some(n) => n,
            None => "Apollo Host".to_owned(),
        };
        let r = Config {
            rendezvous_url,
            id: None,
            token: random_hex(32),
            name,
            password_h1: None,
            password_salt: random_salt(16),
            apollo_url: "https://127.0.0.1:47990".to_owned(),
            apollo_username,
            apollo_password,
            gamestream_port: DEFAULT_GAMESTREAM_PORT,
            client_permissions: CONTROL,
            extra_endpoints: Vec::new(),
            advertise_public_ip: true,
            advertise_lan_ips: true,
        };
        assert(r@.extra_endpoints =~= Seq::empty());
        r
    }

    /// Set the password, with a given salt.
    pub fn set_password_with(&mut self, password: &str, salt: String)
        ensures
            final(self)@ == (ConfigView {
                password_salt: salt@,
                password_h1: Some(h1_of(password@, salt@)),
                ..old(self)@
            }),
    {
        let h1 = password_h1(password, salt.as_str());
        self.password_salt = salt;
        self.password_h1 = Some(h1);
    }

    /// Set the password, with a fresh salt.
    pub fn set_password(&mut self, password: &str)
        ensures
            is_salt(final(self)@.password_salt),
            final(self)@ == (ConfigView {
                password_salt: final(self)@.password_salt,
                password_h1: Some(h1_of(password@, final(self)@.password_salt)),
                ..old(self)@
            }),
    {
        let salt = random_salt(16);
        self.set_password_with(password, salt);
    }
}

/// The shortest access password, in bytes.
pub const MIN_PASSWORD_LEN: usize = 6;

/// Whether an access password is long enough.
pub fn password_long_enough(password: &str) -> (r: bool)
    ensures
        r == (utf8(password@).len() >= MIN_PASSWORD_LEN),
{
    byte_len(password) >= MIN_PASSWORD_LEN
}

/// `s` without any number of `0x` at its start.
pub open spec fn without_0x(s: Seq<char>) -> Seq<char>
    decreases s.len(),
{
    if s.len() >= 2 && s[0] == '0' && s[1] == 'x' {
        without_0x(s.skip(2))
    } else {
        s
    }
}

/// What a character is worth as a hexadecimal digit.
pub open spec fn hex_char_value(c: char) -> Option<int> {
    if '0' <= c && c <= '9' {
        Some(c as u32 - '0' as u32)
    } else if 'a' <= c && c <= 'f' {
        Some(c as u32 - 'a' as u32 + 10)
    } else if 'A' <= c && c <= 'F' {
        Some(c as u32 - 'A' as u32 + 10)
    } else {
        None
    }
}

/// The number that hexadecimal digits denote; `None` where one is no digit.
pub open spec fn hex_number(s: Seq<char>) -> Option<int>
    decreases s.len(),
{
    if s.len() == 0 {
        Some(0)
    } else {
        match (hex_number(s.drop_last()), hex_char_value(s.last())) {
            (Some(n), Some(d)) => Some(16 * n + d),
            _ => None,
        }
    }
}

/// What a text denotes as a hexadecimal `u32`: an optional plus sign and at least
/// one digit.
pub open spec fn hex_u32(s: Seq<char>) -> Option<u32> {
    let digits = if s.len() > 0 && s[0] == '+' {
        s.skip(1)
    } else {
        s
    };
    match hex_number(digits) {
        Some(n) => if digits.len() > 0 && n <= u32::MAX {
            Some(n as u32)
        } else {
            None
        },
        None => None,
    }
}

/// What a permission mask given by name or in hexadecimal stands for.
pub open spec fn mask_of(mask: Seq<char>) -> Option<u32> {
    if mask == "control"@ {
        Some(CONTROL)
    } else if mask == "view"@ {
        Some(VIEW_ONLY)
    } else if mask == "all"@ {
        Some(ALL)
    } else {
        hex_u32(without_0x(mask))
    }
}

/// What a character is worth as a hexadecimal digit.
fn hex_char(c: char) -> (r: Option<u32>)
    ensures
        match r {
            Some(d) => hex_char_value(c) == Some(d as int) && d < 16,
            None => hex_char_value(c) is None,
        },
{
    if '0' <= c && c <= '9' {
        Some(c as u32 - '0' as u32)
    } else if 'a' <= c && c <= 'f' {
        Some(c as u32 - 'a' as u32 + 10)
    } else if 'A' <= c && c <= 'F' {
        Some(c as u32 - 'A' as u32 + 10)
    } else {
        None
    }
}

/// A number of hexadecimal digits is no less than its leading digits are worth,
/// and none where these are none.
proof fn lemma_hex_number_prefix(s: Seq<char>, k: int)
    requires
        0 <= k <= s.len(),
    ensures
        hex_number(s.take(k)) is None ==> hex_number(s) is None,
        hex_number(s) is Some ==> hex_number(s.take(k)) is Some && hex_number(s.take(k))->0
            <= hex_number(s)->0,
        hex_number(s) is Some ==> hex_number(s)->0 >= 0,
    decreases s.len(),
{
    if k == s.len() {
        assert(s.take(k) =~= s);
    }
    if s.len() > 0 {
        if k < s.len() {
            lemma_hex_number_prefix(s.drop_last(), k);
            assert(s.drop_last().take(k) =~= s.take(k));
        } else {
            lemma_hex_number_prefix(s.drop_last(), k - 1);
        }
    }
}

/// Reads the digits of `v` from `from` on.
fn read_hex_digits(v: &Vec<char>, from: usize) -> (r: Option<u32>)
    requires
        from <= v@.len(),
    ensures
        ({
            let digits = v@.skip(from as int);
            r == match hex_number(digits) {
                Some(n) => if digits.len() > 0 && n <= u32::MAX {
                    Some(n as u32)
                } else {
                    None
                },
                None => None,
            }
        }),
{
    let ghost digits = v@.skip(from as int);
    if from == v.len() {
        return None;
    }
    let mut n: u64 = 0;
    let mut i: usize = from;
    while i < v.len()
        invariant
            from <= i <= v@.len(),
            digits == v@.skip(from as int),
            n <= u32::MAX,
            hex_number(digits.take(i - from)) == Some(n as int),
        decreases v.len() - i,
    {
        proof {
            assert(digits.take(i - from + 1).drop_last() =~= digits.take(i - from));
            assert(digits.take(i - from + 1).last() == v@[i as int]);
            lemma_hex_number_prefix(digits, i - from + 1);
        }
        match hex_char(v[i]) {
            None => return None,
            Some(d) => {
                n = 16 * n + d as u64;
                if n > 0xffff_ffff {
                    return None;
                }
            },
        }
        i += 1;
    }
    assert(digits.take(i - from) =~= digits);
    Some(n as u32)
}

/// What a permission mask given by name or in hexadecimal stands for.
pub fn parse_mask(mask: &str) -> (r: Option<u32>)
    ensures
        r == mask_of(mask@),
{
    if str_eq(mask, "control") {
        return Some(CONTROL);
    }
    if str_eq(mask, "view") {
        return Some(VIEW_ONLY);
    }
    if str_eq(mask, "all") {
        return Some(ALL);
    }
    let v = chars(mask);
    let mut from: usize = 0;
    assert(v@.skip(0) =~= v@);
    while v.len() - from >= 2 && v[from] == '0' && v[from + 1] == 'x'
        invariant
            from <= v@.len(),
            without_0x(v@) == without_0x(v@.skip(from as int)),
        decreases v.len() - from,
    {
        assert(v@.skip(from as int).skip(2) =~= v@.skip(from + 2));
        from += 2;
    }
    let ghost rest = v@.skip(from as int);
    assert(without_0x(rest) == rest) by {
        if rest.len() >= 2 {
            assert(rest[0] == v@[from as int] && rest[1] == v@[from + 1]);
        }
    }
    if from < v.len() && v[from] == '+' {
        assert(rest.skip(1) =~= v@.skip(from + 1));
        read_hex_digits(&v, from + 1)
    } else {
        read_hex_digits(&v, from)
    }
}

/// A mask as `0x` and eight hexadecimal digits.
pub open spec fn mask_words(mask: u32) -> Seq<char> {
    "0x"@ + hex_of(
        seq![
            (mask / 0x100_0000) as u8,
            (mask / 0x1_0000 % 0x100) as u8,
            (mask / 0x100 % 0x100) as u8,
            (mask % 0x100) as u8,
        ],
    )
}

/// A mask as `0x` and eight hexadecimal digits.
pub fn mask_text(mask: u32) -> (r: String)
    ensures
        r@ == mask_words(mask),
{
    let bytes: [u8; 4] = [
        (mask / 0x100_0000) as u8,
        (mask / 0x1_0000 % 0x100) as u8,
        (mask / 0x100 % 0x100) as u8,
        (mask % 0x100) as u8,
    ];
    let hex = hex_encode(&bytes);
    assert(bytes@ =~= seq![
        (mask / 0x100_0000) as u8,
        (mask / 0x1_0000 % 0x100) as u8,
        (mask / 0x100 % 0x100) as u8,
        (mask % 0x100) as u8,
    ]);
    cat2("0x", hex.as_str())
}

/// One more digit counts sixteenfold what came before it.
proof fn lemma_hex_number_step(s: Seq<char>, k: int)
    requires
        0 <= k < s.len(),
        hex_number(s.take(k)) is Some,
        hex_char_value(s[k]) is Some,
    ensures
        hex_number(s.take(k + 1)) == Some(16 * hex_number(s.take(k))->0 + hex_char_value(s[k])->0),
{
    assert(s.take(k + 1).drop_last() =~= s.take(k));
}

/// The hexadecimal notation of four bytes denotes the number that they make up.
proof fn lemma_hex_number_of_bytes(bytes: Seq<u8>)
    requires
        bytes.len() == 4,
    ensures
        hex_number(hex_of(bytes)) == Some(
            0x100_0000 * bytes[0] + 0x1_0000 * bytes[1] + 0x100 * bytes[2] + bytes[3],
        ),
        forall|i: int| 0 <= i < 8 ==> hex_char_value(#[trigger] hex_of(bytes)[i]) is Some,
{
    let hex = hex_of(bytes);
    assert forall|i: int| 0 <= i < 8 implies hex_char_value(#[trigger] hex[i]) == Some(
        nibble(bytes, i),
    ) by {
        assert(0 <= nibble(bytes, i) < 16);
        assert(hex[i] == hex_digit(nibble(bytes, i)));
    }
    assert(hex_number(hex.take(0)) == Some(0int));
    assert(nibble(bytes, 0) == bytes[0] as int / 16 && nibble(bytes, 1) == bytes[0] as int % 16);
    lemma_hex_number_step(hex, 0);
    lemma_hex_number_step(hex, 1);
    assert(hex_number(hex.take(2)) == Some(bytes[0] as int));
    assert(nibble(bytes, 2) == bytes[1] as int / 16 && nibble(bytes, 3) == bytes[1] as int % 16);
    lemma_hex_number_step(hex, 2);
    lemma_hex_number_step(hex, 3);
    assert(hex_number(hex.take(4)) == Some(0x100 * bytes[0] + bytes[1]));
    assert(nibble(bytes, 4) == bytes[2] as int / 16 && nibble(bytes, 5) == bytes[2] as int % 16);
    lemma_hex_number_step(hex, 4);
    lemma_hex_number_step(hex, 5);
    assert(hex_number(hex.take(6)) == Some(0x1_0000 * bytes[0] + 0x100 * bytes[1] + bytes[2]));
    assert(nibble(bytes, 6) == bytes[3] as int / 16 && nibble(bytes, 7) == bytes[3] as int % 16);
    lemma_hex_number_step(hex, 6);
    lemma_hex_number_step(hex, 7);
    assert(hex.take(8) =~= hex);
}

/// A mask that was written out reads back as itself.
pub proof fn masks_read_back(mask: u32)
    ensures
        mask_of(mask_words(mask)) == Some(mask),
{
    let bytes = seq![
        (mask / 0x100_0000) as u8,
        (mask / 0x1_0000 % 0x100) as u8,
        (mask / 0x100 % 0x100) as u8,
        (mask % 0x100) as u8,
    ];
    let hex = hex_of(bytes);
    let s = mask_words(mask);
    lemma_hex_number_of_bytes(bytes);
    assert(hex_number(hex) == Some(mask as int)) by {
        assert(bytes[0] == mask / 0x100_0000);
        assert(bytes[1] == mask / 0x1_0000 % 0x100);
        assert(bytes[2] == mask / 0x100 % 0x100);
        assert(bytes[3] == mask % 0x100);
    }
    assert(hex.len() == 8);
    assert(hex_char_value(hex[0]) is Some && hex_char_value(hex[1]) is Some);
    assert(s.len() == 10 && s[0] == '0' && s[1] == 'x' && s.skip(2) == hex) by {
        reveal_strlit("0x");
        assert(s.skip(2) =~= hex);
    }
    assert(s != "control"@ && s != "view"@ && s != "all"@) by {
        reveal_strlit("control");
        reveal_strlit("view");
        reveal_strlit("all");
    }
    assert(without_0x(hex) == hex);
    assert(without_0x(s) == hex);
}

} // verus!
