//! `/serverinfo` parsing.

use vstd::prelude::*;
use crate::error::{DEFAULT_HTTPS_PORT, Error, ErrorView};
use crate::text::{
    before_first, contains, ends_with, has_part, has_prefix, has_suffix, is_empty, parse_u32,
    parsed_u32, starts_with, str_eq, text_view, trim, trimmed, until,
};
use crate::xml::{root_of, Root, RootView};

verus! {

#[derive(Debug)]
pub struct ServerInfo {
    pub hostname: String,
    /// Host UUID (`uniqueid` in the XML).
    pub uuid: String,
    pub app_version: String,
    pub gfe_version: String,
    pub https_port: u16,
    pub external_port: Option<u16>,
    pub local_ip: Option<String>,
    pub external_ip: Option<String>,
    pub mac: Option<String>,
    pub paired: bool,
    /// `SUNSHINE_SERVER_BUSY` / `SUNSHINE_SERVER_FREE` etc.
    pub state: String,
    pub current_game: u32,
    pub server_codec_mode_support: u32,
    /// Apollo only: permission bitmask of the calling client (HTTPS only).
    pub permission: Option<u32>,
    /// Apollo only, Windows.
    pub virtual_display_capable: Option<bool>,
}

/// What a [`ServerInfo`] holds.
pub struct ServerInfoView {
    pub hostname: Seq<char>,
    pub uuid: Seq<char>,
    pub app_version: Seq<char>,
    pub gfe_version: Seq<char>,
    pub https_port: u16,
    pub external_port: Option<u16>,
    pub local_ip: Option<Seq<char>>,
    pub external_ip: Option<Seq<char>>,
    pub mac: Option<Seq<char>>,
    pub paired: bool,
    pub state: Seq<char>,
    pub current_game: u32,
    pub server_codec_mode_support: u32,
    pub permission: Option<u32>,
    pub virtual_display_capable: Option<bool>,
}

impl View for ServerInfo {
    type V = ServerInfoView;

    open spec fn view(&self) -> ServerInfoView {
        ServerInfoView {
            hostname: self.hostname@,
            uuid: self.uuid@,
            app_version: self.app_version@,
            gfe_version: self.gfe_version@,
            https_port: self.https_port,
            external_port: self.external_port,
            local_ip: text_view(self.local_ip),
            external_ip: text_view(self.external_ip),
            mac: text_view(self.mac),
            paired: self.paired,
            state: self.state@,
            current_game: self.current_game,
            server_codec_mode_support: self.server_codec_mode_support,
            permission: self.permission,
            virtual_display_capable: self.virtual_display_capable,
        }
    }
}

impl Clone for ServerInfo {
    fn clone(&self) -> (r: Self)
        ensures
            r == *self,
    {
        ServerInfo {
            hostname: self.hostname.clone(),
            uuid: self.uuid.clone(),
            app_version: self.app_version.clone(),
            gfe_version: self.gfe_version.clone(),
            https_port: self.https_port,
            external_port: self.external_port,
            local_ip: crate::proto::clone_text(&self.local_ip),
            external_ip: crate::proto::clone_text(&self.external_ip),
            mac: crate::proto::clone_text(&self.mac),
            paired: self.paired,
            state: self.state.clone(),
            current_game: self.current_game,
            server_codec_mode_support: self.server_codec_mode_support,
            permission: self.permission,
            virtual_display_capable: self.virtual_display_capable,
        }
    }
}

impl Default for ServerInfo {
    fn default() -> (r: Self)
        ensures
            r@ == (ServerInfoView {
                hostname: Seq::empty(),
                uuid: Seq::empty(),
                app_version: Seq::empty(),
                gfe_version: Seq::empty(),
                https_port: 0,
                external_port: None,
                local_ip: None,
                external_ip: None,
                mac: None,
                paired: false,
                state: Seq::empty(),
                current_game: 0,
                server_codec_mode_support: 0,
                permission: None,
                virtual_display_capable: None,
            }),
    {
        let r = ServerInfo {
            hostname: String::new(),
            uuid: String::new(),
            app_version: String::new(),
            gfe_version: String::new(),
            https_port: 0,
            external_port: None,
            local_ip: None,
            external_ip: None,
            mac: None,
            paired: false,
            state: String::new(),
            current_game: 0,
            server_codec_mode_support: 0,
            permission: None,
            virtual_display_capable: None,
        };
        proof {
            reveal_strlit("");
            assert(r.hostname@ =~= Seq::empty());
            assert(r.uuid@ =~= Seq::empty());
            assert(r.app_version@ =~= Seq::empty());
            assert(r.gfe_version@ =~= Seq::empty());
            assert(r.state@ =~= Seq::empty());
        }
        r
    }
}

/// The trimmed text of a field, where it is not empty.
pub open spec fn field(root: RootView, name: Seq<char>) -> Option<Seq<char>> {
    match root.child(name) {
        Some(t) => if trimmed(t).len() == 0 {
            None
        } else {
            Some(trimmed(t))
        },
        None => None,
    }
}

/// The text of a field, or the empty text.
pub open spec fn field_or_empty(root: RootView, name: Seq<char>) -> Seq<char> {
    match field(root, name) {
        Some(t) => t,
        None => Seq::empty(),
    }
}

/// A field as a number.
pub open spec fn field_number(root: RootView, name: Seq<char>) -> Option<u32> {
    match field(root, name) {
        Some(t) => parsed_u32(t),
        None => None,
    }
}

/// A number cut down to its low 16 bits.
pub open spec fn low_16(n: u32) -> u16 {
    (n % 0x10000) as u16
}

/// The server that a response describes.
pub open spec fn info_of(root: RootView) -> ServerInfoView {
    ServerInfoView {
        hostname: field_or_empty(root, "hostname"@),
        uuid: field_or_empty(root, "uniqueid"@),
        app_version: field_or_empty(root, "appversion"@),
        gfe_version: field_or_empty(root, "GfeVersion"@),
        https_port: match field_number(root, "HttpsPort"@) {
            Some(n) => low_16(n),
            None => DEFAULT_HTTPS_PORT,
        },
        external_port: match field_number(root, "ExternalPort"@) {
            Some(n) => Some(low_16(n)),
            None => None,
        },
        local_ip: match field(root, "LocalIP"@) {
            Some(ip) => if has_prefix(ip, "127."@) {
                None
            } else {
                Some(ip)
            },
            None => None,
        },
        external_ip: field(root, "ExternalIP"@),
        mac: match field(root, "mac"@) {
            Some(m) => if m == "00:00:00:00:00:00"@ {
                None
            } else {
                Some(m)
            },
            None => None,
        },
        paired: field(root, "PairStatus"@) == Some("1"@),
        state: field_or_empty(root, "state"@),
        current_game: match field_number(root, "currentgame"@) {
            Some(n) => n,
            None => 0,
        },
        server_codec_mode_support: match field_number(root, "ServerCodecModeSupport"@) {
            Some(n) => n,
            None => 0,
        },
        permission: field_number(root, "Permission"@),
        virtual_display_capable: match field(root, "VirtualDisplayCapable"@) {
            Some(v) => Some(v == "1"@),
            None => None,
        },
    }
}

/// What [`ServerInfo::parse`] makes of a response body.
pub open spec fn serverinfo_of(body: Seq<char>) -> Result<ServerInfoView, ErrorView> {
    match root_of(body) {
        Ok(root) => Ok(info_of(root)),
        Err(e) => Err(e),
    }
}

/// The trimmed text of a field, where it is not empty.
fn get(root: &Root, name: &str) -> (r: Option<String>)
    ensures
        text_view(r) == field(root@, name@),
{
    match root.child(name) {
        Some(t) => {
            let s = trim(t);
            if is_empty(s.as_str()) {
                None
            } else {
                Some(s)
            }
        },
        None => None,
    }
}

/// The text of a field, or the empty text.
fn get_or_empty(root: &Root, name: &str) -> (r: String)
    ensures
        r@ == field_or_empty(root@, name@),
{
    match get(root, name) {
        Some(t) => t,
        None => {
            let r = String::new();
            proof {
                reveal_strlit("");
                assert(r@ =~= Seq::empty());
            }
            r
        },
    }
}

/// A field as a number.
fn num(root: &Root, name: &str) -> (r: Option<u32>)
    ensures
        r == field_number(root@, name@),
{
    match get(root, name) {
        Some(s) => parse_u32(s.as_str()),
        None => None,
    }
}

/// A number cut down to its low 16 bits.
fn to_port(n: u32) -> (r: u16)
    ensures
        r == low_16(n),
{
    (n % 0x10000) as u16
}

impl ServerInfo {
    /// The server that a response describes.
    pub fn from_root(root: &Root) -> (r: Self)
        ensures
            r@ == info_of(root@),
    {
        let https_port: u16 = match num(root, "HttpsPort") {
            Some(n) => to_port(n),
            None => DEFAULT_HTTPS_PORT,
        };
        let external_port: Option<u16> = match num(root, "ExternalPort") {
            Some(n) => Some(to_port(n)),
            None => None,
        };
        let local_ip = match get(root, "LocalIP") {
            Some(ip) => if starts_with(ip.as_str(), "127.") {
                None
            } else {
                Some(ip)
            },
            None => None,
        };
        let mac = match get(root, "mac") {
            Some(m) => if str_eq(m.as_str(), "00:00:00:00:00:00") {
                None
            } else {
                Some(m)
            },
            None => None,
        };
        let paired = match get(root, "PairStatus") {
            Some(s) => str_eq(s.as_str(), "1"),
            None => false,
        };
        let current_game: u32 = match num(root, "currentgame") {
            Some(n) => n,
            None => 0,
        };
        let server_codec_mode_support: u32 = match num(root, "ServerCodecModeSupport") {
            Some(n) => n,
            None => 0,
        };
        let virtual_display_capable = match get(root, "VirtualDisplayCapable") {
            Some(v) => Some(str_eq(v.as_str(), "1")),
            None => None,
        };
        ServerInfo {
            hostname: get_or_empty(root, "hostname"),
            uuid: get_or_empty(root, "uniqueid"),
            app_version: get_or_empty(root, "appversion"),
            gfe_version: get_or_empty(root, "GfeVersion"),
            https_port,
            external_port,
            local_ip,
            external_ip: get(root, "ExternalIP"),
            mac,
            paired,
            state: get_or_empty(root, "state"),
            current_game,
            server_codec_mode_support,
            permission: num(root, "Permission"),
            virtual_display_capable,
        }
    }

    pub fn parse(body: &str) -> (r: Result<Self, Error>)
        ensures
            match r {
                Ok(info) => serverinfo_of(body@) == Ok::<ServerInfoView, ErrorView>(info@),
                Err(e) => serverinfo_of(body@) == Err::<ServerInfoView, ErrorView>(e@),
            },
    {
        match Root::parse(body) {
            Ok(root) => Ok(ServerInfo::from_root(&root)),
            Err(e) => Err(e),
        }
    }

    /// Major component of `appversion`; >= 7 means SHA-256 pairing.
    pub fn major_version(&self) -> (r: u32)
        ensures
            r == major_of(self.app_version@),
    {
        let first = until(self.app_version.as_str(), '.');
        match parse_u32(first.as_str()) {
            Some(n) => n,
            None => 0,
        }
    }

    pub fn is_busy(&self) -> (r: bool)
        ensures
            r == has_suffix(self.state@, "_SERVER_BUSY"@),
    {
        ends_with(self.state.as_str(), "_SERVER_BUSY")
    }

    pub fn is_sunshine_family(&self) -> (r: bool)
        ensures
            r == !has_part(self.state@, "MJOLNIR"@),
    {
        !contains(self.state.as_str(), "MJOLNIR")
    }
}

/// The major component of a version; zero where it is no number.
pub open spec fn major_of(version: Seq<char>) -> u32 {
    match parsed_u32(before_first(version, '.')) {
        Some(n) => n,
        None => 0,
    }
}

} // verus!
