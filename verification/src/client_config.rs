//! Settings of the client.

use vstd::prelude::*;
use vstd::string::StringExecFns;
use crate::proto::clone_text;
use crate::table::Table;
use crate::text::{chars, text_view, texts};

verus! {

#[derive(Debug)]
pub struct RememberedHost {
    pub name: String,
    /// Cached `h1` so the password need not be retyped (opt-in).
    pub password_h1: Option<String>,
    pub password_salt: Option<String>,
    pub last_endpoint: Option<String>,
    pub last_app: Option<String>,
    /// Server certificate PEM from a native pairing.
    pub server_cert_pem: Option<String>,
}

/// What a [`RememberedHost`] holds.
#[verifier::ext_equal]
pub struct RememberedHostView {
    pub name: Seq<char>,
    pub password_h1: Option<Seq<char>>,
    pub password_salt: Option<Seq<char>>,
    pub last_endpoint: Option<Seq<char>>,
    pub last_app: Option<Seq<char>>,
    pub server_cert_pem: Option<Seq<char>>,
}

impl View for RememberedHost {
    type V = RememberedHostView;

    open spec fn view(&self) -> RememberedHostView {
        RememberedHostView {
            name: self.name@,
            password_h1: text_view(self.password_h1),
            password_salt: text_view(self.password_salt),
            last_endpoint: text_view(self.last_endpoint),
            last_app: text_view(self.last_app),
            server_cert_pem: text_view(self.server_cert_pem),
        }
    }
}

/// A host of which nothing is remembered.
pub open spec fn unknown_host() -> RememberedHostView {
    RememberedHostView {
        name: Seq::empty(),
        password_h1: None,
        password_salt: None,
        last_endpoint: None,
        last_app: None,
        server_cert_pem: None,
    }
}

impl Default for RememberedHost {
    fn default() -> (r: Self)
        ensures
            r@ == unknown_host(),
    {
        let r = RememberedHost {
            name: String::new(),
            password_h1: None,
            password_salt: None,
            last_endpoint: None,
            last_app: None,
            server_cert_pem: None,
        };
        proof {
            reveal_strlit("");
            assert(r.name@ =~= Seq::empty());
        }
        r
    }
}

impl Clone for RememberedHost {
    fn clone(&self) -> (r: Self)
        ensures
            r == *self,
    {
        RememberedHost {
            name: self.name.clone(),
            password_h1: clone_text(&self.password_h1),
            password_salt: clone_text(&self.password_salt),
            last_endpoint: clone_text(&self.last_endpoint),
            last_app: clone_text(&self.last_app),
            server_cert_pem: clone_text(&self.server_cert_pem),
        }
    }
}

pub struct ClientConfig {
    pub rendezvous_url: String,
    pub moonlight_path: Option<String>,
    pub device_name: String,
    /// What is remembered of hosts, by their ids.
    pub hosts: Table<RememberedHost>,
    /// Extra arguments always passed to `moonlight stream`.
    pub stream_args: Vec<String>,
}

/// What a [`ClientConfig`] holds.
#[verifier::ext_equal]
pub struct ClientConfigView {
    pub rendezvous_url: Seq<char>,
    pub moonlight_path: Option<Seq<char>>,
    pub device_name: Seq<char>,
    pub hosts: Map<Seq<char>, RememberedHostView>,
    pub stream_args: Seq<Seq<char>>,
}

impl View for ClientConfig {
    type V = ClientConfigView;

    open spec fn view(&self) -> ClientConfigView {
        ClientConfigView {
            rendezvous_url: self.rendezvous_url@,
            moonlight_path: text_view(self.moonlight_path),
            device_name: self.device_name@,
            hosts: self.hosts@,
            stream_args: texts(self.stream_args@),
        }
    }
}

impl ClientConfigView {
    /// What is remembered of a host.
    pub open spec fn host(self, id: Seq<char>) -> RememberedHostView {
        if self.hosts.contains_key(id) {
            self.hosts[id]
        } else {
            unknown_host()
        }
    }

    /// With something else remembered of a host.
    pub open spec fn with_host(self, id: Seq<char>, h: RememberedHostView) -> ClientConfigView {
        ClientConfigView { hosts: self.hosts.insert(id, h), ..self }
    }
}

/// The first text comes before the second one, character by character.
pub open spec fn comes_before(a: Seq<char>, b: Seq<char>) -> bool
    decreases a.len(),
{
    if b.len() == 0 {
        false
    } else if a.len() == 0 {
        true
    } else if a[0] != b[0] {
        a[0] < b[0]
    } else {
        comes_before(a.drop_first(), b.drop_first())
    }
}

/// Texts in ascending order, none twice.
pub open spec fn ascending(v: Seq<Seq<char>>) -> bool {
    forall|i: int, j: int| 0 <= i < j < v.len() ==> comes_before(#[trigger] v[i], #[trigger] v[j])
}

/// The order is transitive.
proof fn lemma_before_trans(a: Seq<char>, b: Seq<char>, c: Seq<char>)
    requires
        comes_before(a, b),
        comes_before(b, c),
    ensures
        comes_before(a, c),
    decreases a.len(),
{
    if a.len() > 0 && a[0] == b[0] && b[0] == c[0] {
        lemma_before_trans(a.drop_first(), b.drop_first(), c.drop_first());
    }
}

/// Of two different texts one comes before the other.
proof fn lemma_before_total(a: Seq<char>, b: Seq<char>)
    requires
        a != b,
    ensures
        comes_before(a, b) || comes_before(b, a),
    decreases a.len(),
{
    if a.len() == 0 {
        if b.len() == 0 {
            assert(a =~= b);
        }
    } else if b.len() > 0 && a[0] == b[0] {
        if a.drop_first() == b.drop_first() {
            assert(a =~= seq![a[0]] + a.drop_first());
            assert(b =~= seq![b[0]] + b.drop_first());
        }
        lemma_before_total(a.drop_first(), b.drop_first());
    }
}

/// Whether the text `a` comes before `b`.
pub fn text_before(a: &str, b: &str) -> (r: bool)
    ensures
        r == comes_before(a@, b@),
{
    let x = chars(a);
    let y = chars(b);
    let mut i: usize = 0;
    assert(x@.skip(0) =~= x@);
    assert(y@.skip(0) =~= y@);
    while i < x.len() && i < y.len() && x[i] == y[i]
        invariant
            i <= x@.len(),
            i <= y@.len(),
            comes_before(x@, y@) == comes_before(x@.skip(i as int), y@.skip(i as int)),
        decreases x.len() - i,
    {
        assert(x@.skip(i as int).drop_first() =~= x@.skip(i + 1));
        assert(y@.skip(i as int).drop_first() =~= y@.skip(i + 1));
        i += 1;
    }
    if i >= y.len() {
        return false;
    }
    if i >= x.len() {
        return true;
    }
    x[i] < y[i]
}

/// Puts a new text in its place among ascending ones.
fn insert_ascending(v: &mut Vec<String>, s: String)
    requires
        ascending(texts(old(v)@)),
        !texts(old(v)@).contains(s@),
    ensures
        ascending(texts(final(v)@)),
        forall|t: Seq<char>| #[trigger]
            texts(final(v)@).contains(t) <==> texts(old(v)@).contains(t) || t == s@,
{
    let ghost before = texts(v@);
    let mut at: usize = 0;
    while at < v.len() && text_before(v[at].as_str(), s.as_str())
        invariant
            at <= v@.len(),
            before == texts(v@),
            forall|i: int| 0 <= i < at ==> comes_before(#[trigger] before[i], s@),
        decreases v.len() - at,
    {
        at += 1;
    }
    let ghost key = s@;
    v.insert(at, s);
    proof {
        let after = texts(v@);
        assert(after =~= before.insert(at as int, key));
        assert forall|i: int| at <= i < before.len() implies comes_before(
            key,
            #[trigger] before[i],
        ) by {
            assert(before[at as int] != key) by {
                if before[at as int] == key {
                    assert(before.contains(key));
                }
            }
            lemma_before_total(before[at as int], key);
            if i > at {
                lemma_before_trans(key, before[at as int], before[i]);
            }
        }
        assert forall|i: int, j: int| 0 <= i < j < after.len() implies comes_before(
            #[trigger] after[i],
            #[trigger] after[j],
        ) by {
            if i < at {
                assert(after[i] == before[i]);
                if j > at {
                    assert(after[j] == before[j - 1]);
                }
            } else if i == at {
                assert(after[j] == before[j - 1]);
            } else {
                assert(after[i] == before[i - 1]);
                assert(after[j] == before[j - 1]);
            }
        }
        assert forall|t: Seq<char>| #[trigger] after.contains(t) <==> before.contains(t) || t
            == key by {
            if before.contains(t) {
                let i = choose|i: int| 0 <= i < before.len() && before[i] == t;
                if i < at {
                    assert(after[i] == t);
                } else {
                    assert(after[i + 1] == t);
                }
            }
            if t == key {
                assert(after[at as int] == t);
            }
            if after.contains(t) {
                let i = choose|i: int| 0 <= i < after.len() && after[i] == t;
                if i < at {
                    assert(before[i] == t);
                } else if i > at {
                    assert(before[i - 1] == t);
                }
            }
        }
    }
}

impl ClientConfig {
    /// Settings where no file has any: `rendezvous` is what the environment says,
    /// `host_name` what the machine is called.
    pub fn with_defaults(rendezvous: Option<String>, host_name: Option<String>) -> (r: Self)
        ensures
            r.hosts.wf(),
            r@ == (ClientConfigView {
                rendezvous_url: match rendezvous {
                    Some(u) => u@,
                    None => "http://127.0.0.1:21114"@,
                },
                moonlight_path: None,
                device_name: device_name_of(text_view(host_name)),
                hosts: Map::empty(),
                stream_args: Seq::empty(),
            }),
    {
        let rendezvous_url = match rendezvous {
            Some(u) => u,
            None => "http://127.0.0.1:21114".to_owned(),
        };
        let r = ClientConfig {
            rendezvous_url,
            moonlight_path: None,
            device_name: default_device_name(host_name),
            hosts: Table::new(),
            stream_args: Vec::new(),
        };
        assert(r@.stream_args =~= Seq::empty());
        r
    }

    /// The settings file in a directory; `separator` stands between the parts of a
    /// path.
    pub fn default_path(dir: &str, separator: char) -> (r: String)
        ensures
            r@ == joined_path(dir@, separator, "client.toml"@),
    {
        join_path(dir, separator, "client.toml")
    }

    /// The ids of the remembered hosts, in ascending order.
    pub fn host_ids(&self) -> (r: Vec<String>)
        requires
            self.hosts.wf(),
        ensures
            ascending(texts(r@)),
            forall|id: Seq<char>| #[trigger]
                texts(r@).contains(id) <==> self@.hosts.contains_key(id),
    {
        let mut out: Vec<String> = Vec::new();
        let n: usize = self.hosts.len();
        let mut i: usize = 0;
        proof {
            self.hosts.lemma_keys();
        }
        while i < n
            invariant
                self.hosts.wf(),
                n == self.hosts.size(),
                i <= n,
                forall|a: int, b: int|
                    0 <= a < b < self.hosts.size() ==> #[trigger] self.hosts.key(a)
                        != #[trigger] self.hosts.key(b),
                ascending(texts(out@)),
                forall|id: Seq<char>| #[trigger]
                    texts(out@).contains(id) <==> exists|j: int|
                        0 <= j < i && #[trigger] self.hosts.key(j) == id,
            decreases n - i,
        {
            let key = self.hosts.key_at(i);
            assert(!texts(out@).contains(key@));
            let ghost before = texts(out@);
            insert_ascending(&mut out, key);
            assert forall|id: Seq<char>| #[trigger] texts(out@).contains(id) <==> exists|j: int|
                0 <= j < i + 1 && #[trigger] self.hosts.key(j) == id by {
                if id == self.hosts.key(i as int) {
                    assert(texts(out@).contains(id));
                }
                if before.contains(id) {
                    let j = choose|j: int| 0 <= j < i && #[trigger] self.hosts.key(j) == id;
                    assert(self.hosts.key(j) == id);
                }
            }
            i += 1;
        }
        assert forall|id: Seq<char>| #[trigger]
            texts(out@).contains(id) <==> self@.hosts.contains_key(id) by {
            if texts(out@).contains(id) {
                let j = choose|j: int| 0 <= j < n && #[trigger] self.hosts.key(j) == id;
                self.hosts.lemma_key(j);
            }
        }
        out
    }

    /// What is remembered of a host.
    pub fn host(&self, id: &str) -> (r: RememberedHost)
        requires
            self.hosts.wf(),
        ensures
            r@ == self@.host(id@),
    {
        match self.hosts.get(id) {
            Some(h) => h.clone(),
            None => RememberedHost::default(),
        }
    }

    /// Remembers something else of a host.
    pub fn set_host(&mut self, id: &str, h: RememberedHost)
        requires
            old(self).hosts.wf(),
        ensures
            final(self).hosts.wf(),
            final(self)@ == old(self)@.with_host(id@, h@),
    {
        self.hosts.insert(id.to_owned(), h);
    }

    /// Forgets a host.
    pub fn forget(&mut self, id: &str)
        requires
            old(self).hosts.wf(),
        ensures
            final(self).hosts.wf(),
            final(self)@ == (ClientConfigView {
                hosts: old(self)@.hosts.remove(id@),
                ..old(self)@
            }),
    {
        let _ = self.hosts.remove(id);
    }
}

/// What the device is called where the settings do not say.
pub open spec fn device_name_of(host_name: Option<Seq<char>>) -> Seq<char> {
    match host_name {
        Some(n) => n,
        None => "remote-access client"@,
    }
}

/// What the device is called where the settings do not say.
pub fn default_device_name(host_name: Option<String>) -> (r: String)
    ensures
        r@ == device_name_of(text_view(host_name)),
{
    match host_name {
        Some(n) => n,
        None => "remote-access client".to_owned(),
    }
}

/// Whether a name can be put behind `dir` as it is: nothing is there, or a separator,
/// or, in the notation of Windows, a bare drive. There a `/` separates too.
pub open spec fn takes_a_name(dir: Seq<char>, separator: char) -> bool {
    ||| dir.len() == 0
    ||| dir.last() == separator
    ||| separator == '\\' && (dir.last() == '/' || is_drive(dir))
}

/// Whether `dir` is a drive of Windows, such as `C:`.
pub open spec fn is_drive(dir: Seq<char>) -> bool {
    &&& dir.len() == 2 && dir[1] == ':'
    &&& ('A' <= dir[0] && dir[0] <= 'Z') || ('a' <= dir[0] && dir[0] <= 'z')
}

/// A file name in a directory.
pub open spec fn joined_path(dir: Seq<char>, separator: char, name: Seq<char>) -> Seq<char> {
    if takes_a_name(dir, separator) {
        dir + name
    } else {
        dir.push(separator) + name
    }
}

/// A file name in a directory.
pub fn join_path(dir: &str, separator: char, name: &str) -> (r: String)
    ensures
        r@ == joined_path(dir@, separator, name@),
{
    let v = chars(dir);
    let mut s = dir.to_owned();
    if v.len() > 0 {
        let last = v[v.len() - 1];
        let drive = v.len() == 2 && last == ':' && (('A' <= v[0] && v[0] <= 'Z') || ('a' <= v[0]
            && v[0] <= 'z'));
        if last != separator && !(separator == '\\' && (last == '/' || drive)) {
            s.push(separator);
        }
    }
    s.append(name);
    s
}

} // verus!
