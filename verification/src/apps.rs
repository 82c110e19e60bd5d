//! `/applist` parsing.

use vstd::prelude::*;
use crate::error::{Error, ErrorView};
use crate::foreign::XmlNodeView;
use crate::text::{chars, parse_u32, parsed_u32, str_eq, text_view, trim, trimmed};
use crate::xml::{child_text, is_element_in, root_of, Root, RootView};

verus! {

#[derive(Debug, PartialEq, Eq)]
pub struct App {
    pub id: u32,
    pub title: String,
    pub hdr_supported: bool,
    /// Apollo only.
    pub uuid: Option<String>,
}

impl Clone for App {
    fn clone(&self) -> (r: Self)
        ensures
            r == *self,
    {
        App {
            id: self.id,
            title: self.title.clone(),
            hdr_supported: self.hdr_supported,
            uuid: match &self.uuid {
                Some(u) => Some(u.clone()),
                None => None,
            },
        }
    }
}

/// Apollo returns a single fake app with this ID when the caller lacks the
/// `list` permission.
pub const PERMISSION_DENIED_APP_ID: u32 = 114514;

/// What an [`App`] holds.
pub struct AppView {
    pub id: u32,
    pub title: Seq<char>,
    pub hdr_supported: bool,
    pub uuid: Option<Seq<char>>,
}

impl View for App {
    type V = AppView;

    open spec fn view(&self) -> AppView {
        AppView {
            id: self.id,
            title: self.title@,
            hdr_supported: self.hdr_supported,
            uuid: text_view(self.uuid),
        }
    }
}

/// A character without width, with which Apollo's "legacy ordering" pads titles.
pub open spec fn is_zero_width(c: char) -> bool {
    c == '\u{200B}' || c == '\u{200C}' || c == '\u{200D}' || c == '\u{FEFF}'
}

/// `s` without the characters that have no width.
pub open spec fn visible(s: Seq<char>) -> Seq<char> {
    s.filter(|c: char| !is_zero_width(c))
}

/// The trimmed text of the child `name` of the node at `i`.
pub open spec fn app_text(nodes: Seq<XmlNodeView>, i: int, name: Seq<char>) -> Option<Seq<char>> {
    match child_text(nodes, i, name) {
        Some(t) => Some(trimmed(t)),
        None => None,
    }
}

/// The app that the element at `i` describes.
pub open spec fn app_at(nodes: Seq<XmlNodeView>, i: int) -> AppView {
    AppView {
        id: match app_text(nodes, i, "ID"@) {
            Some(s) => match parsed_u32(s) {
                Some(n) => n,
                None => 0,
            },
            None => 0,
        },
        title: match app_text(nodes, i, "AppTitle"@) {
            Some(t) => visible(t),
            None => Seq::empty(),
        },
        hdr_supported: app_text(nodes, i, "IsHdrSupported"@) == Some("1"@),
        uuid: app_text(nodes, i, "UUID"@),
    }
}

/// The apps that the `App` elements among the first `n` nodes describe, for those
/// that stand directly in the root element.
pub open spec fn apps_before(root: RootView, n: int) -> Seq<AppView>
    decreases n,
{
    if n <= 0 {
        Seq::empty()
    } else if is_element_in(root.nodes, root.root, n - 1) && root.nodes[n - 1].name == "App"@ {
        apps_before(root, n - 1).push(app_at(root.nodes, n - 1))
    } else {
        apps_before(root, n - 1)
    }
}

/// The apps that a response lists, in order.
pub open spec fn apps_of(root: RootView) -> Seq<AppView> {
    apps_before(root, root.nodes.len() as int)
}

/// What a list of apps holds.
pub open spec fn app_views(apps: Seq<App>) -> Seq<AppView> {
    Seq::new(apps.len(), |i: int| apps[i]@)
}

/// Whether `c` is a character without width.
fn zero_width(c: char) -> (r: bool)
    ensures
        r == is_zero_width(c),
{
    c == '\u{200B}' || c == '\u{200C}' || c == '\u{200D}' || c == '\u{FEFF}'
}

/// `s` without the characters that have no width.
fn strip_zero_width(s: &str) -> (r: String)
    ensures
        r@ == visible(s@),
{
    let v = chars(s);
    let ghost pred = |c: char| !is_zero_width(c);
    let mut out = String::new();
    let mut i: usize = 0;
    assert(v@.take(0).filter(pred) =~= Seq::empty()) by {
        reveal(Seq::filter);
    }
    while i < v.len()
        invariant
            i <= v@.len(),
            pred == (|c: char| !is_zero_width(c)),
            out@ == v@.take(i as int).filter(pred),
        decreases v.len() - i,
    {
        let c = v[i];
        proof {
            reveal(Seq::filter);
            assert(v@.take(i + 1).drop_last() =~= v@.take(i as int));
        }
        if !zero_width(c) {
            out.push(c);
        }
        i += 1;
    }
    assert(v@.take(i as int) =~= v@);
    out
}

/// The trimmed text of the child `name` of the node at `i`.
fn text_at(root: &Root, i: usize, name: &str) -> (r: Option<String>)
    ensures
        text_view(r) == app_text(root@.nodes, i as int, name@),
{
    match root.child_of(i, name) {
        Some(t) => Some(trim(t)),
        None => None,
    }
}

/// The apps that a response lists.
pub fn apps_in(root: &Root) -> (r: Vec<App>)
    ensures
        app_views(r@) == apps_of(root@),
{
    let mut apps: Vec<App> = Vec::new();
    let n: usize = root.len();
    let at: usize = root.root();
    let mut i: usize = 0;
    while i < n
        invariant
            i <= n,
            n == root@.nodes.len(),
            at == root@.root,
            app_views(apps@) =~= apps_before(root@, i as int),
        decreases n - i,
    {
        if root.is_child(at, "App", i) {
            let title = match text_at(root, i, "AppTitle") {
                Some(t) => strip_zero_width(t.as_str()),
                None => String::new(),
            };
            let id: u32 = match text_at(root, i, "ID") {
                Some(s) => match parse_u32(s.as_str()) {
                    Some(v) => v,
                    None => 0,
                },
                None => 0,
            };
            let hdr_supported = match text_at(root, i, "IsHdrSupported") {
                Some(s) => str_eq(s.as_str(), "1"),
                None => false,
            };
            let uuid = text_at(root, i, "UUID");
            let app = App { id, title, hdr_supported, uuid };
            assert(title@ =~= app_at(root@.nodes, i as int).title);
            assert(app@ == app_at(root@.nodes, i as int));
            apps.push(app);
        }
        i += 1;
    }
    apps
}

/// What [`parse_applist`] makes of a response body.
pub open spec fn applist_of(body: Seq<char>) -> Result<Seq<AppView>, ErrorView> {
    match root_of(body) {
        Ok(root) => Ok(apps_of(root)),
        Err(e) => Err(e),
    }
}

pub fn parse_applist(body: &str) -> (r: Result<Vec<App>, Error>)
    ensures
        match r {
            Ok(v) => applist_of(body@) == Ok::<Seq<AppView>, ErrorView>(app_views(v@)),
            Err(e) => applist_of(body@) == Err::<Seq<AppView>, ErrorView>(e@),
        },
{
    match Root::parse(body) {
        Ok(root) => Ok(apps_in(&root)),
        Err(e) => Err(e),
    }
}

} // verus!
