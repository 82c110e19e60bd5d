//! What a list of apps says of the response that it was read from.

use vstd::prelude::*;
use crate::apps::{app_at, app_text, applist_of, apps_before, apps_of, visible, AppView};
use crate::error::ErrorView;
use crate::foreign::XmlNodeView;
use crate::text::{decimal, trimmed};
use crate::text_laws::numbers_are_read_from_decimal;
use crate::xml::{child_text, root_of, RootView};
use crate::xml_laws::named_child;

verus! {

/// Whether a character is the zero width space, non-joiner or joiner, or the byte
/// order mark.
pub open spec fn padding(c: char) -> bool {
    c as u32 == 0x200B || c as u32 == 0x200C || c as u32 == 0x200D || c as u32 == 0xFEFF
}

/// A title is cleaned character by character: the padding of "legacy ordering" goes,
/// every other character stays, in its place.
pub proof fn titles_lose_only_padding(a: Seq<char>, b: Seq<char>, c: char)
    ensures
        visible(Seq::empty()) == Seq::<char>::empty(),
        visible(a + b) == visible(a) + visible(b),
        visible(seq![c]) == (if padding(c) {
            Seq::empty()
        } else {
            seq![c]
        }),
        (forall|i: int| 0 <= i < a.len() ==> !padding(#[trigger] a[i])) ==> visible(a) == a,
        forall|i: int| 0 <= i < visible(a).len() ==> !padding(#[trigger] visible(a)[i]),
{
    reveal_with_fuel(Seq::filter, 2);
    lemma_visible_both(a, b);
    lemma_visible_keeps(a);
    assert(seq![c].drop_last() =~= Seq::empty());
    lemma_nothing_hidden(a);
}

proof fn lemma_padding(c: char)
    ensures
        padding(c) <==> crate::apps::is_zero_width(c),
{
    assert('\u{200B}' as u32 == 0x200B && '\u{200C}' as u32 == 0x200C && '\u{200D}' as u32 == 0x200D
        && '\u{FEFF}' as u32 == 0xFEFF);
}

proof fn lemma_nothing_hidden(a: Seq<char>)
    ensures
        forall|i: int| 0 <= i < visible(a).len() ==> !padding(#[trigger] visible(a)[i]),
    decreases a.len(),
{
    reveal(Seq::filter);
    if a.len() > 0 {
        lemma_nothing_hidden(a.drop_last());
        let before = visible(a.drop_last());
        let all = visible(a);
        if padding(a.last()) {
            lemma_padding(a.last());
            assert(all =~= before);
        } else {
            assert(all =~= before.push(a.last()));
        }
        assert forall|i: int| 0 <= i < all.len() implies !padding(#[trigger] all[i]) by {
            if i < before.len() {
                assert(all[i] == before[i]);
            }
        }
    }
}

proof fn lemma_visible_both(a: Seq<char>, b: Seq<char>)
    ensures
        visible(a + b) == visible(a) + visible(b),
    decreases b.len(),
{
    reveal(Seq::filter);
    if b.len() == 0 {
        assert(a + b =~= a);
    } else {
        lemma_visible_both(a, b.drop_last());
        assert((a + b).drop_last() =~= a + b.drop_last());
        assert(visible(a + b) =~= visible(a) + visible(b));
    }
}

proof fn lemma_visible_keeps(a: Seq<char>)
    ensures
        (forall|i: int| 0 <= i < a.len() ==> !padding(#[trigger] a[i])) ==> visible(a) == a,
    decreases a.len(),
{
    reveal(Seq::filter);
    if a.len() > 0 && (forall|i: int| 0 <= i < a.len() ==> !padding(#[trigger] a[i])) {
        let front = a.drop_last();
        assert forall|i: int| 0 <= i < front.len() implies !padding(#[trigger] front[i]) by {
            assert(front[i] == a[i]);
        }
        lemma_visible_keeps(front);
        assert(!padding(a[a.len() - 1]));
        assert(visible(a) =~= a);
    }
}

/// The title of an app is the trimmed text of its element `AppTitle`: as it is where
/// it holds no padding, and empty where there is no such element.
pub proof fn titles_are_kept(nodes: Seq<XmlNodeView>, i: int, t: Seq<char>)
    ensures
        child_text(nodes, i, "AppTitle"@) == Some(t) && (forall|k: int|
            0 <= k < trimmed(t).len() ==> !padding(#[trigger] trimmed(t)[k])) ==> app_at(
            nodes,
            i,
        ).title == trimmed(t),
        child_text(nodes, i, "AppTitle"@) == Some(t) ==> forall|k: int|
            0 <= k < app_at(nodes, i).title.len() ==> !padding(#[trigger] app_at(nodes, i).title[k]),
        child_text(nodes, i, "AppTitle"@) is None ==> app_at(nodes, i).title.len() == 0,
{
    titles_lose_only_padding(trimmed(t), Seq::empty(), ' ');
}

/// The number of an app is the one that its element `ID` shows in decimal, with
/// blanks around it or not, and 0 where there is none.
pub proof fn ids_are_kept(nodes: Seq<XmlNodeView>, i: int, n: nat)
    ensures
        n <= 0xFFFF_FFFF && app_text(nodes, i, "ID"@) == Some(decimal(n)) ==> app_at(nodes, i).id
            == n,
        n > 0xFFFF_FFFF && app_text(nodes, i, "ID"@) == Some(decimal(n)) ==> app_at(nodes, i).id
            == 0,
        child_text(nodes, i, "ID"@) is None ==> app_at(nodes, i).id == 0,
        forall|name: Seq<char>| #[trigger]
            app_text(nodes, i, name) == (match child_text(nodes, i, name) {
                Some(t) => Some(trimmed(t)),
                None => None,
            }),
{
    numbers_are_read_from_decimal(n, Seq::empty(), 0);
}

/// An app supports HDR exactly where its element `IsHdrSupported` says 1, and has the
/// identifier that its element `UUID` shows.
pub proof fn flags_are_kept(nodes: Seq<XmlNodeView>, i: int)
    ensures
        app_at(nodes, i).hdr_supported <==> exists|t: Seq<char>|
            child_text(nodes, i, "IsHdrSupported"@) == Some(t) && #[trigger] trimmed(t) == "1"@,
        child_text(nodes, i, "UUID"@) is None <==> app_at(nodes, i).uuid is None,
        child_text(nodes, i, "UUID"@) is Some ==> app_at(nodes, i).uuid == Some(
            trimmed(child_text(nodes, i, "UUID"@)->0),
        ),
{
    if app_at(nodes, i).hdr_supported {
        let t = child_text(nodes, i, "IsHdrSupported"@)->0;
        assert(trimmed(t) == "1"@);
    }
}

/// How many elements called `App` stand directly in the root before node `n`.
pub open spec fn apps_seen(root: RootView, n: int) -> nat
    decreases n,
{
    if n <= 0 {
        0
    } else if named_child(root.nodes, root.root, "App"@, n - 1) {
        apps_seen(root, n - 1) + 1
    } else {
        apps_seen(root, n - 1)
    }
}

/// Every `App` element that stands directly in the root is listed once, in the order
/// of the document, with what its own children say; nothing else is listed.
pub proof fn every_app_is_listed_once(root: RootView, i: int)
    ensures
        apps_of(root).len() == apps_seen(root, root.nodes.len() as int),
        named_child(root.nodes, root.root, "App"@, i) ==> apps_seen(root, i) < apps_of(root).len()
            && apps_of(root)[apps_seen(root, i) as int] == app_at(root.nodes, i),
{
    lemma_apps_before(root, root.nodes.len() as int, i);
}

proof fn lemma_apps_before(root: RootView, n: int, i: int)
    requires
        n <= root.nodes.len(),
    ensures
        apps_before(root, n).len() == apps_seen(root, n),
        0 <= i < n && named_child(root.nodes, root.root, "App"@, i) ==> apps_seen(root, i)
            < apps_seen(root, n) && apps_before(root, n)[apps_seen(root, i) as int] == app_at(
            root.nodes,
            i,
        ),
    decreases n,
{
    if n > 0 {
        lemma_apps_before(root, n - 1, i);
    }
}

/// A list of apps is that of the response, and a refused response gives its error.
pub proof fn lists_come_from_responses(body: Seq<char>)
    ensures
        applist_of(body) is Ok <==> root_of(body) is Ok,
        root_of(body) is Err ==> applist_of(body) == Err::<Seq<AppView>, ErrorView>(
            root_of(body)->Err_0,
        ),
        root_of(body) is Ok ==> (applist_of(body)->Ok_0).len() == apps_seen(
            root_of(body)->Ok_0,
            (root_of(body)->Ok_0).nodes.len() as int,
        ),
{
    if root_of(body) is Ok {
        every_app_is_listed_once(root_of(body)->Ok_0, 0);
    }
}

} // verus!
