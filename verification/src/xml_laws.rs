//! What is read from a response, stated over the nodes of its document.

use vstd::prelude::*;
use crate::error::ErrorView;
use crate::foreign::{is_simple_name, xml_nodes, XmlAttributeView, XmlNodeView};
use crate::nesting::{tower, towers_are_as_deep_as_they_are_high};
use crate::text::decimal;
use crate::text_laws::signed_numbers_are_read_from_decimal;
use crate::xml::{
    attribute_in, child_in, child_text, element_in, is_element_in, root_of, root_of_nodes,
    status_code, RootView,
};

verus! {

/// Whether node `i` is an element called `name` that stands directly in `parent`.
pub open spec fn named_child(
    nodes: Seq<XmlNodeView>,
    parent: int,
    name: Seq<char>,
    i: int,
) -> bool {
    &&& 0 <= i < nodes.len()
    &&& nodes[i].is_element
    &&& nodes[i].parent matches Some(p) && p == parent
    &&& nodes[i].name == name
}

/// The text of a child is that of the first element of its name that stands directly
/// in the parent; where there is none, there is no text.
pub proof fn the_first_child_counts(
    nodes: Seq<XmlNodeView>,
    parent: int,
    name: Seq<char>,
    i: int,
)
    ensures
        named_child(nodes, parent, name, i) && (forall|j: int|
            0 <= j < i ==> !#[trigger] named_child(nodes, parent, name, j)) ==> child_text(
            nodes,
            parent,
            name,
        ) == nodes[i].text,
        (forall|j: int| !#[trigger] named_child(nodes, parent, name, j)) ==> child_text(
            nodes,
            parent,
            name,
        ) is None,
        child_text(nodes, parent, name) is Some ==> exists|j: int| #[trigger]
            named_child(nodes, parent, name, j) && nodes[j].text == child_text(nodes, parent, name),
{
    lemma_child_in(nodes, parent, name, 0);
    match child_in(nodes, parent, name, 0) {
        Some(k) => {
            assert(named_child(nodes, parent, name, k));
            if named_child(nodes, parent, name, i) && (forall|j: int|
                0 <= j < i ==> !#[trigger] named_child(nodes, parent, name, j)) {
                if i < k {
                    assert(!named_child(nodes, parent, name, i));
                }
            }
        },
        None => {},
    }
}

proof fn lemma_child_in(nodes: Seq<XmlNodeView>, parent: int, name: Seq<char>, from: int)
    requires
        0 <= from,
    ensures
        match child_in(nodes, parent, name, from) {
            Some(k) => from <= k && named_child(nodes, parent, name, k) && forall|j: int|
                from <= j < k ==> !#[trigger] named_child(nodes, parent, name, j),
            None => forall|j: int| from <= j ==> !#[trigger] named_child(nodes, parent, name, j),
        },
    decreases nodes.len() - from,
{
    if from < nodes.len() && !(is_element_in(nodes, parent, from) && nodes[from].name == name) {
        lemma_child_in(nodes, parent, name, from + 1);
    }
}

/// The value of an attribute is that of the first one of its name outside any
/// namespace.
pub proof fn the_first_attribute_counts(
    attributes: Seq<XmlAttributeView>,
    name: Seq<char>,
    i: int,
)
    ensures
        0 <= i < attributes.len() && !attributes[i].namespaced && attributes[i].name == name && (
        forall|j: int|
            0 <= j < i ==> (#[trigger] attributes[j]).namespaced || attributes[j].name != name)
            ==> attribute_in(attributes, name) == Some(attributes[i].value),
        (forall|j: int|
            0 <= j < attributes.len() ==> (#[trigger] attributes[j]).namespaced
                || attributes[j].name != name) ==> attribute_in(attributes, name) is None,
    decreases attributes.len(),
{
    if attributes.len() > 0 && (attributes[0].namespaced || attributes[0].name != name) {
        let rest = attributes.drop_first();
        assert forall|j: int| 0 <= j < rest.len() implies #[trigger] rest[j] == attributes[j
            + 1] by {}
        the_first_attribute_counts(rest, name, i - 1);
        if i > 0 && i < attributes.len() {
            assert(rest[i - 1] == attributes[i]);
        }
    }
}

/// A response is taken only where its root element is called `root` and carries the
/// status 200; any other number that it carries is reported, with its words.
pub proof fn only_status_200_is_taken(nodes: Seq<XmlNodeView>, n: nat)
    requires
        element_in(nodes, 0, 0) is Some,
        n <= 0x7FFF_FFFF,
        attribute_in(nodes[element_in(nodes, 0, 0)->0].attributes, "status_code"@) == Some(
            decimal(n),
        ),
    ensures
        ({
            let root = nodes[element_in(nodes, 0, 0)->0];
            let message = attribute_in(root.attributes, "status_message"@);
            &&& root_of_nodes(nodes) is Ok <==> root.name == "root"@ && n == 200
            &&& root.name == "root"@ && n != 200 ==> match root_of_nodes(nodes) {
                Err(ErrorView::Status { code, message: words }) => {
                    &&& code == n
                    &&& message is Some ==> words == message->0
                    &&& message is None ==> words == ""@
                },
                _ => false,
            }
            &&& root_of_nodes(nodes) matches Ok(r) ==> r == (RootView {
                nodes,
                root: element_in(nodes, 0, 0)->0,
            })
        }),
{
    signed_numbers_are_read_from_decimal(n, Seq::empty(), 0);
}

/// A response without a readable status is refused with the status 0.
pub proof fn no_status_is_no_success(nodes: Seq<XmlNodeView>)
    requires
        element_in(nodes, 0, 0) is Some,
        nodes[element_in(nodes, 0, 0)->0].name == "root"@,
        attribute_in(nodes[element_in(nodes, 0, 0)->0].attributes, "status_code"@) is None,
    ensures
        root_of_nodes(nodes) matches Err(ErrorView::Status { code, message }) && code == 0,
        status_code(nodes[element_in(nodes, 0, 0)->0].attributes) == 0,
{
}

/// A body that is no XML is refused with the parser's own words.
pub proof fn unreadable_bodies_are_refused(body: Seq<char>)
    requires
        xml_nodes(body) is Err,
        root_of(body) != Err::<RootView, ErrorView>(ErrorView::Xml("elements nested too deeply"@)),
    ensures
        root_of(body) == Err::<RootView, ErrorView>(ErrorView::Xml(xml_nodes(body)->Err_0)),
{
}

/// A response whose elements are nested more than 200 deep is refused unread.
pub proof fn deep_responses_are_refused(name: Seq<char>, n: nat, more: Seq<char>)
    requires
        is_simple_name(name),
        n > 200,
    ensures
        root_of(tower(name, n) + more) == Err::<RootView, ErrorView>(
            ErrorView::Xml("elements nested too deeply"@),
        ),
{
    towers_are_as_deep_as_they_are_high(name, n, more);
}

/// The first element that stands directly in a node, from a position on.
pub proof fn the_first_element_counts(nodes: Seq<XmlNodeView>, parent: int, from: int)
    requires
        0 <= from,
    ensures
        match element_in(nodes, parent, from) {
            Some(i) => {
                &&& from <= i < nodes.len()
                &&& nodes[i].is_element
                &&& nodes[i].parent matches Some(p) && p == parent
                &&& forall|j: int|
                    from <= j < i ==> !((#[trigger] nodes[j]).is_element && nodes[j].parent is Some
                        && nodes[j].parent->0 == parent)
            },
            None => forall|j: int|
                from <= j < nodes.len() ==> !((#[trigger] nodes[j]).is_element
                    && nodes[j].parent is Some && nodes[j].parent->0 == parent),
        },
    decreases nodes.len() - from,
{
    if from < nodes.len() && !is_element_in(nodes, parent, from) {
        the_first_element_counts(nodes, parent, from + 1);
    }
}

} // verus!
