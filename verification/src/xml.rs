//! Tiny helpers for the `<root status_code=.. status_message=..>` XML that
//! GameStream servers return.

use vstd::prelude::*;
use crate::error::{Error, ErrorView};
use crate::foreign::{
    node_views, parse_xml, xml_nodes, FlatXml, XmlAttributeView, XmlNode, XmlNodeView,
};
use crate::nesting::{is_shallow, lemma_flat_is_shallow, xml_nesting, MAX_NESTING};
use crate::text::{cat3, parse_i32, parsed_i32, str_eq};

verus! {

/// Whether node `i` is an element that stands directly in node `parent`.
pub open spec fn is_element_in(nodes: Seq<XmlNodeView>, parent: int, i: int) -> bool {
    0 <= i < nodes.len() && nodes[i].is_element && nodes[i].parent is Some && nodes[i].parent->0
        == parent
}

/// The first element, at `from` or later, that stands directly in `parent`.
pub open spec fn element_in(nodes: Seq<XmlNodeView>, parent: int, from: int) -> Option<int>
    decreases nodes.len() - from,
{
    if from < 0 || from >= nodes.len() {
        None
    } else if is_element_in(nodes, parent, from) {
        Some(from)
    } else {
        element_in(nodes, parent, from + 1)
    }
}

/// The first element called `name`, at `from` or later, that stands directly in
/// `parent`.
pub open spec fn child_in(
    nodes: Seq<XmlNodeView>,
    parent: int,
    name: Seq<char>,
    from: int,
) -> Option<int>
    decreases nodes.len() - from,
{
    if from < 0 || from >= nodes.len() {
        None
    } else if is_element_in(nodes, parent, from) && nodes[from].name == name {
        Some(from)
    } else {
        child_in(nodes, parent, name, from + 1)
    }
}

/// The text of the first element called `name` that stands directly in `parent`.
pub open spec fn child_text(nodes: Seq<XmlNodeView>, parent: int, name: Seq<char>) -> Option<
    Seq<char>,
> {
    match child_in(nodes, parent, name, 0) {
        Some(i) => nodes[i].text,
        None => None,
    }
}

/// The value of the first attribute called `name` outside any namespace.
pub open spec fn attribute_in(attributes: Seq<XmlAttributeView>, name: Seq<char>) -> Option<
    Seq<char>,
>
    decreases attributes.len(),
{
    if attributes.len() == 0 {
        None
    } else if !attributes[0].namespaced && attributes[0].name == name {
        Some(attributes[0].value)
    } else {
        attribute_in(attributes.drop_first(), name)
    }
}

/// The document's nodes, with the position of its root element.
pub struct RootView {
    pub nodes: Seq<XmlNodeView>,
    pub root: int,
}

impl RootView {
    /// Text of the first direct child of `<root>` named `name`.
    pub open spec fn child(self, name: Seq<char>) -> Option<Seq<char>> {
        child_text(self.nodes, self.root, name)
    }
}

/// The status code that a root element carries.
pub open spec fn status_code(attributes: Seq<XmlAttributeView>) -> i32 {
    match attribute_in(attributes, "status_code"@) {
        Some(v) => match parsed_i32(v) {
            Some(n) => n,
            None => 0,
        },
        None => 0,
    }
}

/// The status message that a root element carries.
pub open spec fn status_message(attributes: Seq<XmlAttributeView>) -> Seq<char> {
    match attribute_in(attributes, "status_message"@) {
        Some(v) => v,
        None => ""@,
    }
}

/// The root of a document whose root element is `<root>` and carries the status
/// code 200.
pub open spec fn root_of_nodes(nodes: Seq<XmlNodeView>) -> Result<RootView, ErrorView> {
    let r = element_in(nodes, 0, 0)->0;
    if nodes[r].name != "root"@ {
        Err(ErrorView::Xml("unexpected root element <"@ + nodes[r].name + ">"@))
    } else if status_code(nodes[r].attributes) != 200 {
        Err(
            ErrorView::Status {
                code: status_code(nodes[r].attributes),
                message: status_message(nodes[r].attributes),
            },
        )
    } else {
        Ok(RootView { nodes, root: r })
    }
}

/// What [`Root::parse`] makes of a response body.
pub open spec fn root_of(body: Seq<char>) -> Result<RootView, ErrorView> {
    if xml_nesting(body) > MAX_NESTING {
        Err(ErrorView::Xml("elements nested too deeply"@))
    } else {
        match xml_nodes(body) {
            Err(e) => Err(ErrorView::Xml(e)),
            Ok(nodes) => root_of_nodes(nodes),
        }
    }
}

/// A document of simple fields is read as exactly these fields.
pub open spec fn flat_parses(body: Seq<char>) -> bool {
    forall|flat: FlatXml|
        flat.simple() && body == #[trigger] flat.text() ==> xml_nodes(body) == Ok::<
            Seq<XmlNodeView>,
            Seq<char>,
        >(flat.nodes())
}

/// A response whose status is 200.
pub struct Root {
    nodes: Vec<XmlNode>,
    root: usize,
}

impl View for Root {
    type V = RootView;

    closed spec fn view(&self) -> RootView {
        RootView { nodes: node_views(self.nodes@), root: self.root as int }
    }
}

/// The first element that stands directly in the document.
fn find_root(nodes: &Vec<XmlNode>) -> (r: usize)
    requires
        element_in(node_views(nodes@), 0, 0) is Some,
    ensures
        r < nodes@.len(),
        element_in(node_views(nodes@), 0, 0) == Some(r as int),
{
    let ghost views = node_views(nodes@);
    let mut i: usize = 0;
    while i < nodes.len()
        invariant
            views == node_views(nodes@),
            i <= nodes@.len(),
            element_in(views, 0, 0) == element_in(views, 0, i as int),
            element_in(views, 0, 0) is Some,
        decreases nodes.len() - i,
    {
        assert(views[i as int] == nodes@[i as int]@);
        if nodes[i].is_element {
            if let Some(p) = nodes[i].parent {
                if p == 0 {
                    return i;
                }
            }
        }
        i += 1;
    }
    0
}

/// The value of the attribute `name` of a node.
fn find_attribute<'a>(node: &'a XmlNode, name: &str) -> (r: Option<&'a str>)
    ensures
        match r {
            Some(v) => attribute_in(node@.attributes, name@) == Some(v@),
            None => attribute_in(node@.attributes, name@) is None,
        },
{
    let ghost attrs = node@.attributes;
    let mut i: usize = 0;
    assert(attrs.skip(0) =~= attrs);
    while i < node.attributes.len()
        invariant
            attrs == node@.attributes,
            i <= node.attributes@.len(),
            attribute_in(attrs, name@) == attribute_in(attrs.skip(i as int), name@),
        decreases node.attributes.len() - i,
    {
        let a = &node.attributes[i];
        assert(attrs.skip(i as int)[0] == a@);
        assert(attrs.skip(i as int).drop_first() =~= attrs.skip(i + 1));
        if !a.namespaced && str_eq(a.name.as_str(), name) {
            return Some(a.value.as_str());
        }
        i += 1;
    }
    None
}

/// A document has a first element where it has an element.
proof fn lemma_element_in(nodes: Seq<XmlNodeView>, parent: int, from: int, i: int)
    requires
        0 <= from <= i,
        is_element_in(nodes, parent, i),
    ensures
        element_in(nodes, parent, from) is Some,
    decreases i - from,
{
    if !is_element_in(nodes, parent, from) {
        lemma_element_in(nodes, parent, from + 1, i);
    }
}

impl Root {
    /// Verify that the root element is `<root>` with `status_code == 200`.
    pub fn from_nodes(nodes: Vec<XmlNode>) -> (r: Result<Self, Error>)
        requires
            element_in(node_views(nodes@), 0, 0) is Some,
        ensures
            match r {
                Ok(root) => root_of_nodes(node_views(nodes@)) == Ok::<RootView, ErrorView>(root@),
                Err(e) => root_of_nodes(node_views(nodes@)) == Err::<RootView, ErrorView>(e@),
            },
    {
        let i: usize = find_root(&nodes);
        let root = &nodes[i];
        assert(node_views(nodes@)[i as int] == root@);
        if !str_eq(root.name.as_str(), "root") {
            return Err(Error::Xml(cat3("unexpected root element <", root.name.as_str(), ">")));
        }
        let code: i32 = match find_attribute(root, "status_code") {
            Some(v) => match parse_i32(v) {
                Some(n) => n,
                None => 0,
            },
            None => 0,
        };
        if code != 200 {
            let message = match find_attribute(root, "status_message") {
                Some(v) => v.to_owned(),
                None => "".to_owned(),
            };
            return Err(Error::Status { code, message });
        }
        Ok(Root { nodes, root: i })
    }

    /// Parse and verify `status_code == 200`.
    pub fn parse(body: &str) -> (r: Result<Self, Error>)
        ensures
            match r {
                Ok(root) => root_of(body@) == Ok::<RootView, ErrorView>(root@),
                Err(e) => root_of(body@) == Err::<RootView, ErrorView>(e@),
            },
            flat_parses(body@),
    {
        if !is_shallow(body) {
            assert forall|flat: FlatXml| flat.simple() implies body@ != #[trigger] flat.text() by {
                lemma_flat_is_shallow(flat);
            }
            return Err(Error::Xml("elements nested too deeply".to_owned()));
        }
        match parse_xml(body) {
            Err(e) => Err(Error::Xml(e)),
            Ok(nodes) => {
                proof {
                    let i = choose|i: int|
                        0 <= i < nodes@.len() && (#[trigger] nodes@[i]).is_element
                            && nodes@[i].parent == Some(0usize);
                    assert(node_views(nodes@)[i] == nodes@[i]@);
                    lemma_element_in(node_views(nodes@), 0, 0, i);
                }
                Root::from_nodes(nodes)
            },
        }
    }

    /// Text of the first element named `name` that stands directly in the node
    /// at `parent`.
    pub fn child_of(&self, parent: usize, name: &str) -> (r: Option<&str>)
        ensures
            match r {
                Some(t) => child_text(self@.nodes, parent as int, name@) == Some(t@),
                None => child_text(self@.nodes, parent as int, name@) is None,
            },
    {
        let ghost views = node_views(self.nodes@);
        let mut i: usize = 0;
        while i < self.nodes.len()
            invariant
                views == node_views(self.nodes@),
                i <= self.nodes@.len(),
                child_in(views, parent as int, name@, 0) == child_in(
                    views,
                    parent as int,
                    name@,
                    i as int,
                ),
            decreases self.nodes.len() - i,
        {
            let node = &self.nodes[i];
            assert(views[i as int] == node@);
            if node.is_element {
                if let Some(p) = node.parent {
                    if p == parent && str_eq(node.name.as_str(), name) {
                        return match &node.text {
                            Some(t) => Some(t.as_str()),
                            None => None,
                        };
                    }
                }
            }
            i += 1;
        }
        None
    }

    /// Text of the first direct child of `<root>` named `name`.
    pub fn child(&self, name: &str) -> (r: Option<&str>)
        ensures
            match r {
                Some(t) => self@.child(name@) == Some(t@),
                None => self@.child(name@) is None,
            },
    {
        self.child_of(self.root, name)
    }

    /// Text of the first direct child of `<root>` named `name`, or an error.
    pub fn require(&self, name: &'static str) -> (r: Result<&str, Error>)
        ensures
            match r {
                Ok(t) => self@.child(name@) == Some(t@),
                Err(e) => self@.child(name@) is None && e@ == ErrorView::Missing(name@),
            },
    {
        match self.child(name) {
            Some(t) => Ok(t),
            None => Err(Error::Missing(name)),
        }
    }

    /// The position of the root element.
    pub fn root(&self) -> (r: usize)
        ensures
            r == self@.root,
    {
        self.root
    }

    /// How many nodes the document has.
    pub fn len(&self) -> (r: usize)
        ensures
            r == self@.nodes.len(),
    {
        self.nodes.len()
    }

    /// Whether the node at `i` is an element named `name` that stands directly in
    /// the node at `parent`.
    pub fn is_child(&self, parent: usize, name: &str, i: usize) -> (r: bool)
        requires
            i < self@.nodes.len(),
        ensures
            r == (is_element_in(self@.nodes, parent as int, i as int) && self@.nodes[i as int].name
                == name@),
    {
        let node = &self.nodes[i];
        assert(node_views(self.nodes@)[i as int] == node@);
        match node.parent {
            Some(p) => node.is_element && p == parent && str_eq(node.name.as_str(), name),
            None => false,
        }
    }
}

} // verus!
