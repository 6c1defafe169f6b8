//! XML documents as lists of nodes, and what is looked up in them.

use vstd::prelude::*;
use crate::json::string_view;
use crate::text::{is_white_space, same, trim, trimmed, trimming_leaves_the_core};

verus! {

/// A node of a document: the position of its parent, its name where it is an
/// element, the text that it holds or begins with, and its attributes.
pub struct XmlNode {
    pub parent: Option<usize>,
    pub name: String,
    pub text: Option<String>,
    pub attributes: Vec<(String, String)>,
}

/// What an [`XmlNode`] holds.
#[verifier::ext_equal]
pub struct XmlNodeView {
    pub parent: Option<usize>,
    pub name: Seq<char>,
    pub text: Option<Seq<char>>,
    pub attributes: Seq<(Seq<char>, Seq<char>)>,
}

impl View for XmlNode {
    type V = XmlNodeView;

    open spec fn view(&self) -> XmlNodeView {
        XmlNodeView {
            parent: self.parent,
            name: self.name@,
            text: string_view(self.text),
            attributes: pairs_view(self.attributes@),
        }
    }
}

/// What a sequence of attributes holds.
pub open spec fn pairs_view(pairs: Seq<(String, String)>) -> Seq<(Seq<char>, Seq<char>)> {
    pairs.map_values(|pair: (String, String)| (pair.0@, pair.1@))
}

/// What a sequence of nodes holds.
pub open spec fn nodes_view(nodes: Seq<XmlNode>) -> Seq<XmlNodeView> {
    nodes.map_values(|node: XmlNode| node@)
}

/// What the attempt to read a document gave.
pub open spec fn parse_view(
    nodes: Result<Vec<XmlNode>, String>,
) -> Result<Seq<XmlNodeView>, Seq<char>> {
    match nodes {
        Ok(list) => Ok(nodes_view(list@)),
        Err(why) => Err(why@),
    }
}

/// What `roxmltree::Document::parse` makes of a text: all nodes of the document
/// in its order, the document itself first, or how its error prints.
pub uninterp spec fn parsed_xml(text: Seq<char>) -> Result<Seq<XmlNodeView>, Seq<char>>;

/// Calls `roxmltree::Document::parse` and takes the nodes out of the document,
/// each with its parent's id, its tag name, its text and its attributes.
/// Claimed: all of that depends on the text alone.
#[verifier::external_body]
pub(crate) fn parse_xml(text: &str) -> (r: Result<Vec<XmlNode>, String>)
    ensures
        parse_view(r) == parsed_xml(text@),
{
    let document = roxmltree::Document::parse(text).map_err(|e| e.to_string())?;
    let nodes = document.descendants().map(|node| XmlNode {
        parent: node.parent().map(|p| p.id().get_usize()),
        name: node.tag_name().name().to_owned(),
        text: node.text().map(|t| t.to_owned()),
        attributes: node.attributes().map(|a| (a.name().to_owned(), a.value().to_owned())).collect(),
    });
    Ok(nodes.collect())
}

/// Whether a node is an element of the given name under the node at `parent`.
pub open spec fn is_child(
    nodes: Seq<XmlNodeView>,
    i: int,
    parent: int,
    name: Seq<char>,
) -> bool {
    nodes[i].parent is Some && nodes[i].parent->0 == parent && nodes[i].name == name
}

/// The first child of the given name at or behind position `i`.
pub open spec fn child_from(
    nodes: Seq<XmlNodeView>,
    parent: int,
    name: Seq<char>,
    i: int,
) -> Option<int>
    decreases nodes.len() - i,
{
    if i < 0 || i >= nodes.len() {
        None
    } else if is_child(nodes, i, parent, name) {
        Some(i)
    } else {
        child_from(nodes, parent, name, i + 1)
    }
}

/// The first child of the given name.
pub open spec fn child_of(nodes: Seq<XmlNodeView>, parent: int, name: Seq<char>) -> Option<int> {
    child_from(nodes, parent, name, 0)
}

/// The text of a node without white space around it; none where nothing is
/// left.
pub open spec fn node_text(node: XmlNodeView) -> Option<Seq<char>> {
    match node.text {
        Some(text) => if trimmed(text).len() == 0 {
            None
        } else {
            Some(trimmed(text))
        },
        None => None,
    }
}

/// The text of a child.
pub open spec fn child_text(
    nodes: Seq<XmlNodeView>,
    parent: int,
    name: Seq<char>,
) -> Option<Seq<char>> {
    match child_of(nodes, parent, name) {
        Some(i) => node_text(nodes[i]),
        None => None,
    }
}

/// The text of a grandchild.
pub open spec fn nested_text(
    nodes: Seq<XmlNodeView>,
    parent: int,
    outer: Seq<char>,
    name: Seq<char>,
) -> Option<Seq<char>> {
    match child_of(nodes, parent, outer) {
        Some(i) => child_text(nodes, i, name),
        None => None,
    }
}

/// The text of the `value` of a grandchild.
pub open spec fn nested_value(
    nodes: Seq<XmlNodeView>,
    parent: int,
    outer: Seq<char>,
    name: Seq<char>,
) -> Option<Seq<char>> {
    match child_of(nodes, parent, outer) {
        Some(i) => nested_text(nodes, i, name, "value"@),
        None => None,
    }
}

/// Whether a child says yes: its text is `1` or `true`.
pub open spec fn is_set(nodes: Seq<XmlNodeView>, parent: int, name: Seq<char>) -> bool {
    let text = child_text(nodes, parent, name);
    text == Some("1"@) || text == Some("true"@)
}

/// Whether a node stands somewhere under the node at `top`. A parent stands
/// before its children.
pub open spec fn stands_under(nodes: Seq<XmlNodeView>, i: int, top: int) -> bool
    decreases i,
{
    match nodes[i].parent {
        Some(parent) => parent == top || (parent < i && stands_under(nodes, parent as int, top)),
        None => false,
    }
}

/// The value of the first attribute of the given name.
pub open spec fn attribute_of(
    attributes: Seq<(Seq<char>, Seq<char>)>,
    name: Seq<char>,
) -> Option<Seq<char>>
    decreases attributes.len(),
{
    if attributes.len() == 0 {
        None
    } else if attributes[0].0 == name {
        Some(attributes[0].1)
    } else {
        attribute_of(attributes.drop_first(), name)
    }
}

/// The first child of the given name.
pub(crate) fn find_child(nodes: &Vec<XmlNode>, parent: usize, name: &str) -> (r: Option<usize>)
    ensures
        match r {
            Some(i) => i < nodes@.len() && child_of(nodes_view(nodes@), parent as int, name@)
                == Some(i as int),
            None => child_of(nodes_view(nodes@), parent as int, name@) is None,
        },
{
    let ghost all = nodes_view(nodes@);
    let mut i: usize = 0;
    while i < nodes.len()
        invariant
            i <= nodes@.len(),
            all == nodes_view(nodes@),
            child_of(all, parent as int, name@) == child_from(all, parent as int, name@, i as int),
        decreases nodes@.len() - i,
    {
        assert(all[i as int] == nodes@[i as int]@);
        let under: bool = match nodes[i].parent {
            Some(p) => p == parent,
            None => false,
        };
        if under && same(nodes[i].name.as_str(), name) {
            return Some(i);
        }
        i += 1;
    }
    None
}

/// The text of a node without white space around it; none where nothing is
/// left.
pub(crate) fn text_of_node(node: &XmlNode) -> (r: Option<String>)
    ensures
        string_view(r) == node_text(node@),
{
    match &node.text {
        Some(text) => {
            let text = trim(text.as_str());
            if text.as_str().is_empty() {
                None
            } else {
                Some(text)
            }
        },
        None => None,
    }
}

/// The text of a child.
pub(crate) fn text_of_child(nodes: &Vec<XmlNode>, parent: usize, name: &str) -> (r: Option<String>)
    ensures
        string_view(r) == child_text(nodes_view(nodes@), parent as int, name@),
{
    match find_child(nodes, parent, name) {
        Some(i) => text_of_node(&nodes[i]),
        None => None,
    }
}

/// The text of a grandchild.
pub(crate) fn text_of_nested(nodes: &Vec<XmlNode>, parent: usize, outer: &str, name: &str) -> (r: Option<
    String,
>)
    ensures
        string_view(r) == nested_text(nodes_view(nodes@), parent as int, outer@, name@),
{
    match find_child(nodes, parent, outer) {
        Some(i) => text_of_child(nodes, i, name),
        None => None,
    }
}

/// The text of the `value` of a grandchild.
pub(crate) fn value_of_nested(nodes: &Vec<XmlNode>, parent: usize, outer: &str, name: &str) -> (r: Option<
    String,
>)
    ensures
        string_view(r) == nested_value(nodes_view(nodes@), parent as int, outer@, name@),
{
    match find_child(nodes, parent, outer) {
        Some(i) => text_of_nested(nodes, i, name, "value"),
        None => None,
    }
}

/// Whether a child says yes.
pub(crate) fn says_yes(nodes: &Vec<XmlNode>, parent: usize, name: &str) -> (r: bool)
    ensures
        r == is_set(nodes_view(nodes@), parent as int, name@),
{
    match text_of_child(nodes, parent, name) {
        Some(text) => same(text.as_str(), "1") || same(text.as_str(), "true"),
        None => false,
    }
}

/// Whether a node stands somewhere under the node at `top`.
pub(crate) fn is_under(nodes: &Vec<XmlNode>, i: usize, top: usize) -> (r: bool)
    requires
        i < nodes@.len(),
    ensures
        r == stands_under(nodes_view(nodes@), i as int, top as int),
{
    let ghost all = nodes_view(nodes@);
    let mut at: usize = i;
    loop
        invariant
            at < nodes@.len(),
            all == nodes_view(nodes@),
            stands_under(all, i as int, top as int) == stands_under(all, at as int, top as int),
        decreases at,
    {
        assert(all[at as int] == nodes@[at as int]@);
        match nodes[at].parent {
            Some(parent) => {
                if parent == top {
                    return true;
                }
                if parent >= at {
                    return false;
                }
                at = parent;
            },
            None => return false,
        }
    }
}

/// The value of a node's first attribute of the given name.
pub(crate) fn attribute<'a>(node: &'a XmlNode, name: &str) -> (r: Option<&'a str>)
    ensures
        match r {
            Some(value) => attribute_of(node@.attributes, name@) == Some(value@),
            None => attribute_of(node@.attributes, name@) is None,
        },
{
    let ghost all = node@.attributes;
    let mut i: usize = 0;
    assert(all.skip(0) =~= all);
    while i < node.attributes.len()
        invariant
            i <= node.attributes@.len(),
            all == pairs_view(node.attributes@),
            attribute_of(all, name@) == attribute_of(all.skip(i as int), name@),
        decreases node.attributes@.len() - i,
    {
        assert(all.skip(i as int)[0] == all[i as int]);
        assert(all.skip(i as int).drop_first() =~= all.skip(i + 1));
        if same(node.attributes[i].0.as_str(), name) {
            return Some(node.attributes[i].1.as_str());
        }
        i += 1;
    }
    None
}

proof fn child_is_found_from(
    nodes: Seq<XmlNodeView>,
    parent: int,
    name: Seq<char>,
    from: int,
    i: int,
)
    requires
        0 <= from <= i < nodes.len(),
        is_child(nodes, i, parent, name),
        forall|k: int| from <= k < i ==> !#[trigger] is_child(nodes, k, parent, name),
    ensures
        child_from(nodes, parent, name, from) == Some(i),
    decreases i - from,
{
    if from < i {
        assert(!is_child(nodes, from, parent, name));
        child_is_found_from(nodes, parent, name, from + 1, i);
    }
}

proof fn no_child_is_found_from(nodes: Seq<XmlNodeView>, parent: int, name: Seq<char>, from: int)
    requires
        0 <= from <= nodes.len(),
        forall|k: int| from <= k < nodes.len() ==> !#[trigger] is_child(nodes, k, parent, name),
    ensures
        child_from(nodes, parent, name, from) is None,
    decreases nodes.len() - from,
{
    if from < nodes.len() {
        assert(!is_child(nodes, from, parent, name));
        no_child_is_found_from(nodes, parent, name, from + 1);
    }
}

/// Whether a node is the first element of its name under a node.
pub open spec fn is_first_child(
    nodes: Seq<XmlNodeView>,
    i: int,
    parent: usize,
    name: Seq<char>,
) -> bool {
    &&& 0 <= i < nodes.len()
    &&& nodes[i].parent == Some(parent)
    &&& nodes[i].name == name
    &&& forall|k: int|
        0 <= k < i ==> (#[trigger] nodes[k]).parent != Some(parent) || nodes[k].name != name
}

/// A child is found by its parent and its name, wherever it stands, and the
/// first of them; nothing is found where there is none.
pub proof fn children_are_found(nodes: Seq<XmlNodeView>, i: int, parent: usize, name: Seq<char>)
    ensures
        is_first_child(nodes, i, parent, name) ==> child_of(nodes, parent as int, name) == Some(i),
        (forall|k: int|
            0 <= k < nodes.len() ==> (#[trigger] nodes[k]).parent != Some(parent) || nodes[k].name
                != name) ==> child_of(nodes, parent as int, name) is None,
{
    if is_first_child(nodes, i, parent, name) {
        assert forall|k: int| 0 <= k < i implies !#[trigger] is_child(
            nodes,
            k,
            parent as int,
            name,
        ) by {
            assert(nodes[k].parent != Some(parent) || nodes[k].name != name);
        }
        child_is_found_from(nodes, parent as int, name, 0, i);
    }
    if forall|k: int|
        0 <= k < nodes.len() ==> (#[trigger] nodes[k]).parent != Some(parent) || nodes[k].name
            != name {
        assert forall|k: int| 0 <= k < nodes.len() implies !#[trigger] is_child(
            nodes,
            k,
            parent as int,
            name,
        ) by {
            assert(nodes[k].parent != Some(parent) || nodes[k].name != name);
        }
        no_child_is_found_from(nodes, parent as int, name, 0);
    }
}

/// The text of a node is read without the white space around it, and not at all
/// where nothing is left.
pub proof fn texts_are_read_trimmed(
    node: XmlNodeView,
    front: Seq<char>,
    core: Seq<char>,
    back: Seq<char>,
)
    requires
        node.text == Some(front + core + back),
        forall|k: int| 0 <= k < front.len() ==> is_white_space(#[trigger] front[k]),
        forall|k: int| 0 <= k < back.len() ==> is_white_space(#[trigger] back[k]),
        core.len() > 0 ==> !is_white_space(core[0]) && !is_white_space(core.last()),
    ensures
        core.len() > 0 ==> node_text(node) == Some(core),
        core.len() == 0 ==> node_text(node) is None,
{
    trimming_leaves_the_core(front, core, back);
}

/// Texts further down are read along the first element of each name.
pub proof fn nested_texts_are_read_along_the_path(
    nodes: Seq<XmlNodeView>,
    top: usize,
    outer: Seq<char>,
    i: usize,
    inner: Seq<char>,
    j: usize,
    k: int,
)
    requires
        is_first_child(nodes, i as int, top, outer),
        is_first_child(nodes, j as int, i, inner),
    ensures
        child_text(nodes, top as int, outer) == node_text(nodes[i as int]),
        nested_text(nodes, top as int, outer, inner) == node_text(nodes[j as int]),
        is_first_child(nodes, k, j, "value"@) ==> nested_value(nodes, top as int, outer, inner)
            == node_text(nodes[k]),
        is_set(nodes, top as int, outer) <==> (node_text(nodes[i as int]) == Some("1"@)
            || node_text(nodes[i as int]) == Some("true"@)),
{
    children_are_found(nodes, i as int, top, outer);
    children_are_found(nodes, j as int, i, inner);
    children_are_found(nodes, k, j, "value"@);
}

/// A node stands under its parent and under everything that its parent stands
/// under, and under nothing else. Parents stand before their children.
pub proof fn nodes_stand_under_their_ancestors(
    nodes: Seq<XmlNodeView>,
    i: int,
    parent: usize,
    top: int,
)
    requires
        0 <= i < nodes.len(),
    ensures
        nodes[i].parent == Some(parent) ==> stands_under(nodes, i, parent as int),
        nodes[i].parent == Some(parent) && parent < i && top != parent ==> (stands_under(
            nodes,
            i,
            top,
        ) <==> stands_under(nodes, parent as int, top)),
        nodes[i].parent is None ==> !stands_under(nodes, i, top),
{
}

/// An attribute is found by its name, the first of them, and not where there is
/// none.
pub proof fn attributes_are_found(
    attributes: Seq<(Seq<char>, Seq<char>)>,
    i: int,
    name: Seq<char>,
)
    ensures
        0 <= i < attributes.len() && attributes[i].0 == name && (forall|k: int|
            0 <= k < i ==> (#[trigger] attributes[k]).0 != name) ==> attribute_of(attributes, name)
            == Some(attributes[i].1),
        (forall|k: int| 0 <= k < attributes.len() ==> (#[trigger] attributes[k]).0 != name)
            ==> attribute_of(attributes, name) is None,
    decreases attributes.len(),
{
    if attributes.len() > 0 {
        let rest = attributes.drop_first();
        attributes_are_found(rest, i - 1, name);
        if forall|k: int| 0 <= k < attributes.len() ==> (#[trigger] attributes[k]).0 != name {
            assert forall|k: int| 0 <= k < rest.len() implies (#[trigger] rest[k]).0 != name by {
                assert(rest[k] == attributes[k + 1]);
            }
            assert(attributes[0].0 != name);
        }
        if 0 < i < attributes.len() && attributes[i].0 == name && (forall|k: int|
            0 <= k < i ==> (#[trigger] attributes[k]).0 != name) {
            assert forall|k: int| 0 <= k < i - 1 implies (#[trigger] rest[k]).0 != name by {
                assert(rest[k] == attributes[k + 1]);
            }
            assert(attributes[0].0 != name);
            assert(rest[i - 1] == attributes[i]);
        }
    }
}

} // verus!
