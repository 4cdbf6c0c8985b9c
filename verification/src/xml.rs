use roxmltree::{Document, Node};
use vstd::prelude::*;

verus! {

/// A parsed XML document of `roxmltree`. Nothing of its inside is known
/// here.
#[verifier::external_type_specification]
#[verifier::external_body]
pub struct ExDocument<'input>(Document<'input>);

/// A node of a parsed XML document of `roxmltree`. Nothing of its inside is
/// known here.
#[verifier::external_type_specification]
#[verifier::external_body]
pub struct ExNode<'a, 'input: 'a>(Node<'a, 'input>);

/// A document as contracts speak of it: for how long it lives is of no
/// account there.
pub type XmlDocument = Document<'static>;

/// A node as contracts speak of it.
pub type XmlNode = Node<'static, 'static>;

/// The nodes that `Document::descendants` hands out for a document.
pub uninterp spec fn document_nodes(doc: XmlDocument) -> Seq<XmlNode>;

/// The nodes that `Node::children` hands out for a node.
pub uninterp spec fn node_children(node: XmlNode) -> Seq<XmlNode>;

/// What `Node::is_element` says of a node.
pub uninterp spec fn node_is_element(node: XmlNode) -> bool;

/// What `Node::has_tag_name` says of a node and a name.
pub uninterp spec fn node_has_tag_name(node: XmlNode, name: Seq<char>) -> bool;

/// What `Node::attribute` gives for a node and a name.
pub uninterp spec fn node_attribute(node: XmlNode, name: Seq<char>) -> Option<Seq<char>>;

/// What `Node::text` gives for a node.
pub uninterp spec fn node_text(node: XmlNode) -> Option<Seq<char>>;

/// The names and values that `Node::attributes` hands out for a node.
pub uninterp spec fn node_attributes(node: XmlNode) -> Seq<(Seq<char>, Seq<char>)>;

/// The characters of a string that may be missing.
pub open spec fn opt_view(text: Option<String>) -> Option<Seq<char>> {
    match text {
        Some(s) => Some(s@),
        None => None,
    }
}

/// The characters of the strings of a list of pairs.
pub open spec fn pair_views(pairs: Seq<(String, String)>) -> Seq<(Seq<char>, Seq<char>)> {
    Seq::new(pairs.len(), |i: int| (pairs[i].0@, pairs[i].1@))
}

/// `Document::descendants`: the nodes of the document, in document order.
/// The document does not change, so that the same document gives the same
/// nodes; nothing else is claimed of them.
#[verifier::external_body]
pub(crate) fn descendants<'a, 'input>(doc: &'a Document<'input>) -> (r: Vec<Node<'a, 'input>>)
    ensures
        r@ == document_nodes(*doc),
{
    doc.descendants().collect()
}

/// `Node::children`: the children of the node, in document order. The same
/// node gives the same children; nothing else is claimed of them.
#[verifier::external_body]
pub(crate) fn children<'a, 'input>(node: &Node<'a, 'input>) -> (r: Vec<Node<'a, 'input>>)
    ensures
        r@ == node_children(*node),
{
    node.children().collect()
}

/// `Node::is_element`: whether the node is an element. The same node gives
/// the same answer; nothing else is claimed of it.
#[verifier::external_body]
pub(crate) fn is_element<'a, 'input>(node: &Node<'a, 'input>) -> (r: bool)
    ensures
        r == node_is_element(*node),
{
    node.is_element()
}

/// `Node::has_tag_name`: whether the node is an element with the local name
/// `name`. The same node and name give the same answer; nothing else is
/// claimed of it.
#[verifier::external_body]
pub(crate) fn has_tag_name<'a, 'input>(node: &Node<'a, 'input>, name: &str) -> (r: bool)
    ensures
        r == node_has_tag_name(*node, name@),
{
    node.has_tag_name(name)
}

/// `Node::attribute`: the value of the attribute `name` of the node, if it
/// has one. The same node and name give the same answer; nothing else is
/// claimed of it.
#[verifier::external_body]
pub(crate) fn attribute<'a, 'input>(node: &Node<'a, 'input>, name: &str) -> (r: Option<String>)
    ensures
        opt_view(r) == node_attribute(*node, name@),
{
    node.attribute(name).map(|value| value.to_string())
}

/// `Node::text`: the text of the node: of an element, its first child where
/// that is text. The same node gives the same answer; nothing else is
/// claimed of it.
#[verifier::external_body]
pub(crate) fn text<'a, 'input>(node: &Node<'a, 'input>) -> (r: Option<String>)
    ensures
        opt_view(r) == node_text(*node),
{
    node.text().map(|value| value.to_string())
}

/// `Node::attributes`: the attributes of the node in their order, each as
/// its local name and its value. The same node gives the same attributes;
/// nothing else is claimed of them.
#[verifier::external_body]
pub(crate) fn attributes<'a, 'input>(node: &Node<'a, 'input>) -> (r: Vec<(String, String)>)
    ensures
        pair_views(r@) == node_attributes(*node),
{
    node.attributes().map(|a| (a.name().to_string(), a.value().to_string())).collect()
}

} // verus!
