//! A plain-value model of a parsed XML document, together with the
//! trusted boundary to the `roxmltree` crate that produces it.
//!
//! The verified feed logic never touches `roxmltree`'s borrowing tree
//! directly: `parse_document` turns the raw text into an [`XmlElement`]
//! tree of owned strings and vectors, and everything downstream is
//! verified against that tree.

use vstd::prelude::*;

verus! {

/// One attribute of an element, under its local (unprefixed) name.
pub struct XmlAttr {
    pub name: String,
    pub value: String,
}

/// One namespace declaration in scope on an element: a prefix
/// (`None` for the default namespace) bound to a URI.
pub struct NsDecl {
    pub prefix: Option<String>,
    pub uri: String,
}

/// One XML element as plain values: its resolved namespace URI and
/// local name, its attributes, its text (the first text child, if
/// any), the namespace declarations in scope, and its element
/// children in document order.
pub struct XmlElement {
    pub ns: Option<String>,
    pub name: String,
    pub attrs: Vec<XmlAttr>,
    pub text: Option<String>,
    pub ns_decls: Vec<NsDecl>,
    pub children: Vec<XmlElement>,
}

#[verifier::external_type_specification]
#[verifier::external_body]
pub struct ExNode<'a, 'input: 'a>(roxmltree::Node<'a, 'input>);

/// What parsing a feed body yields: the root element of the document
/// as plain values, or `None` for text that is not well-formed XML.
/// This is the result of `roxmltree::Document::parse` — a function of
/// the text alone — carried over by [`element_of_node`]; it is pinned
/// only by the contract of [`parse_document`].
pub uninterp spec fn xml_root_of(s: Seq<char>) -> Option<XmlElement>;

/// Relies on `roxmltree::Node::children`: the node's direct children
/// in document order.
#[verifier::external_body]
fn node_children<'a, 'i>(n: &roxmltree::Node<'a, 'i>) -> Vec<roxmltree::Node<'a, 'i>> {
    n.children().collect()
}

/// Relies on `roxmltree::Node::is_element`.
#[verifier::external_body]
fn node_is_element(n: &roxmltree::Node<'_, '_>) -> bool {
    n.is_element()
}

/// Relies on `roxmltree::Node::tag_name` and `ExpandedName::name`:
/// the element's local name.
#[verifier::external_body]
fn node_local_name(n: &roxmltree::Node<'_, '_>) -> String {
    n.tag_name().name().to_string()
}

/// Relies on `roxmltree::Node::tag_name` and `ExpandedName::namespace`:
/// the element's resolved namespace URI, if it has one.
#[verifier::external_body]
fn node_ns_uri(n: &roxmltree::Node<'_, '_>) -> Option<String> {
    n.tag_name().namespace().map(|u| u.to_string())
}

/// Relies on `roxmltree::Node::attributes` and the `Attribute`
/// accessors: each attribute's local name and value, in order.
#[verifier::external_body]
fn node_attributes(n: &roxmltree::Node<'_, '_>) -> Vec<XmlAttr> {
    n.attributes().map(|a| XmlAttr { name: a.name().to_string(), value: a.value().to_string() }).collect()
}

/// Relies on `roxmltree::Node::text`: for an element, the text of its
/// first child when that child is a text node.
#[verifier::external_body]
fn node_text(n: &roxmltree::Node<'_, '_>) -> Option<String> {
    n.text().map(|t| t.to_string())
}

/// Relies on `roxmltree::Node::namespaces` and the `Namespace`
/// accessors: the namespace declarations in scope on the element.
#[verifier::external_body]
fn node_namespaces(n: &roxmltree::Node<'_, '_>) -> Vec<NsDecl> {
    n.namespaces().map(|ns| NsDecl { prefix: ns.name().map(|p| p.to_string()), uri: ns.uri().to_string() }).collect()
}

/// Greatest element nesting depth accepted when converting a parsed
/// document into an [`XmlElement`] tree. Feed documents are a few
/// levels deep; anything beyond this bound is treated as malformed.
pub const MAX_XML_DEPTH: u32 = 64;

/// Converts one element node (and its element descendants, up to
/// `depth` levels) into the plain-value tree.
fn element_of_node(n: &roxmltree::Node<'_, '_>, depth: u32) -> Option<XmlElement>
    decreases depth,
{
    if depth == 0 {
        return None;
    }
    let kids = node_children(n);
    let mut children: Vec<XmlElement> = Vec::new();
    let mut i: usize = 0;
    while i < kids.len()
        invariant
            i <= kids@.len(),
            depth >= 1,
        decreases kids@.len() - i,
    {
        if node_is_element(&kids[i]) {
            match element_of_node(&kids[i], depth - 1) {
                Some(e) => children.push(e),
                None => {
                    return None;
                },
            }
        }
        i = i + 1;
    }
    Some(XmlElement {
        ns: node_ns_uri(n),
        name: node_local_name(n),
        attrs: node_attributes(n),
        text: node_text(n),
        ns_decls: node_namespaces(n),
        children,
    })
}

/// Parses raw feed text into the plain-value tree of its root
/// element: [`xml_root_of`] the text. Returns `None` when the text is
/// not well-formed XML (or nests elements beyond [`MAX_XML_DEPTH`]);
/// the caller treats that as a failed fetch cycle for this feed.
///
/// Relies on `roxmltree::Document::parse`, whose result depends on the
/// text alone; `Document::root_element` (the root element always
/// exists in a parsed document) hands its root to the conversion.
#[verifier::external_body]
pub fn parse_document(body: &str) -> (r: Option<XmlElement>)
    ensures
        r == xml_root_of(body@),
{
    match roxmltree::Document::parse(body) {
        Ok(doc) => element_of_node(&doc.root_element(), MAX_XML_DEPTH),
        Err(_) => None,
    }
}

} // verus!
