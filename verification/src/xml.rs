//! A parsed XML document, as the list of its nodes in document order.
use vstd::prelude::*;

use crate::bytes::str_eq;
use crate::s3_error;

verus! {

broadcast use vstd::std_specs::vec::group_vec_axioms;

/// The error of `roxmltree` on a text that is not a well-formed XML document
#[verifier::external_type_specification]
#[verifier::external_body]
pub struct ExXmlError(roxmltree::Error);

/// A node of an XML document
#[derive(Debug, PartialEq, Eq)]
pub struct XmlNode {
    /// The index of the parent node in the list of nodes; only the root of
    /// the document has none
    pub parent: Option<usize>,
    /// Whether the node is an element
    pub is_element: bool,
    /// The local name of an element, without its namespace; empty for other
    /// nodes
    pub name: String,
    /// The text of the node: for an element, that of its first child if it
    /// is a text node; for a text or comment node, its own text; none for
    /// the others
    pub text: Option<String>,
}

/// The mathematical value of an `XmlNode`.
pub struct XmlNodeView {
    pub parent: Option<usize>,
    pub is_element: bool,
    pub name: Seq<char>,
    pub text: Option<Seq<char>>,
}

impl View for XmlNode {
    type V = XmlNodeView;

    open spec fn view(&self) -> XmlNodeView {
        XmlNodeView {
            parent: self.parent,
            is_element: self.is_element,
            name: self.name@,
            text: match self.text {
                Some(t) => Some(t@),
                None => None,
            },
        }
    }
}

/// The views of a list of nodes.
pub open spec fn node_views(s: Seq<XmlNode>) -> Seq<XmlNodeView> {
    s.map_values(|n: XmlNode| n@)
}

/// The nodes of the XML document that `text` holds, as `roxmltree` parses
/// it, in document order, the root of the document first; none if `text` is
/// not a well-formed XML document.
pub uninterp spec fn xml_document_nodes(text: Seq<char>) -> Option<Seq<XmlNodeView>>;

/// `roxmltree::Document::parse`, with the nodes of the document listed as
/// `Document::descendants` walks them: the result is the list of nodes that
/// `text` holds, or an error if it is not a well-formed XML document.
#[verifier::external_body]
fn parse_document(text: &str) -> (r: Result<Vec<XmlNode>, roxmltree::Error>)
    ensures
        match xml_document_nodes(text@) {
            Some(nodes) => r matches Ok(v) && node_views(v@) == nodes,
            None => r is Err,
        },
{
    let doc = roxmltree::Document::parse(text)?;
    Ok(doc.descendants().map(|n| XmlNode {
        parent: n.parent().map(|p| p.id().get_usize()),
        is_element: n.is_element(),
        name: n.tag_name().name().to_string(),
        text: n.text().map(|t| t.to_string()),
    }).collect())
}

/// The `Display` text of a `roxmltree` error, which says what is wrong
/// with the document and where; nothing is stated of it.
#[verifier::external_body]
fn xml_error_message(e: &roxmltree::Error) -> (r: String) {
    format!("{}", e)
}

/// Read an XML document: its nodes, in document order, the root of the
/// document first; `InvalidXml` if it is not a well-formed XML document.
pub fn parse_xml(text: &str) -> (r: Result<Vec<XmlNode>, s3_error::S3Error>)
    ensures
        match xml_document_nodes(text@) {
            Some(nodes) => r matches Ok(v) && node_views(v@) == nodes,
            None => r matches Err(s3_error::S3Error::InvalidXml(_)),
        },
{
    match parse_document(text) {
        Ok(nodes) => Ok(nodes),
        Err(e) => Err(s3_error::S3Error::InvalidXml(xml_error_message(&e))),
    }
}

/// Whether node `n` is an element child of node `parent`, with the given
/// name if there is one.
pub open spec fn is_child_element(n: XmlNodeView, parent: usize, name: Option<Seq<char>>) -> bool {
    &&& n.parent == Some(parent)
    &&& n.is_element
    &&& match name {
        Some(s) => n.name == s,
        None => true,
    }
}

/// The index of the first element child of node `parent`, with the given
/// name if there is one, among the nodes from index `start` on.
pub open spec fn first_child_from(
    nodes: Seq<XmlNodeView>,
    parent: usize,
    name: Option<Seq<char>>,
    start: int,
) -> Option<int>
    decreases nodes.len() - start,
{
    if start >= nodes.len() {
        None
    } else if is_child_element(nodes[start], parent, name) {
        Some(start)
    } else {
        first_child_from(nodes, parent, name, start + 1)
    }
}

/// The index of the first element child of node `parent`, with the given
/// name if there is one.
pub open spec fn first_child(nodes: Seq<XmlNodeView>, parent: usize, name: Option<Seq<char>>) -> Option<int> {
    first_child_from(nodes, parent, name, 0)
}

proof fn lemma_first_child_from(nodes: Seq<XmlNodeView>, parent: usize, name: Option<Seq<char>>, start: int)
    requires
        0 <= start,
    ensures
        first_child_from(nodes, parent, name, start) matches Some(i) ==> start <= i < nodes.len()
            && is_child_element(nodes[i], parent, name),
    decreases nodes.len() - start,
{
    if start < nodes.len() && !is_child_element(nodes[start], parent, name) {
        lemma_first_child_from(nodes, parent, name, start + 1);
    }
}

/// The first element child of a node, with the given name if there is one.
pub fn find_child(nodes: &Vec<XmlNode>, parent: usize, name: Option<&str>) -> (r: Option<usize>)
    ensures
        match first_child(
            node_views(nodes@),
            parent,
            match name {
                Some(s) => Some(s@),
                None => None,
            },
        ) {
            Some(i) => r matches Some(k) && k == i && i < nodes@.len(),
            None => r is None,
        },
{
    let ghost v = node_views(nodes@);
    let ghost n = match name {
        Some(s) => Some(s@),
        None => None,
    };
    let mut i: usize = 0;
    while i < nodes.len()
        invariant
            i <= nodes@.len(),
            v == node_views(nodes@),
            n == match name {
                Some(s) => Some(s@),
                None => None::<Seq<char>>,
            },
            first_child_from(v, parent, n, 0) == first_child_from(v, parent, n, i as int),
        decreases nodes@.len() - i,
    {
        let node = &nodes[i];
        assert(v[i as int] == node@);
        let named = match name {
            Some(s) => str_eq(node.name.as_str(), s),
            None => true,
        };
        let is_child = match node.parent {
            Some(p) => p == parent,
            None => false,
        };
        if is_child && node.is_element && named {
            proof {
                lemma_first_child_from(v, parent, n, 0);
            }
            return Some(i);
        }
        i = i + 1;
    }
    proof {
        lemma_first_child_from(v, parent, n, 0);
    }
    None
}

/// Whether a character has the Unicode `White_Space` property, as
/// `char::is_whitespace` says.
pub open spec fn is_white_space(c: char) -> bool {
    let x = c as u32;
    ||| 0x09 <= x <= 0x0d
    ||| x == 0x20
    ||| x == 0x85
    ||| x == 0xa0
    ||| x == 0x1680
    ||| 0x2000 <= x <= 0x200a
    ||| x == 0x2028
    ||| x == 0x2029
    ||| x == 0x202f
    ||| x == 0x205f
    ||| x == 0x3000
}

/// Whether a text is made of white space only, so that trimming it leaves
/// nothing.
pub open spec fn blank(s: Seq<char>) -> bool {
    forall|i: int| 0 <= i < s.len() ==> is_white_space(#[trigger] s[i])
}

/// Whether a text is made of white space only, so that trimming it leaves
/// nothing.
pub fn is_blank(s: &str) -> (r: bool)
    ensures
        r == blank(s@),
{
    broadcast use vstd::string::axiom_spec_iter;

    let mut blank = true;
    for c in it: s.chars()
        invariant
            blank == forall|i: int| 0 <= i < it.index() ==> is_white_space(#[trigger] it.seq()[i]),
    {
        let x = c as u32;
        let w = (0x09 <= x && x <= 0x0d) || x == 0x20 || x == 0x85 || x == 0xa0 || x == 0x1680
            || (0x2000 <= x && x <= 0x200a) || x == 0x2028 || x == 0x2029 || x == 0x202f
            || x == 0x205f || x == 0x3000;
        blank = blank && w;
    }
    blank
}

} // verus!
