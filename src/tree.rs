use vstd::prelude::*;

use crate::attrs::AttrMap;

verus! {

/// One unit of the parsed tree: an element or a run of text, with its children.
#[derive(Debug, PartialEq)]
pub struct Node {
    pub node_type: NodeType,
    pub children: Vec<Node>,
}

/// What a node is.
#[derive(Debug, PartialEq)]
pub enum NodeType {
    Element(Element),
    Text(Text),
}

/// A tagged container: its tag name and its attributes.
#[derive(Debug, PartialEq)]
pub struct Element {
    pub tag_name: String,
    pub attributes: AttrMap,
}

/// Literal character data between two tags.
#[derive(Debug, PartialEq)]
pub struct Text {
    pub data: String,
}

/// Why a parse failed.
#[derive(Debug, PartialEq)]
pub enum ParseError {
    /// The input ended where more characters were required.
    UnexpectedEndOfInput,
    /// A character stood where the grammar forbids it.
    UnexpectedToken,
    /// A closing tag named another element: the opening name, then the closing one.
    TagMismatch(String, String),
    /// An attribute key was not followed by `=`.
    MalformedAttribute,
}

/// The mathematical value of a `NodeType`.
pub enum NodeTypeView {
    Element { tag_name: Seq<char>, attributes: Map<Seq<char>, Seq<char>> },
    Text { data: Seq<char> },
}

/// The mathematical value of a `Node`: the whole subtree.
pub struct NodeView {
    pub node_type: NodeTypeView,
    pub children: Seq<NodeView>,
}

/// The mathematical value of a `ParseError`.
pub enum ParseErrorView {
    UnexpectedEndOfInput,
    UnexpectedToken,
    TagMismatch(Seq<char>, Seq<char>),
    MalformedAttribute,
}

impl View for NodeType {
    type V = NodeTypeView;

    open spec fn view(&self) -> NodeTypeView {
        match self {
            NodeType::Element(e) => NodeTypeView::Element {
                tag_name: e.tag_name@,
                attributes: e.attributes@,
            },
            NodeType::Text(t) => NodeTypeView::Text { data: t.data@ },
        }
    }
}

/// The subtree that `n` holds.
pub open spec fn node_view(n: Node) -> NodeView
    decreases n,
{
    NodeView { node_type: n.node_type@, children: nodes_view(n.children@) }
}

/// The subtrees that a sequence of nodes holds, in order.
pub open spec fn nodes_view(s: Seq<Node>) -> Seq<NodeView>
    decreases s,
{
    if s.len() == 0 {
        Seq::empty()
    } else {
        nodes_view(s.subrange(0, s.len() - 1)).push(node_view(s[s.len() - 1]))
    }
}

impl View for Node {
    type V = NodeView;

    open spec fn view(&self) -> NodeView {
        node_view(*self)
    }
}

impl View for ParseError {
    type V = ParseErrorView;

    open spec fn view(&self) -> ParseErrorView {
        match self {
            ParseError::UnexpectedEndOfInput => ParseErrorView::UnexpectedEndOfInput,
            ParseError::UnexpectedToken => ParseErrorView::UnexpectedToken,
            ParseError::TagMismatch(a, b) => ParseErrorView::TagMismatch(a@, b@),
            ParseError::MalformedAttribute => ParseErrorView::MalformedAttribute,
        }
    }
}

/// A text node holding `data`, with no children.
pub open spec fn text_node(data: Seq<char>) -> NodeView {
    NodeView { node_type: NodeTypeView::Text { data }, children: Seq::empty() }
}

/// An element node.
pub open spec fn element_node(
    tag_name: Seq<char>,
    attributes: Map<Seq<char>, Seq<char>>,
    children: Seq<NodeView>,
) -> NodeView {
    NodeView { node_type: NodeTypeView::Element { tag_name, attributes }, children }
}

} // verus!
