use vstd::prelude::*;
use crate::token::HeadingLevel;

verus! {

/// A node of the document tree. A `Paragraph` owns its children.
#[derive(Debug, PartialEq)]
pub enum AstNode {
    Heading(HeadingLevel, String),
    Bold(String),
    Italic(String),
    Text(String),
    BlockQuotes(String),
    Lists(String),
    NoteReference(String),
    NoteDefinition(String, String),
    Paragraph(Vec<AstNode>),
}

/// The mathematical value of a node.
pub ghost enum NodeV {
    Heading(HeadingLevel, Seq<char>),
    Bold(Seq<char>),
    Italic(Seq<char>),
    Text(Seq<char>),
    BlockQuotes(Seq<char>),
    Lists(Seq<char>),
    NoteReference(Seq<char>),
    NoteDefinition(Seq<char>, Seq<char>),
    Paragraph(Seq<NodeV>),
}

/// The value of one node; a paragraph's children are taken in order.
pub open spec fn node_view(n: AstNode) -> NodeV
    decreases n,
{
    match n {
        AstNode::Heading(l, t) => NodeV::Heading(l, t@),
        AstNode::Bold(t) => NodeV::Bold(t@),
        AstNode::Italic(t) => NodeV::Italic(t@),
        AstNode::Text(t) => NodeV::Text(t@),
        AstNode::BlockQuotes(t) => NodeV::BlockQuotes(t@),
        AstNode::Lists(t) => NodeV::Lists(t@),
        AstNode::NoteReference(t) => NodeV::NoteReference(t@),
        AstNode::NoteDefinition(l, c) => NodeV::NoteDefinition(l@, c@),
        AstNode::Paragraph(v) => NodeV::Paragraph(
            Seq::new(v@.len(), |i: int| if 0 <= i < v@.len() { node_view(v@[i]) } else { NodeV::Text(Seq::empty()) }),
        ),
    }
}

impl View for AstNode {
    type V = NodeV;

    open spec fn view(&self) -> NodeV {
        node_view(*self)
    }
}

} // verus!
