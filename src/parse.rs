use vstd::prelude::*;
use vstd::string::*;
use crate::ast::{AstNode, NodeV, node_view};
use crate::to_html::nodes_view;
use crate::token::{Token, TokenV, tokens_view};

verus! {

/// The parser's state between two tokens: the finished top-level nodes, the
/// inline nodes of the paragraph being gathered, and the two span toggles.
pub ghost struct ParseState {
    pub done: Seq<NodeV>,
    pub para: Seq<NodeV>,
    pub bold: bool,
    pub italic: bool,
}

/// The finished nodes followed by the pending paragraph, if it has any node.
pub open spec fn flushed(done: Seq<NodeV>, para: Seq<NodeV>) -> Seq<NodeV> {
    if para.len() == 0 {
        done
    } else {
        done.push(NodeV::Paragraph(para))
    }
}

/// Ends the pending paragraph and appends a block-level node after it.
pub open spec fn with_block(st: ParseState, n: NodeV) -> ParseState {
    ParseState { done: flushed(st.done, st.para).push(n), para: Seq::empty(), ..st }
}

/// Whether a node is an emphasis span that a following text can extend.
pub open spec fn is_span(n: NodeV) -> bool {
    n is Bold || n is Italic
}

/// The span `n` with `t` appended to its content.
pub open spec fn extend_span(n: NodeV, t: Seq<char>) -> NodeV {
    match n {
        NodeV::Bold(s) => NodeV::Bold(s + t),
        NodeV::Italic(s) => NodeV::Italic(s + t),
        _ => n,
    }
}

/// The paragraph after a text token `t` arrives while a span toggle is on: the
/// text joins the span that ends the paragraph, or stands as text if none does.
pub open spec fn fold_text(para: Seq<NodeV>, t: Seq<char>) -> Seq<NodeV> {
    if para.len() > 0 && is_span(para.last()) {
        para.drop_last().push(extend_span(para.last(), t))
    } else {
        para.push(NodeV::Text(t))
    }
}

/// The effect of one token on the parser's state.
pub open spec fn parse_step(st: ParseState, t: TokenV) -> ParseState {
    match t {
        TokenV::Heading(l, s) => with_block(st, NodeV::Heading(l, s)),
        TokenV::BlockQuotes(s) => with_block(st, NodeV::BlockQuotes(s)),
        TokenV::Lists(s) => with_block(st, NodeV::Lists(s)),
        TokenV::NoteDefinition(l, c) => with_block(st, NodeV::NoteDefinition(l, c)),
        TokenV::Bold(s) => if !st.bold {
            ParseState { para: st.para.push(NodeV::Bold(s)), bold: true, ..st }
        } else {
            ParseState { para: st.para.push(NodeV::Text(s)), bold: false, ..st }
        },
        TokenV::Italic(s) => if !st.italic {
            ParseState { para: st.para.push(NodeV::Italic(s)), italic: true, ..st }
        } else {
            ParseState { para: st.para.push(NodeV::Text(s)), italic: false, ..st }
        },
        TokenV::Text(s) => if !st.bold && !st.italic {
            ParseState { para: st.para.push(NodeV::Text(s)), ..st }
        } else {
            ParseState { para: fold_text(st.para, s), bold: false, italic: false, ..st }
        },
    }
}

/// The parser's state after the first `k` tokens.
pub open spec fn parse_state(ts: Seq<TokenV>, k: nat) -> ParseState
    decreases k,
{
    if k == 0 || k > ts.len() {
        ParseState { done: Seq::empty(), para: Seq::empty(), bold: false, italic: false }
    } else {
        parse_step(parse_state(ts, (k - 1) as nat), ts[k - 1])
    }
}

/// The document tree of a whole token sequence.
pub open spec fn parse_spec(ts: Seq<TokenV>) -> Seq<NodeV> {
    let st = parse_state(ts, ts.len());
    flushed(st.done, st.para)
}

proof fn lemma_paragraph_view(v: Vec<AstNode>)
    ensures
        node_view(AstNode::Paragraph(v)) == NodeV::Paragraph(nodes_view(v@)),
{
    assert(node_view(AstNode::Paragraph(v))->Paragraph_0 =~= nodes_view(v@));
}

/// Moves the pending paragraph, if it has any node, to the finished nodes.
fn flush_paragraph(result: &mut Vec<AstNode>, para: &mut Vec<AstNode>)
    ensures
        nodes_view(final(result)@) == flushed(nodes_view(old(result)@), nodes_view(old(para)@)),
        final(para)@.len() == 0,
{
    if para.len() > 0 {
        let mut p: Vec<AstNode> = Vec::new();
        std::mem::swap(&mut p, para);
        proof {
            lemma_paragraph_view(p);
        }
        result.push(AstNode::Paragraph(p));
        assert(nodes_view(result@) =~= flushed(nodes_view(old(result)@), nodes_view(old(para)@)));
    } else {
        assert(nodes_view(old(para)@) =~= Seq::empty());
    }
}

/// Adds the text `t` that arrived while a span toggle was on to the paragraph.
fn push_folded_text(para: &mut Vec<AstNode>, t: &String)
    ensures
        nodes_view(final(para)@) == fold_text(nodes_view(old(para)@), t@),
{
    let ghost pv = nodes_view(para@);
    let last = para.pop();
    match last {
        Some(AstNode::Bold(s)) => {
            let mut joined = s;
            joined.append(t.as_str());
            para.push(AstNode::Bold(joined));
            assert(nodes_view(para@) =~= fold_text(pv, t@));
        },
        Some(AstNode::Italic(s)) => {
            let mut joined = s;
            joined.append(t.as_str());
            para.push(AstNode::Italic(joined));
            assert(nodes_view(para@) =~= fold_text(pv, t@));
        },
        Some(n) => {
            para.push(n);
            para.push(AstNode::Text(t.clone()));
            assert(nodes_view(para@) =~= fold_text(pv, t@));
        },
        None => {
            para.push(AstNode::Text(t.clone()));
            assert(nodes_view(para@) =~= fold_text(pv, t@));
        },
    }
}

/// Builds the document tree of a token sequence. Inline tokens are gathered
/// into paragraphs; a heading, quote, list item or note definition ends the
/// pending paragraph and stands at the top level.
pub fn parse(tokens: &[Token]) -> (r: Vec<AstNode>)
    ensures
        nodes_view(r@) == parse_spec(tokens_view(tokens@)),
{
    let ghost ts = tokens_view(tokens@);
    let mut result: Vec<AstNode> = Vec::new();
    let mut current_paragraph: Vec<AstNode> = Vec::new();
    let mut in_bold = false;
    let mut in_italic = false;
    let mut i: usize = 0;
    while i < tokens.len()
        invariant
            ts == tokens_view(tokens@),
            i <= tokens.len(),
            nodes_view(result@) == parse_state(ts, i as nat).done,
            nodes_view(current_paragraph@) == parse_state(ts, i as nat).para,
            in_bold == parse_state(ts, i as nat).bold,
            in_italic == parse_state(ts, i as nat).italic,
        decreases tokens.len() - i,
    {
        let ghost st = parse_state(ts, i as nat);
        let ghost pv = nodes_view(current_paragraph@);
        let ghost rv = nodes_view(result@);
        assert(ts[i as int] == tokens@[i as int]@);
        match &tokens[i] {
            Token::Heading(level, text) => {
                flush_paragraph(&mut result, &mut current_paragraph);
                result.push(AstNode::Heading(*level, text.clone()));
                assert(nodes_view(result@) =~= flushed(rv, pv).push(NodeV::Heading(*level, text@)));
            },
            Token::BlockQuotes(text) => {
                flush_paragraph(&mut result, &mut current_paragraph);
                result.push(AstNode::BlockQuotes(text.clone()));
                assert(nodes_view(result@) =~= flushed(rv, pv).push(NodeV::BlockQuotes(text@)));
            },
            Token::Lists(text) => {
                flush_paragraph(&mut result, &mut current_paragraph);
                result.push(AstNode::Lists(text.clone()));
                assert(nodes_view(result@) =~= flushed(rv, pv).push(NodeV::Lists(text@)));
            },
            Token::NoteDefinition(label, content) => {
                flush_paragraph(&mut result, &mut current_paragraph);
                result.push(AstNode::NoteDefinition(label.clone(), content.clone()));
                assert(nodes_view(result@) =~= flushed(rv, pv).push(
                    NodeV::NoteDefinition(label@, content@),
                ));
            },
            Token::Bold(text) => {
                if !in_bold {
                    current_paragraph.push(AstNode::Bold(text.clone()));
                    in_bold = true;
                    assert(nodes_view(current_paragraph@) =~= pv.push(NodeV::Bold(text@)));
                } else {
                    current_paragraph.push(AstNode::Text(text.clone()));
                    in_bold = false;
                    assert(nodes_view(current_paragraph@) =~= pv.push(NodeV::Text(text@)));
                }
            },
            Token::Italic(text) => {
                if !in_italic {
                    current_paragraph.push(AstNode::Italic(text.clone()));
                    in_italic = true;
                    assert(nodes_view(current_paragraph@) =~= pv.push(NodeV::Italic(text@)));
                } else {
                    current_paragraph.push(AstNode::Text(text.clone()));
                    in_italic = false;
                    assert(nodes_view(current_paragraph@) =~= pv.push(NodeV::Text(text@)));
                }
            },
            Token::Text(text) => {
                if !in_bold && !in_italic {
                    current_paragraph.push(AstNode::Text(text.clone()));
                    assert(nodes_view(current_paragraph@) =~= pv.push(NodeV::Text(text@)));
                } else {
                    push_folded_text(&mut current_paragraph, text);
                    in_bold = false;
                    in_italic = false;
                }
            },
        }
        i = i + 1;
    }
    flush_paragraph(&mut result, &mut current_paragraph);
    result
}

} // verus!
