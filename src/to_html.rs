use vstd::prelude::*;
use vstd::string::*;
use crate::ast::{AstNode, NodeV, node_view};
use crate::token::HeadingLevel;

verus! {

/// The views of a sequence of nodes.
pub open spec fn nodes_view(ns: Seq<AstNode>) -> Seq<NodeV> {
    ns.map_values(|n: AstNode| node_view(n))
}

/// The opening tag of a heading of the given rank.
pub open spec fn heading_open(l: HeadingLevel) -> Seq<char> {
    match l {
        HeadingLevel::H1 => "<h1>"@,
        HeadingLevel::H2 => "<h2>"@,
        HeadingLevel::H3 => "<h3>"@,
        HeadingLevel::H4 => "<h4>"@,
        HeadingLevel::H5 => "<h5>"@,
        HeadingLevel::H6 => "<h6>"@,
    }
}

/// The closing tag of a heading of the given rank.
pub open spec fn heading_close(l: HeadingLevel) -> Seq<char> {
    match l {
        HeadingLevel::H1 => "</h1>"@,
        HeadingLevel::H2 => "</h2>"@,
        HeadingLevel::H3 => "</h3>"@,
        HeadingLevel::H4 => "</h4>"@,
        HeadingLevel::H5 => "</h5>"@,
        HeadingLevel::H6 => "</h6>"@,
    }
}

/// The markup of a footnote reference with the given label.
pub open spec fn note_reference_html(label: Seq<char>) -> Seq<char> {
    "<sup id='ref-"@ + label + "'><a href='#note-"@ + label + "'>["@ + label + "]</a></sup>"@
}

/// The markup of a footnote definition with the given label and content.
pub open spec fn note_definition_html(label: Seq<char>, content: Seq<char>) -> Seq<char> {
    "<p id='note-"@ + label + "'><sup>"@ + label + "</sup>: "@ + content + " <a href='#ref-"@
        + label + "'>&#8617;</a></p>"@
}

/// The markup of one node, without any list wrapper.
pub open spec fn node_html(n: NodeV) -> Seq<char>
    decreases n, 0nat,
{
    match n {
        NodeV::Heading(l, t) => heading_open(l) + t + heading_close(l),
        NodeV::BlockQuotes(t) => "<blockquote>"@ + t + "</blockquote>"@,
        NodeV::Lists(t) => "<li>"@ + t + "</li>"@,
        NodeV::Bold(t) => "<b>"@ + t + "</b>"@,
        NodeV::Italic(t) => "<i>"@ + t + "</i>"@,
        NodeV::Text(t) => t,
        NodeV::NoteReference(l) => note_reference_html(l),
        NodeV::NoteDefinition(l, c) => note_definition_html(l, c),
        NodeV::Paragraph(c) => "<p>"@ + html_prefix(c, c.len()) + "</p>"@,
    }
}

/// Whether the node at `i` is a list item.
pub open spec fn is_item_at(ns: Seq<NodeV>, i: int) -> bool {
    0 <= i < ns.len() && ns[i] is Lists
}

/// The markup of the node at `i` in its sequence: a run of consecutive list
/// items opens `<ul>` before its first item and closes it after its last.
pub open spec fn html_at(ns: Seq<NodeV>, i: int) -> Seq<char>
    recommends
        0 <= i < ns.len(),
    decreases ns, 0nat,
{
    if 0 <= i < ns.len() {
        (if is_item_at(ns, i) && !is_item_at(ns, i - 1) { "<ul>"@ } else { Seq::empty() })
            + node_html(ns[i])
            + (if is_item_at(ns, i) && !is_item_at(ns, i + 1) { "</ul>"@ } else { Seq::empty() })
    } else {
        Seq::empty()
    }
}

/// The markup of the first `k` nodes of `ns`.
pub open spec fn html_prefix(ns: Seq<NodeV>, k: nat) -> Seq<char>
    decreases ns, k + 1,
{
    if k == 0 || k > ns.len() {
        Seq::empty()
    } else {
        html_prefix(ns, (k - 1) as nat) + html_at(ns, k - 1)
    }
}

/// The markup of a whole sequence of nodes.
pub open spec fn render(ns: Seq<NodeV>) -> Seq<char> {
    html_prefix(ns, ns.len())
}

fn append_heading_open(r: &mut String, l: HeadingLevel)
    ensures
        final(r)@ == old(r)@ + heading_open(l),
{
    match l {
        HeadingLevel::H1 => r.append("<h1>"),
        HeadingLevel::H2 => r.append("<h2>"),
        HeadingLevel::H3 => r.append("<h3>"),
        HeadingLevel::H4 => r.append("<h4>"),
        HeadingLevel::H5 => r.append("<h5>"),
        HeadingLevel::H6 => r.append("<h6>"),
    }
}

fn append_heading_close(r: &mut String, l: HeadingLevel)
    ensures
        final(r)@ == old(r)@ + heading_close(l),
{
    match l {
        HeadingLevel::H1 => r.append("</h1>"),
        HeadingLevel::H2 => r.append("</h2>"),
        HeadingLevel::H3 => r.append("</h3>"),
        HeadingLevel::H4 => r.append("</h4>"),
        HeadingLevel::H5 => r.append("</h5>"),
        HeadingLevel::H6 => r.append("</h6>"),
    }
}

/// Appends the markup of one node other than a list item or a paragraph.
fn append_leaf(r: &mut String, n: &AstNode)
    requires
        !(*n is Lists),
        !(*n is Paragraph),
    ensures
        final(r)@ == old(r)@ + node_html(node_view(*n)),
{
    match n {
        AstNode::Heading(l, t) => {
            append_heading_open(r, *l);
            r.append(t.as_str());
            append_heading_close(r, *l);
        },
        AstNode::BlockQuotes(t) => {
            r.append("<blockquote>");
            r.append(t.as_str());
            r.append("</blockquote>");
        },
        AstNode::Bold(t) => {
            r.append("<b>");
            r.append(t.as_str());
            r.append("</b>");
        },
        AstNode::Italic(t) => {
            r.append("<i>");
            r.append(t.as_str());
            r.append("</i>");
        },
        AstNode::Text(t) => {
            r.append(t.as_str());
        },
        AstNode::NoteReference(l) => {
            r.append("<sup id='ref-");
            r.append(l.as_str());
            r.append("'><a href='#note-");
            r.append(l.as_str());
            r.append("'>[");
            r.append(l.as_str());
            r.append("]</a></sup>");
        },
        AstNode::NoteDefinition(l, c) => {
            r.append("<p id='note-");
            r.append(l.as_str());
            r.append("'><sup>");
            r.append(l.as_str());
            r.append("</sup>: ");
            r.append(c.as_str());
            r.append(" <a href='#ref-");
            r.append(l.as_str());
            r.append("'>&#8617;</a></p>");
        },
        _ => {},
    }
}

/// Renders a sequence of nodes as HTML. Each run of consecutive list items is
/// wrapped once in `<ul>...</ul>`; a paragraph's children are rendered the
/// same way inside `<p>...</p>`. No text is escaped.
pub fn generate_html(ast: &[AstNode]) -> (r: String)
    ensures
        r@ == render(nodes_view(ast@)),
    decreases ast@,
{
    let ghost ns = nodes_view(ast@);
    let mut result = String::new();
    let mut is_in_list = false;
    let mut i: usize = 0;
    while i < ast.len()
        invariant
            ns == nodes_view(ast@),
            i <= ast.len(),
            result@ == html_prefix(ns, i as nat),
            is_in_list == is_item_at(ns, i - 1),
        decreases ast.len() - i,
    {
        let node = &ast[i];
        proof {
            reveal_with_fuel(html_prefix, 2);
            assert(ns[i as int] == node_view(*node));
            assert(html_prefix(ns, (i + 1) as nat) == html_prefix(ns, i as nat) + html_at(ns, i as int));
            if i + 1 < ast.len() {
                assert(ns[i + 1] == node_view(ast@[i + 1]));
            }
        }
        match node {
            AstNode::Lists(text) => {
                let ghost before = result@;
                if !is_in_list {
                    result.append("<ul>");
                }
                result.append("<li>");
                result.append(text.as_str());
                result.append("</li>");
                let last = i + 1 == ast.len() || !matches!(ast[i + 1], AstNode::Lists(_));
                if last {
                    result.append("</ul>");
                }
                assert(result@ =~= before + html_at(ns, i as int));
                is_in_list = true;
            },
            AstNode::Paragraph(children) => {
                let ghost before = result@;
                let inner = generate_html(children.as_slice());
                result.append("<p>");
                result.append(inner.as_str());
                result.append("</p>");
                let ghost pv = ns[i as int]->Paragraph_0;
                assert(pv =~= nodes_view(children@));
                assert(node_html(ns[i as int]) == "<p>"@ + inner@ + "</p>"@);
                assert(html_at(ns, i as int) =~= node_html(ns[i as int]));
                assert(result@ =~= before + html_at(ns, i as int));
                is_in_list = false;
            },
            _ => {
                let ghost before = result@;
                append_leaf(&mut result, node);
                assert(result@ =~= before + html_at(ns, i as int));
                is_in_list = false;
            },
        }
        i = i + 1;
    }
    result
}

/// Two list items in a row are wrapped in a single `<ul>` element that holds
/// both `<li>` elements.
pub proof fn lemma_adjacent_items_share_list(a: Seq<char>, b: Seq<char>)
    ensures
        render(seq![NodeV::Lists(a), NodeV::Lists(b)]) == "<ul>"@ + ("<li>"@ + a + "</li>"@) + ("<li>"@ + b
            + "</li>"@) + "</ul>"@,
{
    let ns = seq![NodeV::Lists(a), NodeV::Lists(b)];
    reveal_with_fuel(html_prefix, 3);
    assert(html_at(ns, 0) =~= "<ul>"@ + ("<li>"@ + a + "</li>"@));
    assert(html_at(ns, 1) =~= ("<li>"@ + b + "</li>"@) + "</ul>"@);
    assert(render(ns) =~= "<ul>"@ + ("<li>"@ + a + "</li>"@) + ("<li>"@ + b + "</li>"@) + "</ul>"@);
}

} // verus!
