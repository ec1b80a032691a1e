use md_to_html::ast::AstNode;
use md_to_html::lex::lex;
use md_to_html::parse::parse;
use md_to_html::text_to_token;
use md_to_html::to_html::generate_html;
use md_to_html::token::{HeadingLevel, Token};

fn text(s: &str) -> String {
    s.to_string()
}

#[test]
fn test_lex_and_parse() {
    let input = "\
# Hello, world!\n
> This is a blockquote\n
This is a **markdown** __parser__.";
    let expected_output = vec![
        AstNode::Heading(HeadingLevel::H1, "Hello, world!".to_string()),
        AstNode::BlockQuotes("This is a blockquote".to_string()),
        AstNode::Paragraph(vec![
            AstNode::Text("This is a".to_string()),
            AstNode::Bold("markdown".to_string()),
            AstNode::Italic("parser.".to_string()),
        ]),
    ];
    let tokens = lex(input);
    let output = parse(&tokens);
    assert_eq!(output, expected_output);
}

#[test]
fn heading_renders_with_its_rank() {
    assert_eq!(text_to_token("## Heading 2"), "<h2>Heading 2</h2>");
    assert_eq!(
        parse(&lex("## Heading 2")),
        vec![AstNode::Heading(HeadingLevel::H2, text("Heading 2"))]
    );
}

#[test]
fn bold_renders_as_b() {
    assert_eq!(generate_html(&[AstNode::Bold(text("bold"))]), "<b>bold</b>");
    assert_eq!(text_to_token("**bold**"), "<p><b>bold</b></p>");
}

#[test]
fn unterminated_bold_renders_as_text() {
    assert_eq!(text_to_token("**bold"), "<p>bold</p>");
}

#[test]
fn two_list_lines_share_one_list() {
    let html = text_to_token("- List1\n- List2");
    assert_eq!(html, "<ul><li>List1</li><li>List2</li></ul>");
    assert_eq!(html.matches("<ul>").count(), 1);
    assert_eq!(html.matches("<li>").count(), 2);
}

#[test]
fn list_closes_before_following_node() {
    assert_eq!(
        text_to_token("- a\ntext\n- b"),
        "<ul><li>a</li></ul><p>text</p><ul><li>b</li></ul>"
    );
}

#[test]
fn blockquote_renders_as_quote() {
    assert_eq!(text_to_token("> quoted text"), "<blockquote>quoted text</blockquote>");
}

#[test]
fn footnote_renders_with_back_link() {
    assert_eq!(
        text_to_token("[^2]: explanation"),
        "<p id='note-2'><sup>2</sup>: explanation <a href='#ref-2'>&#8617;</a></p>"
    );
}

#[test]
fn note_reference_renders_as_link() {
    assert_eq!(
        generate_html(&[AstNode::NoteReference(text("7"))]),
        "<sup id='ref-7'><a href='#note-7'>[7]</a></sup>"
    );
}

#[test]
fn every_heading_rank_renders() {
    let nodes = vec![
        AstNode::Heading(HeadingLevel::H3, text("c")),
        AstNode::Heading(HeadingLevel::H4, text("d")),
        AstNode::Heading(HeadingLevel::H5, text("e")),
        AstNode::Heading(HeadingLevel::H6, text("f")),
    ];
    assert_eq!(generate_html(&nodes), "<h3>c</h3><h4>d</h4><h5>e</h5><h6>f</h6>");
}

#[test]
fn html_output_is_not_a_fixed_point() {
    let once = text_to_token("**a**");
    assert_eq!(once, "<p><b>a</b></p>");
    let twice = text_to_token(&once);
    assert_ne!(twice, once);
}

#[test]
fn empty_input_renders_empty() {
    assert_eq!(text_to_token(""), "");
    assert_eq!(parse(&[]), Vec::<AstNode>::new());
}

#[test]
fn odd_inputs_still_render() {
    assert_eq!(text_to_token("#"), "<h1></h1>");
    assert_eq!(text_to_token("*"), "<p>*</p>");
    assert_eq!(text_to_token("_"), "");
    assert_eq!(text_to_token(">"), "<blockquote></blockquote>");
}

#[test]
fn second_bold_token_becomes_text() {
    let tokens = vec![Token::Bold(text("a")), Token::Bold(text("b"))];
    assert_eq!(
        parse(&tokens),
        vec![AstNode::Paragraph(vec![AstNode::Bold(text("a")), AstNode::Text(text("b"))])]
    );
}

#[test]
fn text_after_open_span_joins_it() {
    let tokens = vec![Token::Italic(text("x")), Token::Text(text("y")), Token::Text(text("z"))];
    assert_eq!(
        parse(&tokens),
        vec![AstNode::Paragraph(vec![AstNode::Italic(text("xy")), AstNode::Text(text("z"))])]
    );
}

#[test]
fn block_tokens_end_paragraphs() {
    let tokens = vec![
        Token::Text(text("p")),
        Token::NoteDefinition(text("1"), text("n")),
        Token::Text(text("q")),
    ];
    assert_eq!(
        parse(&tokens),
        vec![
            AstNode::Paragraph(vec![AstNode::Text(text("p"))]),
            AstNode::NoteDefinition(text("1"), text("n")),
            AstNode::Paragraph(vec![AstNode::Text(text("q"))]),
        ]
    );
}

#[test]
fn nested_paragraph_renders_children() {
    let nodes = vec![AstNode::Paragraph(vec![
        AstNode::Text(text("a ")),
        AstNode::Italic(text("b")),
        AstNode::Lists(text("c")),
    ])];
    assert_eq!(generate_html(&nodes), "<p>a <i>b</i><ul><li>c</li></ul></p>");
}
