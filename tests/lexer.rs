use md_to_html::lex::{lex, note_definition};
use md_to_html::token::{HeadingLevel, Token};

fn text(s: &str) -> String {
    s.to_string()
}

#[test]
fn test_lex() {
    let input = "\
        ## Heading 2\n\n> This is a blockquote.\n\nMore **bold** and __italic__ text.\n
        - List1\n
        - List2\n
        ### 注釈[^2]\n
        [^2]: 本文の語句や文章をとりあげてその意味を解説すること";

    let expected_output = vec![
        Token::Heading(HeadingLevel::H2, "Heading 2".to_string()),
        Token::BlockQuotes("This is a blockquote.".to_string()),
        Token::Text("More".to_string()),
        Token::Bold("bold".to_string()),
        Token::Text("and".to_string()),
        Token::Italic("italic".to_string()),
        Token::Text("text.".to_string()),
        Token::Lists("List1".to_string()),
        Token::Lists("List2".to_string()),
        Token::Heading(HeadingLevel::H3, "注釈[^2]".to_string()),
        Token::NoteDefinition(
            "2".to_string(),
            "本文の語句や文章をとりあげてその意味を解説すること".to_string(),
        ),
    ];

    assert_eq!(lex(input), expected_output);
}

#[test]
fn heading_two_lexes_to_one_token() {
    assert_eq!(lex("## Heading 2"), vec![Token::Heading(HeadingLevel::H2, text("Heading 2"))]);
}

#[test]
fn single_hash_is_first_rank() {
    assert_eq!(lex("# Heading 2"), vec![Token::Heading(HeadingLevel::H1, text("Heading 2"))]);
}

#[test]
fn long_hash_run_is_sixth_rank() {
    assert_eq!(lex("######## deep"), vec![Token::Heading(HeadingLevel::H6, text("deep"))]);
    assert_eq!(lex("##### five"), vec![Token::Heading(HeadingLevel::H5, text("five"))]);
}

#[test]
fn bare_hash_gives_empty_heading() {
    assert_eq!(lex("#"), vec![Token::Heading(HeadingLevel::H1, text(""))]);
}

#[test]
fn hash_inside_a_line_is_text() {
    assert_eq!(lex("C# rocks"), vec![Token::Text(text("C# rocks"))]);
}

#[test]
fn bold_pair_lexes_to_bold() {
    assert_eq!(lex("**bold**"), vec![Token::Bold(text("bold"))]);
}

#[test]
fn unterminated_bold_is_plain_text() {
    assert_eq!(lex("**bold"), vec![Token::Text(text("bold"))]);
}

#[test]
fn bold_span_crosses_lines() {
    assert_eq!(lex("**one\ntwo**"), vec![Token::Text(text("one")), Token::Bold(text("two"))]);
}

#[test]
fn single_underscore_opens_italic() {
    assert_eq!(lex("_word__"), vec![Token::Italic(text("word"))]);
}

#[test]
fn blockquote_lexes_to_quote() {
    assert_eq!(lex("> quoted text"), vec![Token::BlockQuotes(text("quoted text"))]);
}

#[test]
fn quote_flushes_text_before_it() {
    assert_eq!(
        lex("before > after"),
        vec![Token::Text(text("before")), Token::BlockQuotes(text("after"))]
    );
}

#[test]
fn list_lines_give_one_item_each() {
    assert_eq!(
        lex("- first\n+ second\n-   \n"),
        vec![Token::Lists(text("first")), Token::Lists(text("second"))]
    );
}

#[test]
fn footnote_line_lexes_to_definition() {
    assert_eq!(
        lex("[^2]: explanation"),
        vec![Token::NoteDefinition(text("2"), text("explanation"))]
    );
}

#[test]
fn footnote_label_is_longest_possible() {
    assert_eq!(
        note_definition(&"[^a]: b]: c".chars().collect()),
        Some((text("a]: b"), text("c")))
    );
    assert_eq!(note_definition(&"[^a]: ".chars().collect()), None);
    assert_eq!(note_definition(&"x [^a]: b".chars().collect()), None);
}

#[test]
fn empty_input_has_no_tokens() {
    assert_eq!(lex(""), Vec::<Token>::new());
    assert_eq!(lex("\n\n   \n"), Vec::<Token>::new());
}

#[test]
fn crlf_endings_are_removed() {
    assert_eq!(
        lex("# a\r\nb\r\n"),
        vec![Token::Heading(HeadingLevel::H1, text("a")), Token::Text(text("b"))]
    );
}
