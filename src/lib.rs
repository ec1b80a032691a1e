//! Converts a small subset of Markdown to HTML in three stages: a lexer from
//! text to tokens, a parser from tokens to a document tree, and a renderer
//! from the tree to markup.
use vstd::prelude::*;

pub mod ast;
pub mod lex;
pub mod parse;
pub mod text;
pub mod to_html;
pub mod token;

use crate::lex::{lex, lex_spec};
use crate::parse::{parse, parse_spec};
use crate::to_html::{generate_html, render};

verus! {

/// The markup of a whole document.
pub open spec fn convert_spec(s: Seq<char>) -> Seq<char> {
    render(parse_spec(lex_spec(s)))
}

/// Converts a document to HTML. Every text has a result: no input is refused.
pub fn text_to_token(input_text: &str) -> (r: String)
    ensures
        r@ == convert_spec(input_text@),
{
    let tokens = lex(input_text);
    let ast = parse(tokens.as_slice());
    generate_html(ast.as_slice())
}

} // verus!
