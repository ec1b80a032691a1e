use vstd::prelude::*;

verus! {

/// The six heading ranks, from the largest (`H1`) to the smallest (`H6`).
#[derive(Copy, Clone, PartialEq, Eq, Structural, PartialOrd, Ord, Hash, Debug)]
pub enum HeadingLevel {
    H1,
    H2,
    H3,
    H4,
    H5,
    H6,
}

impl HeadingLevel {
    /// The rank as a number from 1 to 6.
    pub open spec fn rank(self) -> nat {
        match self {
            HeadingLevel::H1 => 1,
            HeadingLevel::H2 => 2,
            HeadingLevel::H3 => 3,
            HeadingLevel::H4 => 4,
            HeadingLevel::H5 => 5,
            HeadingLevel::H6 => 6,
        }
    }
}

/// A lexical unit of the source text.
#[derive(Clone, Debug, PartialEq)]
pub enum Token {
    Heading(HeadingLevel, String),
    Bold(String),
    Italic(String),
    Text(String),
    BlockQuotes(String),
    Lists(String),
    NoteDefinition(String, String),
}

/// The mathematical value of a token: its kind and its text as characters.
pub ghost enum TokenV {
    Heading(HeadingLevel, Seq<char>),
    Bold(Seq<char>),
    Italic(Seq<char>),
    Text(Seq<char>),
    BlockQuotes(Seq<char>),
    Lists(Seq<char>),
    NoteDefinition(Seq<char>, Seq<char>),
}

impl View for Token {
    type V = TokenV;

    open spec fn view(&self) -> TokenV {
        match self {
            Token::Heading(l, t) => TokenV::Heading(*l, t@),
            Token::Bold(t) => TokenV::Bold(t@),
            Token::Italic(t) => TokenV::Italic(t@),
            Token::Text(t) => TokenV::Text(t@),
            Token::BlockQuotes(t) => TokenV::BlockQuotes(t@),
            Token::Lists(t) => TokenV::Lists(t@),
            Token::NoteDefinition(l, c) => TokenV::NoteDefinition(l@, c@),
        }
    }
}

/// The views of a sequence of tokens.
pub open spec fn tokens_view(ts: Seq<Token>) -> Seq<TokenV> {
    ts.map_values(|t: Token| t@)
}

} // verus!
