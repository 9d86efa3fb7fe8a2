//! The tokens that a schema is written in: identifiers, punctuation and
//! literals, with each delimited group spelled as an opening and a closing token.

use vstd::prelude::*;

verus! {

/// The bracket kind of a group.
#[derive(PartialEq, Eq, Structural, Clone, Copy, Debug)]
pub enum Delim {
    Paren,
    Brace,
    Bracket,
}

/// One token of schema text.
#[derive(Debug)]
pub enum Tok {
    /// An identifier, as written (a raw identifier keeps its `r#`).
    Ident(String),
    /// A single punctuation character.
    Punct(char),
    /// Any literal.
    Literal,
    /// The start of a group.
    Open(Delim),
    /// The end of a group.
    Close(Delim),
}

/// A token, with identifier text as a character sequence.
pub enum TokView {
    Ident(Seq<char>),
    Punct(char),
    Literal,
    Open(Delim),
    Close(Delim),
}

impl View for Tok {
    type V = TokView;

    open spec fn view(&self) -> TokView {
        match self {
            Tok::Ident(s) => TokView::Ident(s@),
            Tok::Punct(c) => TokView::Punct(*c),
            Tok::Literal => TokView::Literal,
            Tok::Open(d) => TokView::Open(*d),
            Tok::Close(d) => TokView::Close(*d),
        }
    }
}

/// The views of a token sequence.
pub open spec fn toks_view(toks: Seq<Tok>) -> Seq<TokView> {
    toks.map_values(|t: Tok| t@)
}

} // verus!
