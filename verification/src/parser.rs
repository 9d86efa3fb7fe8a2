//! The schema language: its grammar, stated over token sequences, and a parser
//! that is proved to follow it, errors and their positions included.
//!
//! ```text
//! schema  := "store" ":" IDENT ";" model*
//! model   := "model" IDENT ";" | "model" IDENT "{" field* "}"
//! field   := "belongs_to" IDENT ( "(" "on_delete" "=" ("cascade" | "restrict") ")" )? ";"
//!          | "has_many" IDENT ( "through" IDENT )? ";"
//!          | "index" "unique" IDENT ";"
//! ```
//!
//! `IDENT` is an identifier that `syn` accepts as one (Rust keywords and `_`
//! are refused). Tokens left over inside the parentheses of a `belongs_to` are
//! reported only when nothing else went wrong, and then as the first such place.

use crate::schema::{
    fields_view, models_view, DeleteBehavior, FieldView, ModelDef, ModelField, ModelView, SchemaDef,
    SchemaView,
};
use crate::tokens::{toks_view, Delim, Tok, TokView};
use vstd::prelude::*;

verus! {

/// The words of the schema language.
#[derive(PartialEq, Eq, Structural, Clone, Copy, Debug)]
pub enum Keyword {
    Store,
    Model,
    BelongsTo,
    HasMany,
    Through,
    Index,
    Unique,
    OnDelete,
    Cascade,
    Restrict,
}

/// What went wrong at the position of a parse error.
#[derive(PartialEq, Eq, Structural, Clone, Copy, Debug)]
pub enum ErrorKind {
    ExpectedKeyword(Keyword),
    ExpectedColon,
    ExpectedSemicolon,
    ExpectedEquals,
    ExpectedIdent,
    KeywordAsIdent,
    ExpectedBraces,
    ExpectedField,
    UnexpectedInParens,
    UnexpectedToken,
}

/// A parse error: the token position where it arose, and its kind.
#[derive(PartialEq, Eq, Structural, Clone, Copy, Debug)]
pub struct ParseError {
    pub pos: usize,
    pub kind: ErrorKind,
}

/// A parse error with its position as an integer.
pub struct PErr {
    pub pos: int,
    pub kind: ErrorKind,
}

impl View for ParseError {
    type V = PErr;

    open spec fn view(&self) -> PErr {
        PErr { pos: self.pos as int, kind: self.kind }
    }
}

/// The text of a keyword.
pub open spec fn keyword_text(k: Keyword) -> Seq<char> {
    match k {
        Keyword::Store => "store"@,
        Keyword::Model => "model"@,
        Keyword::BelongsTo => "belongs_to"@,
        Keyword::HasMany => "has_many"@,
        Keyword::Through => "through"@,
        Keyword::Index => "index"@,
        Keyword::Unique => "unique"@,
        Keyword::OnDelete => "on_delete"@,
        Keyword::Cascade => "cascade"@,
        Keyword::Restrict => "restrict"@,
    }
}

/// The words that are not accepted as an identifier: `_` and Rust's keywords,
/// strict, reserved and weak alike. `syn` refuses an identifier token whose
/// text is one of them (a raw identifier such as `r#type` is not among them).
pub open spec fn is_reserved_word(s: Seq<char>) -> bool {
    ||| s == "_"@
    ||| s == "abstract"@
    ||| s == "as"@
    ||| s == "async"@
    ||| s == "await"@
    ||| s == "become"@
    ||| s == "box"@
    ||| s == "break"@
    ||| s == "const"@
    ||| s == "continue"@
    ||| s == "crate"@
    ||| s == "do"@
    ||| s == "dyn"@
    ||| s == "else"@
    ||| s == "enum"@
    ||| s == "extern"@
    ||| s == "false"@
    ||| s == "final"@
    ||| s == "fn"@
    ||| s == "for"@
    ||| s == "if"@
    ||| s == "impl"@
    ||| s == "in"@
    ||| s == "let"@
    ||| s == "loop"@
    ||| s == "macro"@
    ||| s == "match"@
    ||| s == "mod"@
    ||| s == "move"@
    ||| s == "mut"@
    ||| s == "override"@
    ||| s == "priv"@
    ||| s == "pub"@
    ||| s == "ref"@
    ||| s == "return"@
    ||| s == "Self"@
    ||| s == "self"@
    ||| s == "static"@
    ||| s == "struct"@
    ||| s == "super"@
    ||| s == "trait"@
    ||| s == "true"@
    ||| s == "try"@
    ||| s == "type"@
    ||| s == "typeof"@
    ||| s == "unsafe"@
    ||| s == "unsized"@
    ||| s == "use"@
    ||| s == "virtual"@
    ||| s == "where"@
    ||| s == "while"@
    ||| s == "yield"@
}

/// Whether the text of an identifier token is accepted as an identifier.
pub open spec fn accepts_ident(s: Seq<char>) -> bool {
    !is_reserved_word(s)
}

/// Whether the current group (or the whole input) ends at `p`.
pub open spec fn at_end(t: Seq<TokView>, p: int) -> bool {
    p >= t.len() || t[p] is Close
}

/// Whether the token at `p` is the given keyword.
pub open spec fn keyword_at(t: Seq<TokView>, p: int, k: Keyword) -> bool {
    0 <= p < t.len() && t[p] == TokView::Ident(keyword_text(k))
}

/// Whether the token at `p` is the given punctuation character.
pub open spec fn punct_at(t: Seq<TokView>, p: int, c: char) -> bool {
    0 <= p < t.len() && t[p] == TokView::Punct(c)
}

/// Whether a group with the given bracket opens at `p`.
pub open spec fn open_at(t: Seq<TokView>, p: int, d: Delim) -> bool {
    0 <= p < t.len() && t[p] == TokView::Open(d)
}

/// The position of the token that closes the group we are in, scanning from
/// `p` with `depth` groups still open inside it (the end of input if none).
pub open spec fn close_of(t: Seq<TokView>, p: int, depth: nat) -> int
    decreases t.len() - p,
{
    if p < 0 || p >= t.len() {
        t.len() as int
    } else {
        match t[p] {
            TokView::Open(_) => close_of(t, p + 1, depth + 1),
            TokView::Close(_) => if depth == 0 {
                p
            } else {
                close_of(t, p + 1, (depth - 1) as nat)
            },
            _ => close_of(t, p + 1, depth),
        }
    }
}

/// Consumes a keyword.
pub open spec fn spec_keyword(t: Seq<TokView>, p: int, k: Keyword) -> Result<int, PErr> {
    if keyword_at(t, p, k) {
        Ok(p + 1)
    } else {
        Err(PErr { pos: p, kind: ErrorKind::ExpectedKeyword(k) })
    }
}

/// Consumes a punctuation character; `kind` is the error when it is missing.
pub open spec fn spec_punct(t: Seq<TokView>, p: int, c: char, kind: ErrorKind) -> Result<
    int,
    PErr,
> {
    if punct_at(t, p, c) {
        Ok(p + 1)
    } else {
        Err(PErr { pos: p, kind })
    }
}

/// Reads an identifier.
pub open spec fn spec_ident(t: Seq<TokView>, p: int) -> Result<Seq<char>, PErr> {
    if 0 <= p < t.len() {
        match t[p] {
            TokView::Ident(s) => if accepts_ident(s) {
                Ok(s)
            } else {
                Err(PErr { pos: p, kind: ErrorKind::KeywordAsIdent })
            },
            _ => Err(PErr { pos: p, kind: ErrorKind::ExpectedIdent }),
        }
    } else {
        Err(PErr { pos: p, kind: ErrorKind::ExpectedIdent })
    }
}

/// `index unique IDENT ;`
pub open spec fn spec_index_field(t: Seq<TokView>, p: int, d: Option<int>) -> Result<
    (FieldView, int, Option<int>),
    PErr,
> {
    match spec_keyword(t, p, Keyword::Index) {
        Err(e) => Err(e),
        Ok(p1) => match spec_keyword(t, p1, Keyword::Unique) {
            Err(e) => Err(e),
            Ok(p2) => match spec_ident(t, p2) {
                Err(e) => Err(e),
                Ok(name) => match spec_punct(t, p2 + 1, ';', ErrorKind::ExpectedSemicolon) {
                    Err(e) => Err(e),
                    Ok(p4) => Ok((FieldView::Index { field_name: name }, p4, d)),
                },
            },
        },
    }
}

/// `has_many IDENT ;` or `has_many IDENT through IDENT ;`
pub open spec fn spec_has_many_field(t: Seq<TokView>, p: int, d: Option<int>) -> Result<
    (FieldView, int, Option<int>),
    PErr,
> {
    match spec_keyword(t, p, Keyword::HasMany) {
        Err(e) => Err(e),
        Ok(p1) => match spec_ident(t, p1) {
            Err(e) => Err(e),
            Ok(child) => if keyword_at(t, p1 + 1, Keyword::Through) {
                match spec_ident(t, p1 + 2) {
                    Err(e) => Err(e),
                    Ok(through) => match spec_punct(
                        t,
                        p1 + 3,
                        ';',
                        ErrorKind::ExpectedSemicolon,
                    ) {
                        Err(e) => Err(e),
                        Ok(p5) => Ok((FieldView::HasManyThrough { child, through }, p5, d)),
                    },
                }
            } else {
                match spec_punct(t, p1 + 1, ';', ErrorKind::ExpectedSemicolon) {
                    Err(e) => Err(e),
                    Ok(p3) => Ok((FieldView::HasMany { child }, p3, d)),
                }
            },
        },
    }
}

/// The contents of `( on_delete = cascade|restrict ... )`, from just after the
/// opening parenthesis: the behavior, the position after the closing
/// parenthesis, and the first place where tokens were left over.
pub open spec fn spec_on_delete(t: Seq<TokView>, p: int, d: Option<int>) -> Result<
    (DeleteBehavior, int, Option<int>),
    PErr,
> {
    match spec_keyword(t, p, Keyword::OnDelete) {
        Err(e) => Err(e),
        Ok(p1) => match spec_punct(t, p1, '=', ErrorKind::ExpectedEquals) {
            Err(e) => Err(e),
            Ok(p2) => {
                let (behavior, r) = if keyword_at(t, p2, Keyword::Cascade) {
                    (DeleteBehavior::Cascade, spec_keyword(t, p2, Keyword::Cascade))
                } else {
                    (DeleteBehavior::Restrict, spec_keyword(t, p2, Keyword::Restrict))
                };
                match r {
                    Err(e) => Err(e),
                    Ok(p3) => {
                        let c = close_of(t, p3, 0);
                        let d2 = if !at_end(t, p3) && d is None {
                            Some(p3)
                        } else {
                            d
                        };
                        if c < t.len() && t[c] == TokView::Close(Delim::Paren) {
                            Ok((behavior, c + 1, d2))
                        } else {
                            Err(PErr { pos: c, kind: ErrorKind::UnexpectedToken })
                        }
                    },
                }
            },
        },
    }
}

/// `belongs_to IDENT ;` or `belongs_to IDENT ( on_delete = ... ) ;`
pub open spec fn spec_belongs_to_field(t: Seq<TokView>, p: int, d: Option<int>) -> Result<
    (FieldView, int, Option<int>),
    PErr,
> {
    match spec_keyword(t, p, Keyword::BelongsTo) {
        Err(e) => Err(e),
        Ok(p1) => match spec_ident(t, p1) {
            Err(e) => Err(e),
            Ok(parent) => {
                let r = if open_at(t, p1 + 1, Delim::Paren) {
                    spec_on_delete(t, p1 + 2, d)
                } else {
                    Ok((DeleteBehavior::Restrict, p1 + 1, d))
                };
                match r {
                    Err(e) => Err(e),
                    Ok((on_delete, p3, d3)) => match spec_punct(
                        t,
                        p3,
                        ';',
                        ErrorKind::ExpectedSemicolon,
                    ) {
                        Err(e) => Err(e),
                        Ok(p4) => Ok((FieldView::BelongsTo { parent, on_delete }, p4, d3)),
                    },
                }
            },
        },
    }
}

/// One field, chosen by its first word.
pub open spec fn spec_field(t: Seq<TokView>, p: int, d: Option<int>) -> Result<
    (FieldView, int, Option<int>),
    PErr,
> {
    if keyword_at(t, p, Keyword::BelongsTo) {
        spec_belongs_to_field(t, p, d)
    } else if keyword_at(t, p, Keyword::HasMany) {
        spec_has_many_field(t, p, d)
    } else if keyword_at(t, p, Keyword::Index) {
        spec_index_field(t, p, d)
    } else {
        Err(PErr { pos: p, kind: ErrorKind::ExpectedField })
    }
}

/// The scan for a closing token stays within the input.
pub proof fn lemma_close_of_bounds(t: Seq<TokView>, p: int, depth: nat)
    requires
        0 <= p <= t.len(),
    ensures
        p <= close_of(t, p, depth) <= t.len(),
    decreases t.len() - p,
{
    if p < t.len() {
        match t[p] {
            TokView::Open(_) => lemma_close_of_bounds(t, p + 1, depth + 1),
            TokView::Close(_) => if depth != 0 {
                lemma_close_of_bounds(t, p + 1, (depth - 1) as nat);
            },
            _ => lemma_close_of_bounds(t, p + 1, depth),
        }
    }
}

/// A field that parses consumes at least one token and stays within the input;
/// an error lies within the input or at its end.
pub proof fn lemma_field_bounds(t: Seq<TokView>, p: int, d: Option<int>)
    ensures
        spec_field(t, p, d) matches Ok((_, q, _)) ==> p < q <= t.len(),
        0 <= p <= t.len() ==> (spec_field(t, p, d) matches Err(e) ==> 0 <= e.pos <= t.len()),
{
    if keyword_at(t, p, Keyword::BelongsTo) {
        let p2 = p + 2;
        if open_at(t, p2, Delim::Paren) && p2 + 1 < t.len() {
            let q = p2 + 1;
            if keyword_at(t, q, Keyword::OnDelete) && punct_at(t, q + 1, '=') && (keyword_at(
                t,
                q + 2,
                Keyword::Cascade,
            ) || keyword_at(t, q + 2, Keyword::Restrict)) {
                lemma_close_of_bounds(t, q + 3, 0);
            }
        }
    }
}

/// A model that parses consumes at least one token and stays within the input;
/// an error lies within the input or at its end.
pub proof fn lemma_model_advances(t: Seq<TokView>, p: int, d: Option<int>)
    ensures
        spec_model(t, p, d) matches Ok((_, q, _)) ==> p < q <= t.len(),
{
    if keyword_at(t, p, Keyword::Model) && open_at(t, p + 2, Delim::Brace) {
        lemma_fields_bounds(t, p + 3, d);
    }
}

/// Parsing fields ends within the input, no earlier than it started.
pub proof fn lemma_fields_bounds(t: Seq<TokView>, p: int, d: Option<int>)
    requires
        0 <= p <= t.len(),
    ensures
        spec_fields(t, p, d) matches Ok((_, r, _)) ==> p <= r <= t.len(),
        spec_fields(t, p, d) matches Err(e) ==> 0 <= e.pos <= t.len(),
    decreases t.len() - p,
{
    if !at_end(t, p) {
        lemma_field_bounds(t, p, d);
        if let Ok((f, q, d2)) = spec_field(t, p, d) {
            lemma_fields_bounds(t, q, d2);
        }
    }
}

/// Puts parsed items in front of what a later parse gave.
pub open spec fn prepend<A>(xs: Seq<A>, r: Result<(Seq<A>, int, Option<int>), PErr>) -> Result<
    (Seq<A>, int, Option<int>),
    PErr,
> {
    match r {
        Ok((ys, q, d)) => Ok((xs + ys, q, d)),
        Err(e) => Err(e),
    }
}

/// Fields up to the end of the enclosing group.
pub open spec fn spec_fields(t: Seq<TokView>, p: int, d: Option<int>) -> Result<
    (Seq<FieldView>, int, Option<int>),
    PErr,
>
    decreases t.len() - p,
{
    if at_end(t, p) {
        Ok((Seq::empty(), p, d))
    } else {
        match spec_field(t, p, d) {
            Err(e) => Err(e),
            Ok((f, q, d2)) => {
                proof {
                    lemma_field_bounds(t, p, d);
                }
                prepend(seq![f], spec_fields(t, q, d2))
            },
        }
    }
}

/// `model IDENT ;` or `model IDENT { field* }`
pub open spec fn spec_model(t: Seq<TokView>, p: int, d: Option<int>) -> Result<
    (ModelView, int, Option<int>),
    PErr,
> {
    match spec_keyword(t, p, Keyword::Model) {
        Err(e) => Err(e),
        Ok(p1) => match spec_ident(t, p1) {
            Err(e) => Err(e),
            Ok(name) => if punct_at(t, p1 + 1, ';') {
                Ok((ModelView { name, fields: Seq::empty() }, p1 + 2, d))
            } else if open_at(t, p1 + 1, Delim::Brace) {
                match spec_fields(t, p1 + 2, d) {
                    Err(e) => Err(e),
                    Ok((fields, r, d2)) => if r < t.len() && t[r] == TokView::Close(Delim::Brace) {
                        Ok((ModelView { name, fields }, r + 1, d2))
                    } else {
                        Err(PErr { pos: r, kind: ErrorKind::UnexpectedToken })
                    },
                }
            } else {
                Err(PErr { pos: p1 + 1, kind: ErrorKind::ExpectedBraces })
            },
        },
    }
}

/// Models up to the end of the input.
pub open spec fn spec_models(t: Seq<TokView>, p: int, d: Option<int>) -> Result<
    (Seq<ModelView>, int, Option<int>),
    PErr,
>
    decreases t.len() - p,
{
    if at_end(t, p) {
        Ok((Seq::empty(), p, d))
    } else {
        match spec_model(t, p, d) {
            Err(e) => Err(e),
            Ok((m, q, d2)) => {
                proof {
                    lemma_model_advances(t, p, d);
                }
                prepend(seq![m], spec_models(t, q, d2))
            },
        }
    }
}

/// A whole schema: `store : IDENT ;` followed by models, with nothing left over.
pub open spec fn spec_schema(t: Seq<TokView>) -> Result<SchemaView, PErr> {
    match spec_keyword(t, 0, Keyword::Store) {
        Err(e) => Err(e),
        Ok(p1) => match spec_punct(t, p1, ':', ErrorKind::ExpectedColon) {
            Err(e) => Err(e),
            Ok(p2) => match spec_ident(t, p2) {
                Err(e) => Err(e),
                Ok(store_name) => match spec_punct(t, p2 + 1, ';', ErrorKind::ExpectedSemicolon) {
                    Err(e) => Err(e),
                    Ok(p4) => match spec_models(t, p4, None) {
                        Err(e) => Err(e),
                        Ok((models, r, d)) => match d {
                            Some(u) => Err(PErr { pos: u, kind: ErrorKind::UnexpectedInParens }),
                            None => if r < t.len() {
                                Err(PErr { pos: r, kind: ErrorKind::UnexpectedToken })
                            } else {
                                Ok(SchemaView { store_name, models })
                            },
                        },
                    },
                },
            },
        },
    }
}

/// A position that may be absent, as an integer.
pub open spec fn opt_int(d: Option<usize>) -> Option<int> {
    match d {
        Some(u) => Some(u as int),
        None => None,
    }
}

/// An executable position result agrees with its grammar counterpart.
pub open spec fn agrees_pos(r: Result<usize, ParseError>, s: Result<int, PErr>) -> bool {
    match r {
        Ok(q) => s == Ok::<int, PErr>(q as int),
        Err(e) => s == Err::<int, PErr>(e@),
    }
}

/// An executable parse step agrees with its grammar counterpart, items being
/// compared through `f`.
pub open spec fn agrees_step<A, B>(
    r: Result<(A, usize, Option<usize>), ParseError>,
    s: Result<(B, int, Option<int>), PErr>,
    f: spec_fn(A) -> B,
) -> bool {
    match r {
        Ok((a, q, d)) => s == Ok::<(B, int, Option<int>), PErr>((f(a), q as int, opt_int(d))),
        Err(e) => s == Err::<(B, int, Option<int>), PErr>(e@),
    }
}

/// Whether an identifier's text is the given text.
fn ident_is(s: &String, text: &str) -> (r: bool)
    ensures
        r == (s@ == text@),
{
    let k = String::from_str(text);
    s.eq(&k)
}

/// Whether a text is `_` or a Rust keyword.
fn reserved_word(s: &String) -> (r: bool)
    ensures
        r == is_reserved_word(s@),
{
    ident_is(s, "_")
        || ident_is(s, "abstract")
        || ident_is(s, "as")
        || ident_is(s, "async")
        || ident_is(s, "await")
        || ident_is(s, "become")
        || ident_is(s, "box")
        || ident_is(s, "break")
        || ident_is(s, "const")
        || ident_is(s, "continue")
        || ident_is(s, "crate")
        || ident_is(s, "do")
        || ident_is(s, "dyn")
        || ident_is(s, "else")
        || ident_is(s, "enum")
        || ident_is(s, "extern")
        || ident_is(s, "false")
        || ident_is(s, "final")
        || ident_is(s, "fn")
        || ident_is(s, "for")
        || ident_is(s, "if")
        || ident_is(s, "impl")
        || ident_is(s, "in")
        || ident_is(s, "let")
        || ident_is(s, "loop")
        || ident_is(s, "macro")
        || ident_is(s, "match")
        || ident_is(s, "mod")
        || ident_is(s, "move")
        || ident_is(s, "mut")
        || ident_is(s, "override")
        || ident_is(s, "priv")
        || ident_is(s, "pub")
        || ident_is(s, "ref")
        || ident_is(s, "return")
        || ident_is(s, "Self")
        || ident_is(s, "self")
        || ident_is(s, "static")
        || ident_is(s, "struct")
        || ident_is(s, "super")
        || ident_is(s, "trait")
        || ident_is(s, "true")
        || ident_is(s, "try")
        || ident_is(s, "type")
        || ident_is(s, "typeof")
        || ident_is(s, "unsafe")
        || ident_is(s, "unsized")
        || ident_is(s, "use")
        || ident_is(s, "virtual")
        || ident_is(s, "where")
        || ident_is(s, "while")
        || ident_is(s, "yield")
}

/// The text of a keyword.
pub fn keyword_str(k: Keyword) -> (r: &'static str)
    ensures
        r@ == keyword_text(k),
{
    match k {
        Keyword::Store => "store",
        Keyword::Model => "model",
        Keyword::BelongsTo => "belongs_to",
        Keyword::HasMany => "has_many",
        Keyword::Through => "through",
        Keyword::Index => "index",
        Keyword::Unique => "unique",
        Keyword::OnDelete => "on_delete",
        Keyword::Cascade => "cascade",
        Keyword::Restrict => "restrict",
    }
}

/// Whether the current group (or the input) ends at `p`.
pub fn is_end(toks: &Vec<Tok>, p: usize) -> (r: bool)
    ensures
        r == at_end(toks_view(toks@), p as int),
{
    if p < toks.len() {
        match &toks[p] {
            Tok::Close(_) => true,
            _ => false,
        }
    } else {
        true
    }
}

fn peek_keyword(toks: &Vec<Tok>, p: usize, k: Keyword) -> (r: bool)
    ensures
        r == keyword_at(toks_view(toks@), p as int, k),
{
    if p < toks.len() {
        match &toks[p] {
            Tok::Ident(s) => ident_is(s, keyword_str(k)),
            _ => false,
        }
    } else {
        false
    }
}

fn peek_punct(toks: &Vec<Tok>, p: usize, c: char) -> (r: bool)
    ensures
        r == punct_at(toks_view(toks@), p as int, c),
{
    if p < toks.len() {
        match &toks[p] {
            Tok::Punct(x) => *x == c,
            _ => false,
        }
    } else {
        false
    }
}

fn peek_open(toks: &Vec<Tok>, p: usize, d: Delim) -> (r: bool)
    ensures
        r == open_at(toks_view(toks@), p as int, d),
{
    if p < toks.len() {
        match &toks[p] {
            Tok::Open(x) => *x == d,
            _ => false,
        }
    } else {
        false
    }
}

fn expect_keyword(toks: &Vec<Tok>, p: usize, k: Keyword) -> (r: Result<usize, ParseError>)
    requires
        p <= toks.len(),
    ensures
        agrees_pos(r, spec_keyword(toks_view(toks@), p as int, k)),
        r matches Ok(q) ==> q <= toks.len(),
{
    if peek_keyword(toks, p, k) {
        Ok(p + 1)
    } else {
        Err(ParseError { pos: p, kind: ErrorKind::ExpectedKeyword(k) })
    }
}

fn expect_punct(toks: &Vec<Tok>, p: usize, c: char, kind: ErrorKind) -> (r: Result<
    usize,
    ParseError,
>)
    requires
        p <= toks.len(),
    ensures
        agrees_pos(r, spec_punct(toks_view(toks@), p as int, c, kind)),
        r matches Ok(q) ==> q <= toks.len(),
{
    if peek_punct(toks, p, c) {
        Ok(p + 1)
    } else {
        Err(ParseError { pos: p, kind })
    }
}

fn parse_ident(toks: &Vec<Tok>, p: usize) -> (r: Result<String, ParseError>)
    requires
        p <= toks.len(),
    ensures
        match r {
            Ok(s) => spec_ident(toks_view(toks@), p as int) == Ok::<Seq<char>, PErr>(s@),
            Err(e) => spec_ident(toks_view(toks@), p as int) == Err::<Seq<char>, PErr>(e@),
        },
{
    if p < toks.len() {
        match &toks[p] {
            Tok::Ident(s) => {
                if !reserved_word(s) {
                    Ok(s.clone())
                } else {
                    Err(ParseError { pos: p, kind: ErrorKind::KeywordAsIdent })
                }
            },
            _ => Err(ParseError { pos: p, kind: ErrorKind::ExpectedIdent }),
        }
    } else {
        Err(ParseError { pos: p, kind: ErrorKind::ExpectedIdent })
    }
}

/// The position of the token that closes the group we are in.
fn find_close(toks: &Vec<Tok>, p: usize) -> (c: usize)
    requires
        p <= toks.len(),
    ensures
        c as int == close_of(toks_view(toks@), p as int, 0),
{
    let ghost t = toks_view(toks@);
    let mut q = p;
    let mut depth: usize = 0;
    while q < toks.len()
        invariant
            p <= q <= toks.len(),
            depth <= q - p,
            t == toks_view(toks@),
            close_of(t, p as int, 0) == close_of(t, q as int, depth as nat),
        decreases toks.len() - q,
    {
        match &toks[q] {
            Tok::Open(_) => {
                depth = depth + 1;
            },
            Tok::Close(_) => {
                if depth == 0 {
                    return q;
                }
                depth = depth - 1;
            },
            _ => {},
        }
        q = q + 1;
    }
    q
}

/// The contents of `( on_delete = ... )` from just after the opening parenthesis.
fn parse_on_delete(toks: &Vec<Tok>, p: usize, d: Option<usize>) -> (r: Result<
    (DeleteBehavior, usize, Option<usize>),
    ParseError,
>)
    requires
        p <= toks.len(),
    ensures
        agrees_step(r, spec_on_delete(toks_view(toks@), p as int, opt_int(d)), |b: DeleteBehavior| b),
        r matches Ok((_, q, _)) ==> q <= toks.len(),
{
    let ghost t = toks_view(toks@);
    let p1 = match expect_keyword(toks, p, Keyword::OnDelete) {
        Ok(q) => q,
        Err(e) => return Err(e),
    };
    let p2 = match expect_punct(toks, p1, '=', ErrorKind::ExpectedEquals) {
        Ok(q) => q,
        Err(e) => return Err(e),
    };
    let (behavior, r) = if peek_keyword(toks, p2, Keyword::Cascade) {
        (DeleteBehavior::Cascade, expect_keyword(toks, p2, Keyword::Cascade))
    } else {
        (DeleteBehavior::Restrict, expect_keyword(toks, p2, Keyword::Restrict))
    };
    let p3 = match r {
        Ok(q) => q,
        Err(e) => return Err(e),
    };
    let c = find_close(toks, p3);
    proof {
        lemma_close_of_bounds(t, p3 as int, 0);
    }
    let d2 = if !is_end(toks, p3) && d.is_none() {
        Some(p3)
    } else {
        d
    };
    if c < toks.len() && match &toks[c] {
        Tok::Close(Delim::Paren) => true,
        _ => false,
    } {
        Ok((behavior, c + 1, d2))
    } else {
        Err(ParseError { pos: c, kind: ErrorKind::UnexpectedToken })
    }
}

impl ModelDef {
    /// Parses one field, chosen by its first word.
    pub fn parse_field(toks: &Vec<Tok>, p: usize, d: Option<usize>) -> (r: Result<
        (ModelField, usize, Option<usize>),
        ParseError,
    >)
        requires
            p <= toks.len(),
        ensures
            agrees_step(r, spec_field(toks_view(toks@), p as int, opt_int(d)), |f: ModelField| f@),
    {
        if peek_keyword(toks, p, Keyword::BelongsTo) {
            Self::parse_belongs_to_field(toks, p, d)
        } else if peek_keyword(toks, p, Keyword::HasMany) {
            Self::parse_has_many_field(toks, p, d)
        } else if peek_keyword(toks, p, Keyword::Index) {
            Self::parse_index_field(toks, p, d)
        } else {
            Err(ParseError { pos: p, kind: ErrorKind::ExpectedField })
        }
    }

    /// Parses `belongs_to Parent;` or `belongs_to Parent (on_delete = cascade|restrict);`.
    /// Without the parenthesis the behavior is `Restrict`.
    pub fn parse_belongs_to_field(toks: &Vec<Tok>, p: usize, d: Option<usize>) -> (r: Result<
        (ModelField, usize, Option<usize>),
        ParseError,
    >)
        requires
            p <= toks.len(),
        ensures
            agrees_step(
                r,
                spec_belongs_to_field(toks_view(toks@), p as int, opt_int(d)),
                |f: ModelField| f@,
            ),
    {
        let p1 = match expect_keyword(toks, p, Keyword::BelongsTo) {
            Ok(q) => q,
            Err(e) => return Err(e),
        };
        let parent = match parse_ident(toks, p1) {
            Ok(s) => s,
            Err(e) => return Err(e),
        };
        let r = if peek_open(toks, p1 + 1, Delim::Paren) {
            parse_on_delete(toks, p1 + 2, d)
        } else {
            Ok((DeleteBehavior::Restrict, p1 + 1, d))
        };
        let (on_delete, p3, d3) = match r {
            Ok(x) => x,
            Err(e) => return Err(e),
        };
        let p4 = match expect_punct(toks, p3, ';', ErrorKind::ExpectedSemicolon) {
            Ok(q) => q,
            Err(e) => return Err(e),
        };
        Ok((ModelField::BelongsTo { parent, on_delete }, p4, d3))
    }

    /// Parses `has_many Child;` or `has_many Child through Join;`.
    pub fn parse_has_many_field(toks: &Vec<Tok>, p: usize, d: Option<usize>) -> (r: Result<
        (ModelField, usize, Option<usize>),
        ParseError,
    >)
        requires
            p <= toks.len(),
        ensures
            agrees_step(
                r,
                spec_has_many_field(toks_view(toks@), p as int, opt_int(d)),
                |f: ModelField| f@,
            ),
    {
        let p1 = match expect_keyword(toks, p, Keyword::HasMany) {
            Ok(q) => q,
            Err(e) => return Err(e),
        };
        let child = match parse_ident(toks, p1) {
            Ok(s) => s,
            Err(e) => return Err(e),
        };
        if peek_keyword(toks, p1 + 1, Keyword::Through) {
            let through = match parse_ident(toks, p1 + 2) {
                Ok(s) => s,
                Err(e) => return Err(e),
            };
            let p5 = match expect_punct(toks, p1 + 3, ';', ErrorKind::ExpectedSemicolon) {
                Ok(q) => q,
                Err(e) => return Err(e),
            };
            Ok((ModelField::HasManyThrough { child, through }, p5, d))
        } else {
            let p3 = match expect_punct(toks, p1 + 1, ';', ErrorKind::ExpectedSemicolon) {
                Ok(q) => q,
                Err(e) => return Err(e),
            };
            Ok((ModelField::HasMany { child }, p3, d))
        }
    }

    /// Parses `index unique field;`.
    pub fn parse_index_field(toks: &Vec<Tok>, p: usize, d: Option<usize>) -> (r: Result<
        (ModelField, usize, Option<usize>),
        ParseError,
    >)
        requires
            p <= toks.len(),
        ensures
            agrees_step(
                r,
                spec_index_field(toks_view(toks@), p as int, opt_int(d)),
                |f: ModelField| f@,
            ),
    {
        let p1 = match expect_keyword(toks, p, Keyword::Index) {
            Ok(q) => q,
            Err(e) => return Err(e),
        };
        let p2 = match expect_keyword(toks, p1, Keyword::Unique) {
            Ok(q) => q,
            Err(e) => return Err(e),
        };
        let field_name = match parse_ident(toks, p2) {
            Ok(s) => s,
            Err(e) => return Err(e),
        };
        let p4 = match expect_punct(toks, p2 + 1, ';', ErrorKind::ExpectedSemicolon) {
            Ok(q) => q,
            Err(e) => return Err(e),
        };
        Ok((ModelField::Index { field_name }, p4, d))
    }

    /// Parses fields up to the end of the enclosing group.
    pub fn parse_fields(toks: &Vec<Tok>, p: usize, d: Option<usize>) -> (r: Result<
        (Vec<ModelField>, usize, Option<usize>),
        ParseError,
    >)
        requires
            p <= toks.len(),
        ensures
            agrees_step(
                r,
                spec_fields(toks_view(toks@), p as int, opt_int(d)),
                |v: Vec<ModelField>| fields_view(v@),
            ),
    {
        let ghost t = toks_view(toks@);
        let mut fields: Vec<ModelField> = Vec::new();
        let mut q = p;
        let mut dd = d;
        while !is_end(toks, q)
            invariant
                p <= q <= toks.len(),
                t == toks_view(toks@),
                spec_fields(t, p as int, opt_int(d)) == prepend(
                    fields_view(fields@),
                    spec_fields(t, q as int, opt_int(dd)),
                ),
            decreases toks.len() - q,
        {
            match Self::parse_field(toks, q, dd) {
                Err(e) => {
                    return Err(e);
                },
                Ok((f, q2, d2)) => {
                    proof {
                        lemma_field_bounds(t, q as int, opt_int(dd));
                        let old_view = fields_view(fields@);
                        assert(fields_view(fields@.push(f)) =~= old_view + seq![f@]);
                        let rest = spec_fields(t, q2 as int, opt_int(d2));
                        match rest {
                            Ok((ys, _, _)) => {
                                assert(old_view + (seq![f@] + ys) =~= (old_view + seq![f@]) + ys);
                            },
                            Err(_) => {},
                        }
                    }
                    fields.push(f);
                    q = q2;
                    dd = d2;
                },
            }
        }
        proof {
            assert(fields_view(fields@) + Seq::<FieldView>::empty() =~= fields_view(fields@));
        }
        Ok((fields, q, dd))
    }

    /// Parses `model Name;` or `model Name { field* }`.
    pub fn parse(toks: &Vec<Tok>, p: usize, d: Option<usize>) -> (r: Result<
        (ModelDef, usize, Option<usize>),
        ParseError,
    >)
        requires
            p <= toks.len(),
        ensures
            agrees_step(r, spec_model(toks_view(toks@), p as int, opt_int(d)), |m: ModelDef| m@),
    {
        let ghost t = toks_view(toks@);
        let p1 = match expect_keyword(toks, p, Keyword::Model) {
            Ok(q) => q,
            Err(e) => return Err(e),
        };
        let name = match parse_ident(toks, p1) {
            Ok(s) => s,
            Err(e) => return Err(e),
        };
        if peek_punct(toks, p1 + 1, ';') {
            let fields: Vec<ModelField> = Vec::new();
            proof {
                assert(fields_view(fields@) =~= Seq::<FieldView>::empty());
            }
            Ok((ModelDef { name, fields }, p1 + 2, d))
        } else if peek_open(toks, p1 + 1, Delim::Brace) {
            let (fields, r, d2) = match Self::parse_fields(toks, p1 + 2, d) {
                Ok(x) => x,
                Err(e) => return Err(e),
            };
            proof {
                lemma_fields_bounds(t, (p1 + 2) as int, opt_int(d));
            }
            if r < toks.len() && match &toks[r] {
                Tok::Close(Delim::Brace) => true,
                _ => false,
            } {
                Ok((ModelDef { name, fields }, r + 1, d2))
            } else {
                Err(ParseError { pos: r, kind: ErrorKind::UnexpectedToken })
            }
        } else {
            Err(ParseError { pos: p1 + 1, kind: ErrorKind::ExpectedBraces })
        }
    }
}

impl SchemaDef {
    /// Parses models up to the end of the input.
    pub fn parse_models(toks: &Vec<Tok>, p: usize, d: Option<usize>) -> (r: Result<
        (Vec<ModelDef>, usize, Option<usize>),
        ParseError,
    >)
        requires
            p <= toks.len(),
        ensures
            agrees_step(
                r,
                spec_models(toks_view(toks@), p as int, opt_int(d)),
                |v: Vec<ModelDef>| models_view(v@),
            ),
    {
        let ghost t = toks_view(toks@);
        let mut models: Vec<ModelDef> = Vec::new();
        let mut q = p;
        let mut dd = d;
        while !is_end(toks, q)
            invariant
                p <= q <= toks.len(),
                t == toks_view(toks@),
                spec_models(t, p as int, opt_int(d)) == prepend(
                    models_view(models@),
                    spec_models(t, q as int, opt_int(dd)),
                ),
            decreases toks.len() - q,
        {
            match ModelDef::parse(toks, q, dd) {
                Err(e) => {
                    return Err(e);
                },
                Ok((m, q2, d2)) => {
                    proof {
                        lemma_model_advances(t, q as int, opt_int(dd));
                        let old_view = models_view(models@);
                        assert(models_view(models@.push(m)) =~= old_view + seq![m@]);
                        let rest = spec_models(t, q2 as int, opt_int(d2));
                        match rest {
                            Ok((ys, _, _)) => {
                                assert(old_view + (seq![m@] + ys) =~= (old_view + seq![m@]) + ys);
                            },
                            Err(_) => {},
                        }
                    }
                    models.push(m);
                    q = q2;
                    dd = d2;
                },
            }
        }
        proof {
            assert(models_view(models@) + Seq::<ModelView>::empty() =~= models_view(models@));
        }
        Ok((models, q, dd))
    }

    /// Parses a whole schema: `store: Name;` and then the models, with nothing
    /// left over. The result is what the grammar gives for these tokens.
    pub fn parse(toks: &Vec<Tok>) -> (r: Result<SchemaDef, ParseError>)
        ensures
            match r {
                Ok(s) => spec_schema(toks_view(toks@)) == Ok::<SchemaView, PErr>(s@),
                Err(e) => spec_schema(toks_view(toks@)) == Err::<SchemaView, PErr>(e@),
            },
    {
        let p1 = match expect_keyword(toks, 0, Keyword::Store) {
            Ok(q) => q,
            Err(e) => return Err(e),
        };
        let p2 = match expect_punct(toks, p1, ':', ErrorKind::ExpectedColon) {
            Ok(q) => q,
            Err(e) => return Err(e),
        };
        let store_name = match parse_ident(toks, p2) {
            Ok(s) => s,
            Err(e) => return Err(e),
        };
        let p4 = match expect_punct(toks, p2 + 1, ';', ErrorKind::ExpectedSemicolon) {
            Ok(q) => q,
            Err(e) => return Err(e),
        };
        let (models, r, d) = match Self::parse_models(toks, p4, None) {
            Ok(x) => x,
            Err(e) => return Err(e),
        };
        match d {
            Some(u) => Err(ParseError { pos: u, kind: ErrorKind::UnexpectedInParens }),
            None => if r < toks.len() {
                Err(ParseError { pos: r, kind: ErrorKind::UnexpectedToken })
            } else {
                Ok(SchemaDef { store_name, models })
            },
        }
    }
}

/// The text of the identifier at `p`, if there is one there.
pub open spec fn ident_text_at(t: Seq<TokView>, p: int) -> Seq<char> {
    if 0 <= p < t.len() {
        match t[p] {
            TokView::Ident(s) => s,
            _ => Seq::empty(),
        }
    } else {
        Seq::empty()
    }
}

/// The message of an error of the given kind at `p`, before any note that the
/// input ended.
pub open spec fn kind_message(kind: ErrorKind, t: Seq<TokView>, p: int) -> Seq<char> {
    match kind {
        ErrorKind::ExpectedKeyword(k) => "expected `"@ + keyword_text(k) + "`"@,
        ErrorKind::ExpectedColon => "expected `:`"@,
        ErrorKind::ExpectedSemicolon => "expected `;`"@,
        ErrorKind::ExpectedEquals => "expected `=`"@,
        ErrorKind::ExpectedIdent => "expected identifier"@,
        ErrorKind::KeywordAsIdent => "expected identifier, found keyword `"@ + ident_text_at(t, p)
            + "`"@,
        ErrorKind::ExpectedBraces => "expected curly braces"@,
        ErrorKind::ExpectedField => "Expected `belongs_to`, `has_many`, or `index`"@,
        ErrorKind::UnexpectedInParens => "unexpected token, expected `)`"@,
        ErrorKind::UnexpectedToken => "unexpected token"@,
    }
}

/// Whether an error of this kind says so when it is raised where the input
/// (or the enclosing group) has ended. Missing punctuation does not.
pub open spec fn notes_end(kind: ErrorKind) -> bool {
    match kind {
        ErrorKind::ExpectedKeyword(_) => true,
        ErrorKind::ExpectedIdent => true,
        ErrorKind::KeywordAsIdent => true,
        ErrorKind::ExpectedBraces => true,
        ErrorKind::ExpectedField => true,
        _ => false,
    }
}

/// The message reported for a parse error.
pub open spec fn error_text(e: PErr, t: Seq<TokView>) -> Seq<char> {
    if notes_end(e.kind) && at_end(t, e.pos) {
        "unexpected end of input, "@ + kind_message(e.kind, t, e.pos)
    } else {
        kind_message(e.kind, t, e.pos)
    }
}

impl ParseError {
    /// The message that this error reports for the given tokens.
    pub fn message(&self, toks: &Vec<Tok>) -> (r: String)
        ensures
            r@ == error_text(self@, toks_view(toks@)),
    {
        let t = Ghost(toks_view(toks@));
        let p = self.pos;
        let m = match self.kind {
            ErrorKind::ExpectedKeyword(k) => {
                let mut m = String::from_str("expected `");
                m.append(keyword_str(k));
                m.append("`");
                m
            },
            ErrorKind::ExpectedColon => String::from_str("expected `:`"),
            ErrorKind::ExpectedSemicolon => String::from_str("expected `;`"),
            ErrorKind::ExpectedEquals => String::from_str("expected `=`"),
            ErrorKind::ExpectedIdent => String::from_str("expected identifier"),
            ErrorKind::KeywordAsIdent => {
                let mut m = String::from_str("expected identifier, found keyword `");
                if p < toks.len() {
                    match &toks[p] {
                        Tok::Ident(s) => m.append(s.as_str()),
                        _ => {},
                    }
                }
                m.append("`");
                proof {
                    assert(m@ == kind_message(self.kind, t@, p as int));
                }
                m
            },
            ErrorKind::ExpectedBraces => String::from_str("expected curly braces"),
            ErrorKind::ExpectedField => String::from_str(
                "Expected `belongs_to`, `has_many`, or `index`",
            ),
            ErrorKind::UnexpectedInParens => String::from_str("unexpected token, expected `)`"),
            ErrorKind::UnexpectedToken => String::from_str("unexpected token"),
        };
        let notes = match self.kind {
            ErrorKind::ExpectedKeyword(_) => true,
            ErrorKind::ExpectedIdent => true,
            ErrorKind::KeywordAsIdent => true,
            ErrorKind::ExpectedBraces => true,
            ErrorKind::ExpectedField => true,
            _ => false,
        };
        if notes && is_end(toks, p) {
            let mut r = String::from_str("unexpected end of input, ");
            r.append(m.as_str());
            r
        } else {
            m
        }
    }
}

} // verus!
