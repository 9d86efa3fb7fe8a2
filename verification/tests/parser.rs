use graphlink::parser::{ErrorKind, Keyword, ParseError};
use graphlink::tokens::{Delim, Tok};
use graphlink::{DeleteBehavior, ModelField, SchemaDef};
use proc_macro2::{Delimiter, TokenStream, TokenTree};

fn flatten(ts: TokenStream, out: &mut Vec<Tok>) {
    for tt in ts {
        match tt {
            TokenTree::Ident(i) => out.push(Tok::Ident(i.to_string())),
            TokenTree::Punct(p) => out.push(Tok::Punct(p.as_char())),
            TokenTree::Literal(_) => out.push(Tok::Literal),
            TokenTree::Group(g) => {
                let d = match g.delimiter() {
                    Delimiter::Parenthesis => Some(Delim::Paren),
                    Delimiter::Brace => Some(Delim::Brace),
                    Delimiter::Bracket => Some(Delim::Bracket),
                    Delimiter::None => None,
                };
                match d {
                    Some(d) => {
                        out.push(Tok::Open(d));
                        flatten(g.stream(), out);
                        out.push(Tok::Close(d));
                    }
                    None => flatten(g.stream(), out),
                }
            }
        }
    }
}

fn toks(src: &str) -> Vec<Tok> {
    let mut v = Vec::new();
    flatten(src.parse::<TokenStream>().unwrap(), &mut v);
    v
}

fn parse(src: &str) -> Result<SchemaDef, ParseError> {
    SchemaDef::parse(&toks(src))
}

fn message(src: &str) -> String {
    let t = toks(src);
    SchemaDef::parse(&t).unwrap_err().message(&t)
}

const README_SCHEMA: &str = "
    store: Store;

    model Library {
        has_many Checkout;
        has_many Patron through Checkout;
    }

    model Patron {
        index unique email;
        has_many Checkout;
    }

    model Checkout {
        belongs_to Library (on_delete = cascade);
        belongs_to Patron (on_delete = restrict);
    }
";

#[test]
fn parses_the_readme_schema() {
    let s = parse(README_SCHEMA).unwrap();
    assert_eq!(s.store_name, "Store");
    assert_eq!(s.models.len(), 3);
    assert_eq!(s.models[0].name, "Library");
    match &s.models[0].fields[..] {
        [ModelField::HasMany { child }, ModelField::HasManyThrough { child: c2, through }] => {
            assert_eq!(child, "Checkout");
            assert_eq!(c2, "Patron");
            assert_eq!(through, "Checkout");
        }
        other => panic!("unexpected fields: {:?}", other),
    }
    match &s.models[1].fields[..] {
        [ModelField::Index { field_name }, ModelField::HasMany { child }] => {
            assert_eq!(field_name, "email");
            assert_eq!(child, "Checkout");
        }
        other => panic!("unexpected fields: {:?}", other),
    }
    match &s.models[2].fields[..] {
        [ModelField::BelongsTo { parent: p1, on_delete: d1 }, ModelField::BelongsTo { parent: p2, on_delete: d2 }] =>
        {
            assert_eq!(p1, "Library");
            assert_eq!(*d1, DeleteBehavior::Cascade);
            assert_eq!(p2, "Patron");
            assert_eq!(*d2, DeleteBehavior::Restrict);
        }
        other => panic!("unexpected fields: {:?}", other),
    }
}

#[test]
fn belongs_to_without_clause_is_restrict() {
    let s = parse("store: S; model Book { belongs_to Shelf; }").unwrap();
    match &s.models[0].fields[..] {
        [ModelField::BelongsTo { parent, on_delete }] => {
            assert_eq!(parent, "Shelf");
            assert_eq!(*on_delete, DeleteBehavior::Restrict);
        }
        other => panic!("unexpected fields: {:?}", other),
    }
}

#[test]
fn model_without_relations_has_no_fields() {
    let s = parse("store: S; model Plain; model Empty {}").unwrap();
    assert_eq!(s.models.len(), 2);
    assert!(s.models[0].fields.is_empty());
    assert!(s.models[1].fields.is_empty());
}

#[test]
fn store_without_models() {
    let s = parse("store: Lonely;").unwrap();
    assert_eq!(s.store_name, "Lonely");
    assert!(s.models.is_empty());
}

#[test]
fn missing_store_keyword() {
    let e = parse("model X;").unwrap_err();
    assert_eq!(e, ParseError { pos: 0, kind: ErrorKind::ExpectedKeyword(Keyword::Store) });
    assert_eq!(message("model X;"), "expected `store`");
}

#[test]
fn empty_input_ends_early() {
    assert_eq!(message(""), "unexpected end of input, expected `store`");
}

#[test]
fn missing_colon() {
    let e = parse("store Store;").unwrap_err();
    assert_eq!(e.kind, ErrorKind::ExpectedColon);
    assert_eq!(message("store Store;"), "expected `:`");
}

#[test]
fn missing_semicolon_at_end_has_no_end_note() {
    assert_eq!(message("store: S"), "expected `;`");
}

#[test]
fn keyword_refused_as_name() {
    let e = parse("store: fn;").unwrap_err();
    assert_eq!(e, ParseError { pos: 2, kind: ErrorKind::KeywordAsIdent });
    assert_eq!(message("store: fn;"), "expected identifier, found keyword `fn`");
    assert_eq!(message("store: S; model Self;"), "expected identifier, found keyword `Self`");
    assert_eq!(message("store: _;"), "expected identifier, found keyword `_`");
}

#[test]
fn literal_is_not_a_name() {
    assert_eq!(message("store: \"S\";"), "expected identifier");
}

#[test]
fn name_missing_at_end_of_input() {
    assert_eq!(message("store: S; model"), "unexpected end of input, expected identifier");
}

#[test]
fn unknown_field_word() {
    let src = "store: S; model A { owns B; }";
    assert_eq!(parse(src).unwrap_err().kind, ErrorKind::ExpectedField);
    assert_eq!(message(src), "Expected `belongs_to`, `has_many`, or `index`");
}

#[test]
fn model_needs_braces_or_semicolon() {
    let src = "store: S; model A belongs_to B;";
    assert_eq!(parse(src).unwrap_err().kind, ErrorKind::ExpectedBraces);
    assert_eq!(message(src), "expected curly braces");
    assert_eq!(
        message("store: S; model A (belongs_to B;)"),
        "expected curly braces"
    );
}

#[test]
fn field_missing_semicolon_inside_braces() {
    let src = "store: S; model A { has_many B }";
    assert_eq!(parse(src).unwrap_err().kind, ErrorKind::ExpectedSemicolon);
    assert_eq!(message(src), "expected `;`");
}

#[test]
fn index_needs_unique() {
    let src = "store: S; model A { index email; }";
    assert_eq!(
        parse(src).unwrap_err().kind,
        ErrorKind::ExpectedKeyword(Keyword::Unique)
    );
    assert_eq!(message(src), "expected `unique`");
}

#[test]
fn on_delete_needs_equals() {
    let src = "store: S; model A { belongs_to B (on_delete cascade); }";
    assert_eq!(parse(src).unwrap_err().kind, ErrorKind::ExpectedEquals);
    assert_eq!(message(src), "expected `=`");
}

#[test]
fn unknown_delete_behavior() {
    let src = "store: S; model A { belongs_to B (on_delete = nullify); }";
    assert_eq!(
        parse(src).unwrap_err().kind,
        ErrorKind::ExpectedKeyword(Keyword::Restrict)
    );
    assert_eq!(message(src), "expected `restrict`");
    assert_eq!(
        message("store: S; model A { belongs_to B (on_delete =); }"),
        "unexpected end of input, expected `restrict`"
    );
    assert_eq!(
        message("store: S; model A { belongs_to B (); }"),
        "unexpected end of input, expected `on_delete`"
    );
}

#[test]
fn leftover_in_parens_reported_last() {
    let src = "store: S; model A { belongs_to B (on_delete = cascade extra [x]); }";
    let e = parse(src).unwrap_err();
    assert_eq!(e.kind, ErrorKind::UnexpectedInParens);
    assert_eq!(message(src), "unexpected token, expected `)`");
    // A later error is reported in its place.
    let later = "store: S; model A { belongs_to B (on_delete = cascade extra); } model";
    assert_eq!(
        parse(later).unwrap_err().kind,
        ErrorKind::ExpectedIdent
    );
}

#[test]
fn has_many_through_needs_join_name() {
    let src = "store: S; model A { has_many B through; }";
    assert_eq!(parse(src).unwrap_err().kind, ErrorKind::ExpectedIdent);
    assert_eq!(message(src), "expected identifier");
}

#[test]
fn model_keyword_required_at_top_level() {
    let src = "store: S; index unique x;";
    assert_eq!(
        parse(src).unwrap_err().kind,
        ErrorKind::ExpectedKeyword(Keyword::Model)
    );
}

#[test]
fn stray_close_at_top_level_is_unexpected() {
    let mut t = toks("store: S;");
    t.push(Tok::Close(Delim::Paren));
    let e = SchemaDef::parse(&t).unwrap_err();
    assert_eq!(e, ParseError { pos: 4, kind: ErrorKind::UnexpectedToken });
    assert_eq!(e.message(&t), "unexpected token");
}

#[test]
fn raw_identifiers_are_names() {
    let s = parse("store: r#type;").unwrap();
    assert_eq!(s.store_name, "r#type");
}

#[test]
fn unclosed_brace_group_is_unexpected_end() {
    let mut t = toks("store: S; model A");
    t.push(Tok::Open(Delim::Brace));
    let e = SchemaDef::parse(&t).unwrap_err();
    assert_eq!(e, ParseError { pos: 7, kind: ErrorKind::UnexpectedToken });
}

#[test]
fn explicit_restrict_and_cascade() {
    let s = parse(
        "store: S; model A { belongs_to B (on_delete = restrict); belongs_to C (on_delete = cascade); }",
    )
    .unwrap();
    match &s.models[0].fields[..] {
        [ModelField::BelongsTo { on_delete: d1, .. }, ModelField::BelongsTo { on_delete: d2, .. }] => {
            assert_eq!(*d1, DeleteBehavior::Restrict);
            assert_eq!(*d2, DeleteBehavior::Cascade);
        }
        other => panic!("unexpected fields: {:?}", other),
    }
}
