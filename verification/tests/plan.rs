use graphlink::codegen::{plan_schema, SchemaPlan};
use graphlink::relations::{
    belongs_to_parents, has_many_children, has_many_through_children, incoming_relations,
    index_fields,
};
use graphlink::tokens::{Delim, Tok};
use graphlink::{DeleteBehavior, SchemaDef};
use proc_macro2::{Delimiter, TokenStream, TokenTree};

fn flatten(ts: TokenStream, out: &mut Vec<Tok>) {
    for tt in ts {
        match tt {
            TokenTree::Ident(i) => out.push(Tok::Ident(i.to_string())),
            TokenTree::Punct(p) => out.push(Tok::Punct(p.as_char())),
            TokenTree::Literal(_) => out.push(Tok::Literal),
            TokenTree::Group(g) => {
                let d = match g.delimiter() {
                    Delimiter::Parenthesis => Some(Delim::Paren),
                    Delimiter::Brace => Some(Delim::Brace),
                    Delimiter::Bracket => Some(Delim::Bracket),
                    Delimiter::None => None,
                };
                match d {
                    Some(d) => {
                        out.push(Tok::Open(d));
                        flatten(g.stream(), out);
                        out.push(Tok::Close(d));
                    }
                    None => flatten(g.stream(), out),
                }
            }
        }
    }
}

fn schema(src: &str) -> SchemaDef {
    let mut v = Vec::new();
    flatten(src.parse::<TokenStream>().unwrap(), &mut v);
    SchemaDef::parse(&v).unwrap()
}

const LIBRARY_SCHEMA: &str = "
    store: Store;

    model Library {
        has_many Checkout;
        has_many Patron through Checkout;
    }

    model Patron {
        index unique email;
        has_many Checkout;
    }

    model Checkout {
        belongs_to Library (on_delete = cascade);
        belongs_to Patron (on_delete = restrict);
    }
";

fn plan() -> SchemaPlan {
    plan_schema(&schema(LIBRARY_SCHEMA))
}

#[test]
fn relations_of_each_model() {
    let s = schema(LIBRARY_SCHEMA);
    let parents: Vec<&String> = belongs_to_parents(&s.models[2]);
    assert_eq!(parents, vec!["Library", "Patron"]);
    assert_eq!(index_fields(&s.models[1]), vec!["email"]);
    assert_eq!(has_many_children(&s.models[0]), vec!["Checkout"]);
    assert_eq!(has_many_children(&s.models[1]), vec!["Checkout"]);
    let through = has_many_through_children(&s.models[0]);
    assert_eq!(through.len(), 1);
    assert_eq!(through[0].0, "Patron");
    assert_eq!(through[0].1, "Checkout");
    assert!(belongs_to_parents(&s.models[0]).is_empty());
}

#[test]
fn incoming_relations_with_behaviors() {
    let s = schema(LIBRARY_SCHEMA);
    let lib = incoming_relations(&s, &"Library".to_string());
    assert_eq!(lib.len(), 1);
    assert_eq!(lib[0].0.name, "Checkout");
    assert_eq!(lib[0].1, DeleteBehavior::Cascade);
    let pat = incoming_relations(&s, &"Patron".to_string());
    assert_eq!(pat.len(), 1);
    assert_eq!(pat[0].1, DeleteBehavior::Restrict);
    assert!(incoming_relations(&s, &"Checkout".to_string()).is_empty());
}

#[test]
fn store_fields_and_key_types() {
    let p = plan();
    assert_eq!(p.store_name, "Store");
    assert_eq!(p.id_definitions, vec!["LibraryId", "PatronId", "CheckoutId"]);
    assert_eq!(p.init_collections, vec!["libraries", "patrons", "checkouts"]);
    assert_eq!(p.collections[1].collection, "patrons");
    assert_eq!(p.collections[1].id_type, "PatronId");
    assert_eq!(p.collections[1].name, "Patron");
    assert_eq!(p.indexes.len(), 1);
    assert_eq!(p.indexes[0].map_name, "patron_emails");
    assert_eq!(p.indexes[0].id_type, "PatronId");
    assert_eq!(p.init_indexes, vec!["patron_emails"]);
}

#[test]
fn add_links_checkout_into_both_parents() {
    let p = plan();
    let add = &p.add_methods[2];
    assert_eq!(add.model.add_method, "add_checkout");
    assert_eq!(add.model.collection, "checkouts");
    assert_eq!(add.parents.len(), 2);
    assert_eq!(add.parents[0].snake, "library");
    assert_eq!(add.parents[0].collection, "libraries");
    assert_eq!(add.parents[1].snake, "patron");
    assert_eq!(add.parents[1].collection, "patrons");
    assert!(add.indexes.is_empty());
    let add_patron = &p.add_methods[1];
    assert_eq!(add_patron.indexes.len(), 1);
    assert_eq!(add_patron.indexes[0].key_var, "index_key_email");
    assert_eq!(add_patron.indexes[0].map_name, "patron_emails");
}

#[test]
fn getters_by_key_and_by_index() {
    let p = plan();
    let get = &p.get_methods[1];
    assert_eq!(get.model.snake, "patron");
    assert_eq!(get.model.entity, "PatronEntity");
    assert_eq!(get.index_getters.len(), 1);
    assert_eq!(get.index_getters[0].getter_name, "get_patron_by_email");
    assert_eq!(get.index_getters[0].field_name, "email");
    assert_eq!(get.index_getters[0].map_name, "patron_emails");
}

#[test]
fn entity_traversals() {
    let p = plan();
    let lib = &p.entity_structs[0];
    assert_eq!(lib.model.entity, "LibraryEntity");
    assert_eq!(lib.children.len(), 1);
    assert_eq!(lib.children[0].collection, "checkouts");
    assert_eq!(lib.children[0].snake, "checkout");
    assert_eq!(lib.through.len(), 1);
    assert_eq!(lib.through[0].child.collection, "patrons");
    assert_eq!(lib.through[0].through.collection, "checkouts");
    assert_eq!(lib.through[0].child.snake, "patron");
    let checkout = &p.entity_structs[2];
    assert_eq!(checkout.parents.len(), 2);
    assert_eq!(checkout.parents[0].snake, "library");
    assert_eq!(checkout.parents[0].entity, "LibraryEntity");
}

#[test]
fn update_rekeys_the_index() {
    let p = plan();
    let upd = &p.update_methods[1];
    assert_eq!(upd.model.update_method, "update_patron");
    assert_eq!(upd.not_found, "Patron not found");
    assert_eq!(upd.indexes.len(), 1);
    assert_eq!(upd.indexes[0].map_name, "patron_emails");
    assert_eq!(upd.indexes[0].field_name, "email");
}

#[test]
fn removal_of_patron_is_restricted_by_checkouts() {
    let p = plan();
    let rem = &p.remove_methods[1];
    assert_eq!(rem.model.remove_method, "remove_patron");
    assert_eq!(rem.restrict_checks.len(), 1);
    assert_eq!(rem.restrict_checks[0].child.collection, "checkouts");
    assert_eq!(
        rem.restrict_checks[0].message,
        "Cannot delete Patron: it has active Checkouts"
    );
    assert!(rem.cascade_deletes.is_empty());
    assert_eq!(rem.indexes.len(), 1);
    assert_eq!(rem.indexes[0].map_name, "patron_emails");
}

#[test]
fn removal_of_library_cascades_to_checkouts() {
    let p = plan();
    let rem = &p.remove_methods[0];
    assert!(rem.restrict_checks.is_empty());
    assert_eq!(rem.cascade_deletes.len(), 1);
    assert_eq!(rem.cascade_deletes[0].collection, "checkouts");
    assert_eq!(rem.cascade_deletes[0].remove_method, "remove_checkout");
}

#[test]
fn removal_of_checkout_scrubs_what_add_linked() {
    let p = plan();
    let rem = &p.remove_methods[2];
    let add = &p.add_methods[2];
    assert_eq!(rem.parents.len(), add.parents.len());
    for (r, a) in rem.parents.iter().zip(add.parents.iter()) {
        assert_eq!(r.collection, a.collection);
        assert_eq!(r.snake, a.snake);
    }
    assert_eq!(rem.model.collection, add.model.collection);
}

#[test]
fn indexes_agree_across_methods() {
    let p = plan();
    let a = &p.add_methods[1].indexes[0];
    let u = &p.update_methods[1].indexes[0];
    let r = &p.remove_methods[1].indexes[0];
    let g = &p.get_methods[1].index_getters[0];
    for s in [u, r, g] {
        assert_eq!(s.map_name, a.map_name);
        assert_eq!(s.field_name, a.field_name);
        assert_eq!(s.getter_name, a.getter_name);
    }
    assert!(p.indexes.iter().any(|f| f.map_name == a.map_name));
}

#[test]
fn two_restricting_children_are_both_checked() {
    let p = plan_schema(&schema(
        "store: S;
         model Shelf { has_many Book; has_many Tag; }
         model Book { belongs_to Shelf; }
         model Tag { belongs_to Shelf (on_delete = cascade); }
         model Note { belongs_to Shelf (on_delete = restrict); }",
    ));
    let rem = &p.remove_methods[0];
    assert_eq!(rem.restrict_checks.len(), 2);
    assert_eq!(rem.restrict_checks[0].message, "Cannot delete Shelf: it has active Books");
    assert_eq!(rem.restrict_checks[1].message, "Cannot delete Shelf: it has active Notes");
    assert_eq!(rem.cascade_deletes.len(), 1);
    assert_eq!(rem.cascade_deletes[0].remove_method, "remove_tag");
}

#[test]
fn doc_examples_of_field_lists() {
    let s = schema(
        "store: S;
         model Library { has_many Checkout; has_many Book; }
         model Patron { index unique email; index unique username; }",
    );
    assert_eq!(has_many_children(&s.models[0]), vec!["Checkout", "Book"]);
    assert_eq!(index_fields(&s.models[1]), vec!["email", "username"]);
    let p = plan_schema(&s);
    assert_eq!(p.init_indexes, vec!["patron_emails", "patron_usernames"]);
}

#[test]
fn traversal_reads_the_field_that_add_links() {
    let p = plan();
    let patron_entity = &p.entity_structs[1];
    let add_checkout = &p.add_methods[2];
    assert_eq!(patron_entity.children[0].collection, add_checkout.model.collection);
    assert!(add_checkout
        .parents
        .iter()
        .any(|parent| parent.collection == "patrons" && parent.snake == "patron"));
}

#[test]
fn raw_field_names_in_index_plans() {
    let p = plan_schema(&schema("store: S; model Tag { index unique r#type; }"));
    let slot = &p.add_methods[0].indexes[0];
    assert_eq!(slot.field_name, "r#type");
    assert_eq!(slot.key_var, "index_key_type");
}

#[test]
fn cascade_checks_the_grandchildren_first() {
    let p = plan_schema(&schema(
        "store: S;
         model A { has_many B; }
         model B { belongs_to A (on_delete = cascade); has_many C; }
         model C { belongs_to B; }",
    ));
    let remove_a = &p.remove_methods[0];
    assert!(remove_a.restrict_checks.is_empty());
    assert_eq!(remove_a.cascade_deletes.len(), 1);
    assert_eq!(remove_a.cascade_deletes[0].can_remove_method, "can_remove_b");
    let remove_b = &p.remove_methods[1];
    assert_eq!(remove_b.model.can_remove_method, "can_remove_b");
    assert_eq!(remove_b.restrict_checks.len(), 1);
    assert_eq!(remove_b.restrict_checks[0].message, "Cannot delete B: it has active Cs");
}
