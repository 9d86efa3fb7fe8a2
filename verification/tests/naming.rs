use graphlink::naming::{
    add_method_ident, collection_ident, entity_ident, id_type_ident, index_getter_ident,
    index_key_ident, index_map_ident, pluralize, remove_method_ident, snake_ident, snake_name,
    update_method_ident,
};

#[test]
fn pluralize_follows_inflector() {
    assert_eq!(pluralize("Checkout"), "Checkouts");
    assert_eq!(pluralize("library"), "libraries");
    assert_eq!(pluralize("patron"), "patrons");
    assert_eq!(pluralize("email"), "emails");
    assert_eq!(pluralize("box"), "boxes");
}

#[test]
fn snake_case_of_model_names() {
    assert_eq!(snake_name("BlogPost"), "blog_post");
    assert_eq!(snake_ident("Library"), "library");
}

#[test]
fn collection_names() {
    assert_eq!(collection_ident("BlogPost"), "blog_posts");
    assert_eq!(collection_ident("Library"), "libraries");
    assert_eq!(collection_ident("Checkout"), "checkouts");
}

#[test]
fn type_and_method_names() {
    assert_eq!(id_type_ident("Library"), "LibraryId");
    assert_eq!(entity_ident("Library"), "LibraryEntity");
    assert_eq!(add_method_ident("BlogPost"), "add_blog_post");
    assert_eq!(update_method_ident("BlogPost"), "update_blog_post");
    assert_eq!(remove_method_ident("BlogPost"), "remove_blog_post");
}

#[test]
fn index_names() {
    assert_eq!(index_map_ident("BlogPost", "TagId"), "blog_post_tag_ids");
    assert_eq!(index_map_ident("Patron", "email"), "patron_emails");
    assert_eq!(index_getter_ident("BlogPost", "TagId"), "get_blog_post_by_tag_id");
    assert_eq!(index_getter_ident("Patron", "email"), "get_patron_by_email");
    assert_eq!(index_key_ident("email"), "index_key_email");
}

#[test]
fn raw_identifiers_lose_their_prefix_inside_names() {
    assert_eq!(id_type_ident("r#Type"), "TypeId");
    assert_eq!(entity_ident("r#Type"), "TypeEntity");
    assert_eq!(index_key_ident("r#type"), "index_key_type");
    assert_eq!(index_key_ident("email"), "index_key_email");
}
