//! Names that a schema derives for the items of a generated store.

use inflector::Inflector;
use vstd::prelude::*;
use vstd::string::StrSliceExecFns;

verus! {

/// What `inflector`'s `to_snake_case` returns for a given text.
pub uninterp spec fn snake_case_of(s: Seq<char>) -> Seq<char>;

/// What `inflector`'s `to_plural` returns for a given text.
pub uninterp spec fn plural_of(s: Seq<char>) -> Seq<char>;

/// Calls `Inflector::to_snake_case` on a `str`. The result is a function of the
/// text alone, named `snake_case_of`; nothing more of it is claimed here.
#[verifier::external_body]
fn inflector_snake_case(s: &str) -> (r: String)
    ensures
        r@ == snake_case_of(s@),
{
    s.to_snake_case()
}

/// Calls `Inflector::to_plural` on a `str`. The result is a function of the
/// text alone, named `plural_of`; nothing more of it is claimed here.
#[verifier::external_body]
fn inflector_plural(s: &str) -> (r: String)
    ensures
        r@ == plural_of(s@),
{
    s.to_plural()
}

/// Pluralizes a word the way `inflector` does.
pub fn pluralize(value: &str) -> (r: String)
    ensures
        r@ == plural_of(value@),
{
    inflector_plural(value)
}

/// The snake-case form of a model name: `BlogPost` gives `blog_post`.
pub open spec fn snake_of(name: Seq<char>) -> Seq<char> {
    snake_case_of(name)
}

/// The name of a model's collection in the store: `BlogPost` gives `blog_posts`.
pub open spec fn collection_of(name: Seq<char>) -> Seq<char> {
    plural_of(snake_case_of(name))
}

/// An identifier as it stands inside a longer identifier: a raw identifier
/// such as `r#type` gives `type`, any other is kept as it is.
pub open spec fn fragment_of(name: Seq<char>) -> Seq<char> {
    if name.len() >= 2 && name[0] == 'r' && name[1] == '#' {
        name.skip(2)
    } else {
        name
    }
}

/// The name of a model's key type: `Library` gives `LibraryId`.
pub open spec fn id_type_of(name: Seq<char>) -> Seq<char> {
    fragment_of(name) + "Id"@
}

/// The name of a model's entity wrapper: `Library` gives `LibraryEntity`.
pub open spec fn entity_of(name: Seq<char>) -> Seq<char> {
    fragment_of(name) + "Entity"@
}

/// The name of a model's insertion method: `BlogPost` gives `add_blog_post`.
pub open spec fn add_method_of(name: Seq<char>) -> Seq<char> {
    "add_"@ + snake_case_of(name)
}

/// The name of a model's update method: `BlogPost` gives `update_blog_post`.
pub open spec fn update_method_of(name: Seq<char>) -> Seq<char> {
    "update_"@ + snake_case_of(name)
}

/// The name of a model's removal method: `BlogPost` gives `remove_blog_post`.
pub open spec fn remove_method_of(name: Seq<char>) -> Seq<char> {
    "remove_"@ + snake_case_of(name)
}

/// The name of the secondary index of a field: `BlogPost`, `TagId` give `blog_post_tag_ids`.
pub open spec fn index_map_of(model: Seq<char>, field: Seq<char>) -> Seq<char> {
    snake_case_of(model) + "_"@ + plural_of(snake_case_of(field))
}

/// The name of a model's removal check: `BlogPost` gives `can_remove_blog_post`.
pub open spec fn can_remove_method_of(name: Seq<char>) -> Seq<char> {
    "can_remove_"@ + snake_case_of(name)
}

/// The name of the lookup through an index: `BlogPost`, `TagId` give `get_blog_post_by_tag_id`.
pub open spec fn index_getter_of(model: Seq<char>, field: Seq<char>) -> Seq<char> {
    "get_"@ + snake_case_of(model) + "_by_"@ + snake_case_of(field)
}

/// The name of the local that holds an index key: `email` gives `index_key_email`.
pub open spec fn index_key_of(field: Seq<char>) -> Seq<char> {
    "index_key_"@ + fragment_of(field)
}

/// Joins two texts.
fn join2(a: &str, b: &str) -> (r: String)
    ensures
        r@ == a@ + b@,
{
    let mut r = String::from_str(a);
    r.append(b);
    r
}

/// The identifier without the `r#` of a raw identifier.
fn ident_fragment(name: &str) -> (r: &str)
    ensures
        r@ == fragment_of(name@),
{
    let n = name.unicode_len();
    if n >= 2 && name.get_char(0) == 'r' && name.get_char(1) == '#' {
        name.substring_char(2, n)
    } else {
        name
    }
}

/// Converts a model name like `BlogPost` to `blog_post`.
pub fn snake_name(model_name: &str) -> (r: String)
    ensures
        r@ == snake_of(model_name@),
{
    inflector_snake_case(model_name)
}

/// Converts a model name like `BlogPost` to `blog_posts`.
pub fn collection_ident(model_name: &str) -> (r: String)
    ensures
        r@ == collection_of(model_name@),
{
    let snake = snake_name(model_name);
    pluralize(snake.as_str())
}

/// Converts a model name like `Library` to `LibraryId`.
pub fn id_type_ident(model_name: &str) -> (r: String)
    ensures
        r@ == id_type_of(model_name@),
{
    join2(ident_fragment(model_name), "Id")
}

/// Converts a model name like `Library` to `LibraryEntity`.
pub fn entity_ident(model_name: &str) -> (r: String)
    ensures
        r@ == entity_of(model_name@),
{
    join2(ident_fragment(model_name), "Entity")
}

/// Converts a model name like `BlogPost` to the identifier `blog_post`.
pub fn snake_ident(model_name: &str) -> (r: String)
    ensures
        r@ == snake_of(model_name@),
{
    snake_name(model_name)
}

/// Converts a model name like `BlogPost` to `add_blog_post`.
pub fn add_method_ident(model_name: &str) -> (r: String)
    ensures
        r@ == add_method_of(model_name@),
{
    let snake = snake_name(model_name);
    join2("add_", snake.as_str())
}

/// Converts a model name like `BlogPost` to `update_blog_post`.
pub fn update_method_ident(model_name: &str) -> (r: String)
    ensures
        r@ == update_method_of(model_name@),
{
    let snake = snake_name(model_name);
    join2("update_", snake.as_str())
}

/// Converts a model name like `BlogPost` to `remove_blog_post`.
pub fn remove_method_ident(model_name: &str) -> (r: String)
    ensures
        r@ == remove_method_of(model_name@),
{
    let snake = snake_name(model_name);
    join2("remove_", snake.as_str())
}

/// Converts a model name like `BlogPost` to `can_remove_blog_post`.
pub fn can_remove_method_ident(model_name: &str) -> (r: String)
    ensures
        r@ == can_remove_method_of(model_name@),
{
    let snake = snake_name(model_name);
    join2("can_remove_", snake.as_str())
}

/// Combines a model name like `BlogPost` with a field name like `TagId` to `blog_post_tag_ids`.
pub fn index_map_ident(model_name: &str, field_name: &str) -> (r: String)
    ensures
        r@ == index_map_of(model_name@, field_name@),
{
    let model_snake = snake_name(model_name);
    let field_snake = inflector_snake_case(field_name);
    let field_plural = pluralize(field_snake.as_str());
    let mut r = join2(model_snake.as_str(), "_");
    r.append(field_plural.as_str());
    r
}

/// Combines names like `BlogPost` and `TagId` to `get_blog_post_by_tag_id`.
pub fn index_getter_ident(model_name: &str, field_name: &str) -> (r: String)
    ensures
        r@ == index_getter_of(model_name@, field_name@),
{
    let model_snake = snake_name(model_name);
    let field_snake = inflector_snake_case(field_name);
    let mut r = join2("get_", model_snake.as_str());
    r.append("_by_");
    r.append(field_snake.as_str());
    r
}

/// Converts a field name like `email` to `index_key_email`.
pub fn index_key_ident(field_name: &str) -> (r: String)
    ensures
        r@ == index_key_of(field_name@),
{
    join2("index_key_", ident_fragment(field_name))
}

} // verus!
