//! What a schema says about each model: its parents, children, indexes, and
//! the models that point at it.

use crate::schema::{DeleteBehavior, FieldView, ModelDef, ModelField, ModelView, SchemaDef};
use vstd::prelude::*;

verus! {

/// The parents named by the `belongs_to` fields, in order.
pub open spec fn parents_of(fields: Seq<FieldView>) -> Seq<Seq<char>>
    decreases fields.len(),
{
    if fields.len() == 0 {
        Seq::empty()
    } else {
        let rest = parents_of(fields.drop_last());
        match fields.last() {
            FieldView::BelongsTo { parent, .. } => rest.push(parent),
            _ => rest,
        }
    }
}

/// The fields named by the `index` fields, in order.
pub open spec fn index_fields_of(fields: Seq<FieldView>) -> Seq<Seq<char>>
    decreases fields.len(),
{
    if fields.len() == 0 {
        Seq::empty()
    } else {
        let rest = index_fields_of(fields.drop_last());
        match fields.last() {
            FieldView::Index { field_name } => rest.push(field_name),
            _ => rest,
        }
    }
}

/// The children named by the plain `has_many` fields, in order.
pub open spec fn children_of(fields: Seq<FieldView>) -> Seq<Seq<char>>
    decreases fields.len(),
{
    if fields.len() == 0 {
        Seq::empty()
    } else {
        let rest = children_of(fields.drop_last());
        match fields.last() {
            FieldView::HasMany { child } => rest.push(child),
            _ => rest,
        }
    }
}

/// The (child, join) pairs named by the `has_many ... through` fields, in order.
pub open spec fn through_children_of(fields: Seq<FieldView>) -> Seq<(Seq<char>, Seq<char>)>
    decreases fields.len(),
{
    if fields.len() == 0 {
        Seq::empty()
    } else {
        let rest = through_children_of(fields.drop_last());
        match fields.last() {
            FieldView::HasManyThrough { child, through } => rest.push((child, through)),
            _ => rest,
        }
    }
}

/// For one child model, an entry with its delete behavior for each of its
/// fields that belongs to `parent`, in order.
pub open spec fn refs_in(child: ModelView, fields: Seq<FieldView>, parent: Seq<char>) -> Seq<
    (ModelView, DeleteBehavior),
>
    decreases fields.len(),
{
    if fields.len() == 0 {
        Seq::empty()
    } else {
        let rest = refs_in(child, fields.drop_last(), parent);
        match fields.last() {
            FieldView::BelongsTo { parent: p, on_delete } => if p == parent {
                rest.push((child, on_delete))
            } else {
                rest
            },
            _ => rest,
        }
    }
}

/// Every (child model, delete behavior) such that the child has a
/// `belongs_to parent` field, models in order and fields in order within each.
pub open spec fn incoming_of(models: Seq<ModelView>, parent: Seq<char>) -> Seq<
    (ModelView, DeleteBehavior),
>
    decreases models.len(),
{
    if models.len() == 0 {
        Seq::empty()
    } else {
        incoming_of(models.drop_last(), parent) + refs_in(
            models.last(),
            models.last().fields,
            parent,
        )
    }
}

/// The views of a sequence of borrowed names.
pub open spec fn names_view(v: Seq<&String>) -> Seq<Seq<char>> {
    v.map_values(|s: &String| s@)
}

/// The views of a sequence of borrowed name pairs.
pub open spec fn pairs_view(v: Seq<(&String, &String)>) -> Seq<(Seq<char>, Seq<char>)> {
    v.map_values(|p: (&String, &String)| (p.0@, p.1@))
}

/// The views of a sequence of (model, behavior) pairs.
pub open spec fn relations_view(v: Seq<(&ModelDef, DeleteBehavior)>) -> Seq<
    (ModelView, DeleteBehavior),
> {
    v.map_values(|p: (&ModelDef, DeleteBehavior)| (p.0@, p.1))
}

/// Extracts the parent models of all `belongs_to` fields of a model.
/// For `belongs_to Library; belongs_to Patron;` they are `[Library, Patron]`.
pub fn belongs_to_parents(model: &ModelDef) -> (r: Vec<&String>)
    ensures
        names_view(r@) == parents_of(model@.fields),
{
    let ghost fv = model@.fields;
    let mut r: Vec<&String> = Vec::new();
    let mut i: usize = 0;
    while i < model.fields.len()
        invariant
            i <= model.fields.len(),
            fv == model@.fields,
            fv.len() == model.fields.len(),
            names_view(r@) == parents_of(fv.take(i as int)),
        decreases model.fields.len() - i,
    {
        proof {
            assert(fv.take(i + 1).drop_last() =~= fv.take(i as int));
        }
        let ghost before = r@;
        match &model.fields[i] {
            ModelField::BelongsTo { parent, .. } => {
                r.push(parent);
                proof {
                    assert(names_view(r@) =~= names_view(before).push(parent@));
                }
            },
            _ => {},
        }
        i = i + 1;
    }
    proof {
        assert(fv.take(fv.len() as int) =~= fv);
    }
    r
}

/// Extracts the field names of all `index` fields of a model.
/// For `index unique email; index unique username;` they are `[email, username]`.
pub fn index_fields(model: &ModelDef) -> (r: Vec<&String>)
    ensures
        names_view(r@) == index_fields_of(model@.fields),
{
    let ghost fv = model@.fields;
    let mut r: Vec<&String> = Vec::new();
    let mut i: usize = 0;
    while i < model.fields.len()
        invariant
            i <= model.fields.len(),
            fv == model@.fields,
            fv.len() == model.fields.len(),
            names_view(r@) == index_fields_of(fv.take(i as int)),
        decreases model.fields.len() - i,
    {
        proof {
            assert(fv.take(i + 1).drop_last() =~= fv.take(i as int));
        }
        let ghost before = r@;
        match &model.fields[i] {
            ModelField::Index { field_name } => {
                r.push(field_name);
                proof {
                    assert(names_view(r@) =~= names_view(before).push(field_name@));
                }
            },
            _ => {},
        }
        i = i + 1;
    }
    proof {
        assert(fv.take(fv.len() as int) =~= fv);
    }
    r
}

/// Extracts the child models of all plain `has_many` fields of a model.
/// For `has_many Checkout; has_many Book;` they are `[Checkout, Book]`.
pub fn has_many_children(model: &ModelDef) -> (r: Vec<&String>)
    ensures
        names_view(r@) == children_of(model@.fields),
{
    let ghost fv = model@.fields;
    let mut r: Vec<&String> = Vec::new();
    let mut i: usize = 0;
    while i < model.fields.len()
        invariant
            i <= model.fields.len(),
            fv == model@.fields,
            fv.len() == model.fields.len(),
            names_view(r@) == children_of(fv.take(i as int)),
        decreases model.fields.len() - i,
    {
        proof {
            assert(fv.take(i + 1).drop_last() =~= fv.take(i as int));
        }
        let ghost before = r@;
        match &model.fields[i] {
            ModelField::HasMany { child } => {
                r.push(child);
                proof {
                    assert(names_view(r@) =~= names_view(before).push(child@));
                }
            },
            _ => {},
        }
        i = i + 1;
    }
    proof {
        assert(fv.take(fv.len() as int) =~= fv);
    }
    r
}

/// Extracts the (child, join) models of all `has_many ... through` fields.
/// For `has_many Patron through Checkout;` they are `[(Patron, Checkout)]`.
pub fn has_many_through_children(model: &ModelDef) -> (r: Vec<(&String, &String)>)
    ensures
        pairs_view(r@) == through_children_of(model@.fields),
{
    let ghost fv = model@.fields;
    let mut r: Vec<(&String, &String)> = Vec::new();
    let mut i: usize = 0;
    while i < model.fields.len()
        invariant
            i <= model.fields.len(),
            fv == model@.fields,
            fv.len() == model.fields.len(),
            pairs_view(r@) == through_children_of(fv.take(i as int)),
        decreases model.fields.len() - i,
    {
        proof {
            assert(fv.take(i + 1).drop_last() =~= fv.take(i as int));
        }
        let ghost before = r@;
        match &model.fields[i] {
            ModelField::HasManyThrough { child, through } => {
                r.push((child, through));
                proof {
                    assert(pairs_view(r@) =~= pairs_view(before).push((child@, through@)));
                }
            },
            _ => {},
        }
        i = i + 1;
    }
    proof {
        assert(fv.take(fv.len() as int) =~= fv);
    }
    r
}

/// Finds every model with a `belongs_to` field that points at `parent`, with
/// that field's delete behavior. With `model Checkout { belongs_to Library
/// (on_delete = cascade); }`, the relations of `Library` are `[(Checkout, Cascade)]`.
pub fn incoming_relations<'a>(schema: &'a SchemaDef, parent: &String) -> (r: Vec<
    (&'a ModelDef, DeleteBehavior),
>)
    ensures
        relations_view(r@) == incoming_of(schema@.models, parent@),
{
    let ghost mv = schema@.models;
    let mut r: Vec<(&'a ModelDef, DeleteBehavior)> = Vec::new();
    let mut i: usize = 0;
    while i < schema.models.len()
        invariant
            i <= schema.models.len(),
            mv == schema@.models,
            mv.len() == schema.models.len(),
            relations_view(r@) == incoming_of(mv.take(i as int), parent@),
        decreases schema.models.len() - i,
    {
        let child = &schema.models[i];
        let ghost fv = child@.fields;
        let ghost base = r@;
        let mut j: usize = 0;
        while j < child.fields.len()
            invariant
                j <= child.fields.len(),
                fv == child@.fields,
                fv.len() == child.fields.len(),
                relations_view(r@) == relations_view(base) + refs_in(
                    child@,
                    fv.take(j as int),
                    parent@,
                ),
            decreases child.fields.len() - j,
        {
            proof {
                assert(fv.take(j + 1).drop_last() =~= fv.take(j as int));
            }
            let ghost before = r@;
            match &child.fields[j] {
                ModelField::BelongsTo { parent: p, on_delete } => {
                    if p.eq(parent) {
                        r.push((child, *on_delete));
                        proof {
                            assert(relations_view(r@) =~= relations_view(before).push(
                                (child@, *on_delete),
                            ));
                        }
                    }
                },
                _ => {},
            }
            j = j + 1;
        }
        proof {
            assert(fv.take(fv.len() as int) =~= fv);
            assert(mv.take(i + 1).drop_last() =~= mv.take(i as int));
            assert(mv.take(i + 1).last() == child@);
        }
        i = i + 1;
    }
    proof {
        assert(mv.take(mv.len() as int) =~= mv);
    }
    r
}

} // verus!
