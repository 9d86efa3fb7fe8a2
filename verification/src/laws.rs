//! Properties that hold across the functions of the library: of the schema
//! language, of the generated store's plan, and of the runtime collections.

use crate::codegen::{
    add_plan_of, children_with, entity_plan_of, get_plan_of, index_field_of, index_plan,
    model_index_fields, names_of, remove_plan_of, restrict_message, update_plan_of,
    IndexSlotView, RestrictCheckView, ThroughLinkView,
};
use crate::naming::{index_getter_of, index_key_of, index_map_of};
use crate::parser::{
    accepts_ident, keyword_at, punct_at, spec_field, spec_ident, ErrorKind, Keyword, PErr,
};
use crate::relations::{
    children_of, incoming_of, index_fields_of, parents_of, refs_in, through_children_of,
};
use crate::schema::{DeleteBehavior, FieldView, ModelView};
use crate::store::{Collection, HasMany, Id};
use crate::tokens::TokView;
use vstd::prelude::*;

verus! {

/// A `belongs_to` field without an `on_delete` clause restricts deletion:
/// `belongs_to Parent;` parses as a `Restrict` relation to `Parent`.
pub proof fn law_belongs_to_defaults_to_restrict(
    t: Seq<TokView>,
    p: int,
    d: Option<int>,
    parent: Seq<char>,
)
    requires
        keyword_at(t, p, Keyword::BelongsTo),
        p + 1 < t.len(),
        t[p + 1] == TokView::Ident(parent),
        accepts_ident(parent),
        punct_at(t, p + 2, ';'),
    ensures
        spec_field(t, p, d) == Ok::<(FieldView, int, Option<int>), PErr>(
            (FieldView::BelongsTo { parent, on_delete: DeleteBehavior::Restrict }, p + 3, d),
        ),
{
}

proof fn lemma_refs_in_contains(
    child: ModelView,
    fields: Seq<FieldView>,
    parent: Seq<char>,
    k: int,
    b: DeleteBehavior,
)
    requires
        0 <= k < fields.len(),
        fields[k] == (FieldView::BelongsTo { parent, on_delete: b }),
    ensures
        refs_in(child, fields, parent).contains((child, b)),
    decreases fields.len(),
{
    let r = refs_in(child, fields, parent);
    if k == fields.len() - 1 {
        assert(r[r.len() - 1] == (child, b));
    } else {
        lemma_refs_in_contains(child, fields.drop_last(), parent, k, b);
        let rest = refs_in(child, fields.drop_last(), parent);
        let w = choose|w: int| 0 <= w < rest.len() && rest[w] == (child, b);
        assert(r[w] == (child, b));
    }
}

proof fn lemma_incoming_contains(
    ms: Seq<ModelView>,
    parent: Seq<char>,
    j: int,
    k: int,
    b: DeleteBehavior,
)
    requires
        0 <= j < ms.len(),
        0 <= k < ms[j].fields.len(),
        ms[j].fields[k] == (FieldView::BelongsTo { parent, on_delete: b }),
    ensures
        incoming_of(ms, parent).contains((ms[j], b)),
    decreases ms.len(),
{
    let head = incoming_of(ms.drop_last(), parent);
    let tail = refs_in(ms.last(), ms.last().fields, parent);
    if j == ms.len() - 1 {
        lemma_refs_in_contains(ms.last(), ms.last().fields, parent, k, b);
        let w = choose|w: int| 0 <= w < tail.len() && tail[w] == (ms[j], b);
        assert((head + tail)[head.len() + w] == (ms[j], b));
    } else {
        lemma_incoming_contains(ms.drop_last(), parent, j, k, b);
        let w = choose|w: int| 0 <= w < head.len() && head[w] == (ms[j], b);
        assert((head + tail)[w] == (ms[j], b));
    }
}

proof fn lemma_children_with_contains(
    rels: Seq<(ModelView, DeleteBehavior)>,
    b: DeleteBehavior,
    x: ModelView,
)
    requires
        rels.contains((x, b)),
    ensures
        children_with(rels, b).contains(x.name),
    decreases rels.len(),
{
    let c = children_with(rels, b);
    if rels.last() == (x, b) {
        assert(c[c.len() - 1] == x.name);
    } else {
        let w = choose|w: int| 0 <= w < rels.len() && rels[w] == (x, b);
        assert(rels.drop_last()[w] == (x, b));
        lemma_children_with_contains(rels.drop_last(), b, x);
        let rest = children_with(rels.drop_last(), b);
        let v = choose|v: int| 0 <= v < rest.len() && rest[v] == x.name;
        assert(c[v] == x.name);
    }
}

proof fn lemma_children_with_source(rels: Seq<(ModelView, DeleteBehavior)>, b: DeleteBehavior, n: int)
    requires
        0 <= n < children_with(rels, b).len(),
    ensures
        exists|i: int|
            0 <= i < rels.len() && rels[i].1 == b && rels[i].0.name == children_with(rels, b)[n],
    decreases rels.len(),
{
    let rest = children_with(rels.drop_last(), b);
    if n < rest.len() {
        lemma_children_with_source(rels.drop_last(), b, n);
        let i = choose|i: int|
            0 <= i < rels.drop_last().len() && rels.drop_last()[i].1 == b
                && rels.drop_last()[i].0.name == rest[n];
        assert(rels[i] == rels.drop_last()[i]);
    } else {
        assert(rels[rels.len() - 1].1 == b);
    }
}

proof fn lemma_refs_in_source(child: ModelView, fields: Seq<FieldView>, parent: Seq<char>, i: int)
    requires
        0 <= i < refs_in(child, fields, parent).len(),
    ensures
        refs_in(child, fields, parent)[i].0 == child,
        exists|k: int|
            0 <= k < fields.len() && fields[k] == (FieldView::BelongsTo {
                parent,
                on_delete: refs_in(child, fields, parent)[i].1,
            }),
    decreases fields.len(),
{
    let rest = refs_in(child, fields.drop_last(), parent);
    if i < rest.len() {
        lemma_refs_in_source(child, fields.drop_last(), parent, i);
        let k = choose|k: int|
            0 <= k < fields.drop_last().len() && fields.drop_last()[k] == (FieldView::BelongsTo {
                parent,
                on_delete: rest[i].1,
            });
        assert(fields[k] == fields.drop_last()[k]);
    } else {
        assert(fields[fields.len() - 1] == fields.last());
    }
}

proof fn lemma_incoming_source(ms: Seq<ModelView>, parent: Seq<char>, i: int)
    requires
        0 <= i < incoming_of(ms, parent).len(),
    ensures
        exists|j: int, k: int|
            0 <= j < ms.len() && 0 <= k < ms[j].fields.len() && ms[j] == incoming_of(
                ms,
                parent,
            )[i].0 && ms[j].fields[k] == (FieldView::BelongsTo {
                parent,
                on_delete: incoming_of(ms, parent)[i].1,
            }),
    decreases ms.len(),
{
    let head = incoming_of(ms.drop_last(), parent);
    let tail = refs_in(ms.last(), ms.last().fields, parent);
    if i < head.len() {
        lemma_incoming_source(ms.drop_last(), parent, i);
        let (j, k) = choose|j: int, k: int|
            0 <= j < ms.drop_last().len() && 0 <= k < ms.drop_last()[j].fields.len()
                && ms.drop_last()[j] == head[i].0 && ms.drop_last()[j].fields[k]
                == (FieldView::BelongsTo { parent, on_delete: head[i].1 });
        assert(ms[j] == ms.drop_last()[j]);
    } else {
        let w = i - head.len();
        lemma_refs_in_source(ms.last(), ms.last().fields, parent, w);
        let k = choose|k: int|
            0 <= k < ms.last().fields.len() && ms.last().fields[k] == (FieldView::BelongsTo {
                parent,
                on_delete: tail[w].1,
            });
        assert(ms[ms.len() - 1] == ms.last());
        assert(incoming_of(ms, parent)[i] == tail[w]);
    }
}

/// Every model with a `belongs_to parent` field of behavior `b` is among the
/// children of `parent` with that behavior.
proof fn lemma_children_with_complete(ms: Seq<ModelView>, parent: Seq<char>, b: DeleteBehavior)
    ensures
        forall|j: int, k: int|
            0 <= j < ms.len() && 0 <= k < ms[j].fields.len() && #[trigger] ms[j].fields[k]
                == (FieldView::BelongsTo { parent, on_delete: b }) ==> children_with(
                incoming_of(ms, parent),
                b,
            ).contains(ms[j].name),
{
    let rels = incoming_of(ms, parent);
    assert forall|j: int, k: int|
        0 <= j < ms.len() && 0 <= k < ms[j].fields.len() && #[trigger] ms[j].fields[k]
            == (FieldView::BelongsTo { parent, on_delete: b }) implies children_with(
        rels,
        b,
    ).contains(ms[j].name) by {
        lemma_incoming_contains(ms, parent, j, k, b);
        lemma_children_with_contains(rels, b, ms[j]);
    }
}

/// Each child of `parent` with behavior `b` comes from a model with a
/// `belongs_to parent` field of that behavior; returns that model and field.
proof fn lemma_children_with_sound(ms: Seq<ModelView>, parent: Seq<char>, b: DeleteBehavior, n: int) -> (jk: (int, int))
    requires
        0 <= n < children_with(incoming_of(ms, parent), b).len(),
    ensures
        0 <= jk.0 < ms.len(),
        0 <= jk.1 < ms[jk.0].fields.len(),
        ms[jk.0].fields[jk.1] == (FieldView::BelongsTo { parent, on_delete: b }),
        ms[jk.0].name == children_with(incoming_of(ms, parent), b)[n],
{
    let rels = incoming_of(ms, parent);
    lemma_children_with_source(rels, b, n);
    let i = choose|i: int|
        0 <= i < rels.len() && rels[i].1 == b && rels[i].0.name == children_with(rels, b)[n];
    lemma_incoming_source(ms, parent, i);
    let (j, k) = choose|j: int, k: int|
        0 <= j < ms.len() && 0 <= k < ms[j].fields.len() && ms[j] == rels[i].0
            && ms[j].fields[k] == (FieldView::BelongsTo { parent, on_delete: rels[i].1 });
    (j, k)
}

/// The plan of the removal method of model `ms[i]` lists a restrict check,
/// with the message "Cannot delete M: it has active Cs", for every child model
/// C that belongs to it with `on_delete = restrict` (or with no clause). The
/// generated method runs these checks on the record's `HasMany` fields before
/// it removes anything; this law is about the plan, not about that code.
pub proof fn law_restrict_blocks_removal(ms: Seq<ModelView>, i: int)
    requires
        0 <= i < ms.len(),
    ensures
        forall|j: int, k: int|
            0 <= j < ms.len() && 0 <= k < ms[j].fields.len() && #[trigger] ms[j].fields[k]
                == (FieldView::BelongsTo { parent: ms[i].name, on_delete: DeleteBehavior::Restrict })
                ==> remove_plan_of(ms, ms[i]).restrict_checks.contains(
                RestrictCheckView {
                    child: names_of(ms[j].name),
                    message: restrict_message(ms[i].name, ms[j].name),
                },
            ),
{
    let m = ms[i];
    let names = children_with(incoming_of(ms, m.name), DeleteBehavior::Restrict);
    let checks = remove_plan_of(ms, m).restrict_checks;
    lemma_children_with_complete(ms, m.name, DeleteBehavior::Restrict);
    assert forall|j: int, k: int|
        0 <= j < ms.len() && 0 <= k < ms[j].fields.len() && #[trigger] ms[j].fields[k]
            == (FieldView::BelongsTo { parent: m.name, on_delete: DeleteBehavior::Restrict })
            implies checks.contains(
        RestrictCheckView {
            child: names_of(ms[j].name),
            message: restrict_message(m.name, ms[j].name),
        },
    ) by {
        assert(names.contains(ms[j].name));
        let w = choose|w: int| 0 <= w < names.len() && names[w] == ms[j].name;
        assert(checks[w] == RestrictCheckView {
            child: names_of(ms[j].name),
            message: restrict_message(m.name, ms[j].name),
        });
    }
}

/// The plan lists no other restrict check: each check in the plan of the
/// removal method of model `ms[i]` is that of a child model with a
/// `belongs_to` field that restricts `ms[i]`; the function returns that model
/// and field.
pub proof fn law_restrict_checks_only_restricting_children(ms: Seq<ModelView>, i: int, n: int) -> (jk: (
    int,
    int,
))
    requires
        0 <= i < ms.len(),
        0 <= n < remove_plan_of(ms, ms[i]).restrict_checks.len(),
    ensures
        0 <= jk.0 < ms.len(),
        0 <= jk.1 < ms[jk.0].fields.len(),
        ms[jk.0].fields[jk.1] == (FieldView::BelongsTo {
            parent: ms[i].name,
            on_delete: DeleteBehavior::Restrict,
        }),
        remove_plan_of(ms, ms[i]).restrict_checks[n] == (RestrictCheckView {
            child: names_of(ms[jk.0].name),
            message: restrict_message(ms[i].name, ms[jk.0].name),
        }),
{
    lemma_children_with_sound(ms, ms[i].name, DeleteBehavior::Restrict, n)
}

/// The plan of the removal method of model `ms[i]` lists a cascading removal,
/// through the child's own `remove_` method, for every child model that
/// belongs to it with `on_delete = cascade`. This law is about the plan, not
/// about the generated code that carries it out.
pub proof fn law_cascade_removes_children(ms: Seq<ModelView>, i: int)
    requires
        0 <= i < ms.len(),
    ensures
        forall|j: int, k: int|
            0 <= j < ms.len() && 0 <= k < ms[j].fields.len() && #[trigger] ms[j].fields[k]
                == (FieldView::BelongsTo { parent: ms[i].name, on_delete: DeleteBehavior::Cascade })
                ==> remove_plan_of(ms, ms[i]).cascade_deletes.contains(names_of(ms[j].name)),
{
    let m = ms[i];
    let names = children_with(incoming_of(ms, m.name), DeleteBehavior::Cascade);
    let dels = remove_plan_of(ms, m).cascade_deletes;
    lemma_children_with_complete(ms, m.name, DeleteBehavior::Cascade);
    assert forall|j: int, k: int|
        0 <= j < ms.len() && 0 <= k < ms[j].fields.len() && #[trigger] ms[j].fields[k]
            == (FieldView::BelongsTo { parent: m.name, on_delete: DeleteBehavior::Cascade })
            implies dels.contains(names_of(ms[j].name)) by {
        assert(names.contains(ms[j].name));
        let w = choose|w: int| 0 <= w < names.len() && names[w] == ms[j].name;
        assert(dels[w] == names_of(ms[j].name));
    }
}

/// The plan lists no other cascading removal: each one in the plan of the
/// removal method of model `ms[i]` is that of a child model with a
/// `belongs_to` field that cascades from `ms[i]`; the function returns that
/// model and field.
pub proof fn law_cascade_removes_only_cascading_children(ms: Seq<ModelView>, i: int, n: int) -> (jk: (
    int,
    int,
))
    requires
        0 <= i < ms.len(),
        0 <= n < remove_plan_of(ms, ms[i]).cascade_deletes.len(),
    ensures
        0 <= jk.0 < ms.len(),
        0 <= jk.1 < ms[jk.0].fields.len(),
        ms[jk.0].fields[jk.1] == (FieldView::BelongsTo {
            parent: ms[i].name,
            on_delete: DeleteBehavior::Cascade,
        }),
        remove_plan_of(ms, ms[i]).cascade_deletes[n] == names_of(ms[jk.0].name),
{
    lemma_children_with_sound(ms, ms[i].name, DeleteBehavior::Cascade, n)
}

/// In the plan, removal cleans up the reverse links that insertion makes: the
/// parents whose `HasMany` field (named after the model's collection) the add
/// method pushes a new record onto are exactly the parents the remove method
/// scrubs it from.
pub proof fn law_remove_scrubs_what_add_links(ms: Seq<ModelView>, m: ModelView)
    ensures
        remove_plan_of(ms, m).parents == add_plan_of(m).parents,
        remove_plan_of(ms, m).model == add_plan_of(m).model,
{
}

/// In the plan, a parent's traversal of its children reads the very field
/// that adding a child pushes onto: when `P` has `has_many C` and `C` belongs
/// to `P`, the entity plan of `P` traverses the field named after `C`'s
/// collection, and the add plan of `C` links a new record into `P`'s field of
/// that name.
pub proof fn law_traversal_reads_linked_field(parent: ModelView, child: ModelView, j: int, k: int)
    requires
        0 <= j < parent.fields.len(),
        parent.fields[j] == (FieldView::HasMany { child: child.name }),
        0 <= k < child.fields.len(),
        child.fields[k] is BelongsTo,
        child.fields[k]->BelongsTo_parent == parent.name,
    ensures
        entity_plan_of(parent).children.contains(names_of(child.name)),
        add_plan_of(child).parents.contains(names_of(parent.name)),
        names_of(child.name).collection == add_plan_of(child).model.collection,
{
    lemma_children_of_contains(parent.fields, j);
    let cs = children_of(parent.fields);
    let w = choose|w: int| 0 <= w < cs.len() && cs[w] == child.name;
    assert(entity_plan_of(parent).children[w] == names_of(child.name));
    lemma_parents_of_contains(child.fields, k);
    let ps = parents_of(child.fields);
    let v = choose|v: int| 0 <= v < ps.len() && ps[v] == parent.name;
    assert(add_plan_of(child).parents[v] == names_of(parent.name));
}

proof fn lemma_children_of_contains(fields: Seq<FieldView>, j: int)
    requires
        0 <= j < fields.len(),
        fields[j] is HasMany,
    ensures
        children_of(fields).contains(fields[j]->HasMany_child),
    decreases fields.len(),
{
    let r = children_of(fields);
    if j == fields.len() - 1 {
        assert(r[r.len() - 1] == fields[j]->HasMany_child);
    } else {
        lemma_children_of_contains(fields.drop_last(), j);
        let rest = children_of(fields.drop_last());
        let w = choose|w: int| 0 <= w < rest.len() && rest[w] == fields[j]->HasMany_child;
        assert(r[w] == rest[w]);
    }
}

proof fn lemma_parents_of_contains(fields: Seq<FieldView>, j: int)
    requires
        0 <= j < fields.len(),
        fields[j] is BelongsTo,
    ensures
        parents_of(fields).contains(fields[j]->BelongsTo_parent),
    decreases fields.len(),
{
    let r = parents_of(fields);
    if j == fields.len() - 1 {
        assert(r[r.len() - 1] == fields[j]->BelongsTo_parent);
    } else {
        lemma_parents_of_contains(fields.drop_last(), j);
        let rest = parents_of(fields.drop_last());
        let w = choose|w: int| 0 <= w < rest.len() && rest[w] == fields[j]->BelongsTo_parent;
        assert(r[w] == rest[w]);
    }
}

proof fn lemma_index_plan_contains(ms: Seq<ModelView>, i: int, f: Seq<char>)
    requires
        0 <= i < ms.len(),
        model_index_fields(ms[i]).contains(index_field_of(ms[i].name, f)),
    ensures
        index_plan(ms).contains(index_field_of(ms[i].name, f)),
    decreases ms.len(),
{
    let head = index_plan(ms.drop_last());
    let tail = model_index_fields(ms.last());
    let x = index_field_of(ms[i].name, f);
    if i == ms.len() - 1 {
        let w = choose|w: int| 0 <= w < tail.len() && tail[w] == x;
        assert((head + tail)[head.len() + w] == x);
    } else {
        assert(ms.drop_last()[i] == ms[i]);
        lemma_index_plan_contains(ms.drop_last(), i, f);
        let w = choose|w: int| 0 <= w < head.len() && head[w] == x;
        assert((head + tail)[w] == x);
    }
}

/// In the plan, the insertion, update, removal and lookup methods of a model
/// all name the same index maps, keys and getters, one per `index` line of the
/// model, and the store plan declares each of those maps. This law is about
/// the plan, not about the generated code that keeps the maps.
pub proof fn law_indexes_agree(ms: Seq<ModelView>, i: int)
    requires
        0 <= i < ms.len(),
    ensures
        update_plan_of(ms[i]).indexes == add_plan_of(ms[i]).indexes,
        remove_plan_of(ms, ms[i]).indexes == add_plan_of(ms[i]).indexes,
        get_plan_of(ms[i]).index_getters == add_plan_of(ms[i]).indexes,
        add_plan_of(ms[i]).indexes.len() == index_fields_of(ms[i].fields).len(),
        forall|n: int|
            0 <= n < index_fields_of(ms[i].fields).len() ==> index_plan(ms).contains(
                index_field_of(ms[i].name, #[trigger] index_fields_of(ms[i].fields)[n]),
            ),
{
    let fs = index_fields_of(ms[i].fields);
    assert forall|n: int| 0 <= n < fs.len() implies index_plan(ms).contains(
        index_field_of(ms[i].name, #[trigger] fs[n]),
    ) by {
        assert(model_index_fields(ms[i])[n] == index_field_of(ms[i].name, fs[n]));
        lemma_index_plan_contains(ms, i, fs[n]);
    }
}

/// A read gives back what was written: when `after` is `before` once
/// `insert(v)` has returned `k` (as `Collection::insert` ensures), `get(k)` on
/// `after` gives `v`, and every other key reads in `after` as in `before`.
pub proof fn law_get_after_insert<V>(
    before: Collection<V>,
    after: Collection<V>,
    k: Id<V>,
    v: V,
    other: Id<V>,
)
    requires
        !before@.contains_key(k),
        after@ == before@.insert(k, v),
    ensures
        after@.contains_key(k),
        after@[k] == v,
        other != k ==> after@.contains_key(other) == before@.contains_key(other),
        other != k && before@.contains_key(other) ==> after@[other] == before@[other],
{
}

/// Removing the key that `insert` returned undoes the insertion: when `mid`
/// is `before` once `insert(v)` has returned `k`, and `after` is `mid` once
/// `remove(k)` has run (as `Collection::remove` ensures), `after` holds
/// exactly the records of `before`, and the removal gave back `v`.
pub proof fn law_remove_undoes_insert<V>(
    before: Collection<V>,
    mid: Collection<V>,
    after: Collection<V>,
    k: Id<V>,
    v: V,
    removed: Option<V>,
)
    requires
        !before@.contains_key(k),
        mid@ == before@.insert(k, v),
        removed == (if mid@.contains_key(k) { Some(mid@[k]) } else { None::<V> }),
        after@ == mid@.remove(k),
    ensures
        after@ == before@,
        removed == Some(v),
{
    assert(before@.insert(k, v).remove(k) =~= before@);
}

/// After `remove(k)`, `get(k)` gives nothing and every other key reads as
/// before: `after` is `before` once `Collection::remove(k)` has run.
pub proof fn law_get_after_remove<V>(
    before: Collection<V>,
    after: Collection<V>,
    k: Id<V>,
    other: Id<V>,
)
    requires
        after@ == before@.remove(k),
    ensures
        !after@.contains_key(k),
        other != k ==> after@.contains_key(other) == before@.contains_key(other),
        other != k && before@.contains_key(other) ==> after@[other] == before@[other],
{
}

/// After `HasMany::remove(id)`, `id` no longer occurs, and every other child
/// still does: `after` is `before` once the removal has run.
pub proof fn law_has_many_remove<M>(
    before: HasMany<Id<M>>,
    after: HasMany<Id<M>>,
    id: Id<M>,
    other: Id<M>,
)
    requires
        after@ == before@.filter(|x: Id<M>| x != id),
    ensures
        !after@.contains(id),
        before@.contains(other) && other != id ==> after@.contains(other),
{
    let s = before@;
    let pred = |x: Id<M>| x != id;
    if s.filter(pred).contains(id) {
        let w = choose|w: int| 0 <= w < s.filter(pred).len() && s.filter(pred)[w] == id;
        s.lemma_filter_pred(pred, w);
    }
    if s.contains(other) && other != id {
        let w = choose|w: int| 0 <= w < s.len() && s[w] == other;
        s.lemma_filter_contains(pred, w);
    }
}

/// Pushing a child key and then removing it leaves the relationship as
/// removing it alone would: `pushed` is `before` after `push(id)`, `after` is
/// `pushed` after `remove(id)`, and `alone` is `before` after `remove(id)`.
pub proof fn law_push_then_remove<M>(
    before: HasMany<Id<M>>,
    pushed: HasMany<Id<M>>,
    after: HasMany<Id<M>>,
    alone: HasMany<Id<M>>,
    id: Id<M>,
)
    requires
        pushed@ == before@.push(id),
        after@ == pushed@.filter(|x: Id<M>| x != id),
        alone@ == before@.filter(|x: Id<M>| x != id),
    ensures
        after@ == alone@,
{
    before@.lemma_filter_push(id, |x: Id<M>| x != id);
}

/// Updating a record keeps its reverse links where adding it put them: the
/// update method follows the same parents, and the same `HasMany` field of
/// each, that the add method links the record into.
pub proof fn law_update_relinks_what_add_links(m: ModelView)
    ensures
        update_plan_of(m).parents == add_plan_of(m).parents,
        update_plan_of(m).model == add_plan_of(m).model,
{
}

/// Keys are generational: a key that the collection handed out and that is
/// no longer live is not live again after an insertion whose key it had not
/// handed out before (which `insert` promises while the new key's slot has
/// held fewer than `2^31` records).
pub proof fn law_dead_key_stays_dead<V>(
    before: Collection<V>,
    after: Collection<V>,
    k: Id<V>,
    v: V,
    dead: Id<V>,
)
    requires
        before.handed_out(dead),
        !before@.contains_key(dead),
        !before.handed_out(k),
        after@ == before@.insert(k, v),
    ensures
        k != dead,
        !after@.contains_key(dead),
{
}

/// The null key (`Id::default()`) never names a record of a well-formed
/// collection.
pub proof fn law_null_key_never_live<V>(c: Collection<V>, k: Id<V>)
    requires
        c.wf(),
        k@ == 0x1_ffff_ffff,
    ensures
        !c@.contains_key(k),
{
    assert(k.index() == u32::MAX);
}

/// Whether a field is a `belongs_to` line.
pub open spec fn is_belongs_to(f: FieldView) -> bool {
    f is BelongsTo
}

/// Whether a field is an `index` line.
pub open spec fn is_index(f: FieldView) -> bool {
    f is Index
}

/// Whether a field is a plain `has_many` line.
pub open spec fn is_has_many(f: FieldView) -> bool {
    f is HasMany
}

/// Whether a field is a `has_many ... through` line.
pub open spec fn is_through(f: FieldView) -> bool {
    f is HasManyThrough
}

/// A model's parents are the parents of its `belongs_to` lines: one per
/// line, in the order of the lines.
pub proof fn law_parents_are_the_belongs_to_lines(fields: Seq<FieldView>)
    ensures
        parents_of(fields) == fields.filter(|f: FieldView| is_belongs_to(f)).map_values(
            |f: FieldView| f->BelongsTo_parent,
        ),
    decreases fields.len(),
{
    if fields.len() == 0 {
        assert(fields.filter(|f: FieldView| is_belongs_to(f)) =~= Seq::<FieldView>::empty());
        assert(parents_of(fields) =~= fields.filter(|f: FieldView| is_belongs_to(f)).map_values(
            |f: FieldView| f->BelongsTo_parent,
        ));
    } else {
        law_parents_are_the_belongs_to_lines(fields.drop_last());
        reveal(Seq::filter);
        let p = fields.drop_last().filter(|f: FieldView| is_belongs_to(f));
        assert(p.push(fields.last()).map_values(|f: FieldView| f->BelongsTo_parent) =~= p.map_values(
            |f: FieldView| f->BelongsTo_parent,
        ).push(fields.last()->BelongsTo_parent));
        if is_belongs_to(fields.last()) {
            assert(fields.filter(|f: FieldView| is_belongs_to(f)) == p.push(fields.last()));
        } else {
            assert(fields.filter(|f: FieldView| is_belongs_to(f)) == p);
        }
        assert(parents_of(fields) =~= fields.filter(|f: FieldView| is_belongs_to(f)).map_values(
            |f: FieldView| f->BelongsTo_parent,
        ));
    }
}

/// A model's indexed fields are the fields of its `index` lines: one per
/// line, in the order of the lines.
pub proof fn law_index_fields_are_the_index_lines(fields: Seq<FieldView>)
    ensures
        index_fields_of(fields) == fields.filter(|f: FieldView| is_index(f)).map_values(
            |f: FieldView| f->Index_field_name,
        ),
    decreases fields.len(),
{
    if fields.len() == 0 {
        assert(fields.filter(|f: FieldView| is_index(f)) =~= Seq::<FieldView>::empty());
        assert(index_fields_of(fields) =~= fields.filter(|f: FieldView| is_index(f)).map_values(
            |f: FieldView| f->Index_field_name,
        ));
    } else {
        law_index_fields_are_the_index_lines(fields.drop_last());
        reveal(Seq::filter);
        let p = fields.drop_last().filter(|f: FieldView| is_index(f));
        assert(p.push(fields.last()).map_values(|f: FieldView| f->Index_field_name) =~= p.map_values(
            |f: FieldView| f->Index_field_name,
        ).push(fields.last()->Index_field_name));
        if is_index(fields.last()) {
            assert(fields.filter(|f: FieldView| is_index(f)) == p.push(fields.last()));
        } else {
            assert(fields.filter(|f: FieldView| is_index(f)) == p);
        }
        assert(index_fields_of(fields) =~= fields.filter(|f: FieldView| is_index(f)).map_values(
            |f: FieldView| f->Index_field_name,
        ));
    }
}

/// A model's children are the children of its plain `has_many` lines: one per
/// line, in the order of the lines.
pub proof fn law_children_are_the_has_many_lines(fields: Seq<FieldView>)
    ensures
        children_of(fields) == fields.filter(|f: FieldView| is_has_many(f)).map_values(
            |f: FieldView| f->HasMany_child,
        ),
    decreases fields.len(),
{
    if fields.len() == 0 {
        assert(fields.filter(|f: FieldView| is_has_many(f)) =~= Seq::<FieldView>::empty());
        assert(children_of(fields) =~= fields.filter(|f: FieldView| is_has_many(f)).map_values(
            |f: FieldView| f->HasMany_child,
        ));
    } else {
        law_children_are_the_has_many_lines(fields.drop_last());
        reveal(Seq::filter);
        let p = fields.drop_last().filter(|f: FieldView| is_has_many(f));
        assert(p.push(fields.last()).map_values(|f: FieldView| f->HasMany_child) =~= p.map_values(
            |f: FieldView| f->HasMany_child,
        ).push(fields.last()->HasMany_child));
        if is_has_many(fields.last()) {
            assert(fields.filter(|f: FieldView| is_has_many(f)) == p.push(fields.last()));
        } else {
            assert(fields.filter(|f: FieldView| is_has_many(f)) == p);
        }
        assert(children_of(fields) =~= fields.filter(|f: FieldView| is_has_many(f)).map_values(
            |f: FieldView| f->HasMany_child,
        ));
    }
}

/// A model's through pairs are the (far model, join model) of its
/// `has_many C through J` lines, each pair from one line, in the order of the
/// lines.
pub proof fn law_through_pairs_are_the_through_lines(fields: Seq<FieldView>)
    ensures
        through_children_of(fields) == fields.filter(|f: FieldView| is_through(f)).map_values(
            |f: FieldView| (f->HasManyThrough_child, f->HasManyThrough_through),
        ),
    decreases fields.len(),
{
    if fields.len() == 0 {
        assert(fields.filter(|f: FieldView| is_through(f)) =~= Seq::<FieldView>::empty());
        assert(through_children_of(fields) =~= fields.filter(|f: FieldView| is_through(f)).map_values(
            |f: FieldView| (f->HasManyThrough_child, f->HasManyThrough_through),
        ));
    } else {
        law_through_pairs_are_the_through_lines(fields.drop_last());
        reveal(Seq::filter);
        let p = fields.drop_last().filter(|f: FieldView| is_through(f));
        assert(p.push(fields.last()).map_values(
            |f: FieldView| (f->HasManyThrough_child, f->HasManyThrough_through),
        ) =~= p.map_values(|f: FieldView| (f->HasManyThrough_child, f->HasManyThrough_through)).push(
            (fields.last()->HasManyThrough_child, fields.last()->HasManyThrough_through),
        ));
        if is_through(fields.last()) {
            assert(fields.filter(|f: FieldView| is_through(f)) == p.push(fields.last()));
        } else {
            assert(fields.filter(|f: FieldView| is_through(f)) == p);
        }
        assert(through_children_of(fields) =~= fields.filter(|f: FieldView| is_through(f)).map_values(
            |f: FieldView| (f->HasManyThrough_child, f->HasManyThrough_through),
        ));
    }
}

/// Every method plan of a model has one index slot per `index` line, and the
/// `n`-th slot is named after, and reads and writes the map of, the `n`-th
/// indexed field: its key local, its map and its getter all come from that
/// one field.
pub proof fn law_index_slots_follow_index_lines(ms: Seq<ModelView>, m: ModelView, n: int)
    requires
        0 <= n < index_fields_of(m.fields).len(),
    ensures
        add_plan_of(m).indexes.len() == index_fields_of(m.fields).len(),
        get_plan_of(m).index_getters.len() == index_fields_of(m.fields).len(),
        update_plan_of(m).indexes.len() == index_fields_of(m.fields).len(),
        remove_plan_of(ms, m).indexes.len() == index_fields_of(m.fields).len(),
        add_plan_of(m).indexes[n] == (IndexSlotView {
            field_name: index_fields_of(m.fields)[n],
            key_var: index_key_of(index_fields_of(m.fields)[n]),
            map_name: index_map_of(m.name, index_fields_of(m.fields)[n]),
            getter_name: index_getter_of(m.name, index_fields_of(m.fields)[n]),
        }),
        get_plan_of(m).index_getters[n] == add_plan_of(m).indexes[n],
        update_plan_of(m).indexes[n] == add_plan_of(m).indexes[n],
        remove_plan_of(ms, m).indexes[n] == add_plan_of(m).indexes[n],
{
}

/// The add, update and remove plans and the entity plan of a model each have
/// one parent link per `belongs_to` line, and the `k`-th is the `k`-th line's
/// parent: a new record is pushed onto each parent's list exactly once, and
/// the entity gets exactly one accessor per parent.
pub proof fn law_parent_links_follow_belongs_to_lines(ms: Seq<ModelView>, m: ModelView, k: int)
    requires
        0 <= k < parents_of(m.fields).len(),
    ensures
        add_plan_of(m).parents.len() == parents_of(m.fields).len(),
        update_plan_of(m).parents.len() == parents_of(m.fields).len(),
        remove_plan_of(ms, m).parents.len() == parents_of(m.fields).len(),
        entity_plan_of(m).parents.len() == parents_of(m.fields).len(),
        add_plan_of(m).parents[k] == names_of(parents_of(m.fields)[k]),
        update_plan_of(m).parents[k] == names_of(parents_of(m.fields)[k]),
        remove_plan_of(ms, m).parents[k] == names_of(parents_of(m.fields)[k]),
        entity_plan_of(m).parents[k] == names_of(parents_of(m.fields)[k]),
{
}

/// A model with no `belongs_to` line links into no parent and has no parent
/// accessor.
pub proof fn law_no_parent_links_without_belongs_to(ms: Seq<ModelView>, m: ModelView)
    requires
        parents_of(m.fields).len() == 0,
    ensures
        add_plan_of(m).parents.len() == 0,
        update_plan_of(m).parents.len() == 0,
        remove_plan_of(ms, m).parents.len() == 0,
        entity_plan_of(m).parents.len() == 0,
{
}

/// The entity plan of a model has one child traversal per plain `has_many`
/// line, the `n`-th for the `n`-th line's child.
pub proof fn law_child_traversals_follow_has_many_lines(m: ModelView, n: int)
    requires
        0 <= n < children_of(m.fields).len(),
    ensures
        entity_plan_of(m).children.len() == children_of(m.fields).len(),
        entity_plan_of(m).children[n] == names_of(children_of(m.fields)[n]),
{
}

/// The entity plan of a model has one through traversal per
/// `has_many C through J` line, and the `n`-th pairs that line's far model C
/// with that same line's join model J.
pub proof fn law_through_traversals_follow_through_lines(m: ModelView, n: int)
    requires
        0 <= n < through_children_of(m.fields).len(),
    ensures
        entity_plan_of(m).through.len() == through_children_of(m.fields).len(),
        entity_plan_of(m).through[n] == (ThroughLinkView {
            child: names_of(through_children_of(m.fields)[n].0),
            through: names_of(through_children_of(m.fields)[n].1),
        }),
{
}

/// The words that `syn` refuses as an identifier: `_` and the Rust keywords
/// of syn's `accept_as_ident`, strict, reserved and weak alike.
pub open spec fn syn_refused_words() -> Set<Seq<char>> {
    set![
        "_"@,
        "abstract"@,
        "as"@,
        "async"@,
        "await"@,
        "become"@,
        "box"@,
        "break"@,
        "const"@,
        "continue"@,
        "crate"@,
        "do"@,
        "dyn"@,
        "else"@,
        "enum"@,
        "extern"@,
        "false"@,
        "final"@,
        "fn"@,
        "for"@,
        "if"@,
        "impl"@,
        "in"@,
        "let"@,
        "loop"@,
        "macro"@,
        "match"@,
        "mod"@,
        "move"@,
        "mut"@,
        "override"@,
        "priv"@,
        "pub"@,
        "ref"@,
        "return"@,
        "Self"@,
        "self"@,
        "static"@,
        "struct"@,
        "super"@,
        "trait"@,
        "true"@,
        "try"@,
        "type"@,
        "typeof"@,
        "unsafe"@,
        "unsized"@,
        "use"@,
        "virtual"@,
        "where"@,
        "while"@,
        "yield"@
    ]
}

/// An identifier token is read as a name exactly when its text is not one of
/// the words `syn` refuses; one of those is refused at its own position.
pub proof fn law_ident_refused_exactly_for_keywords(t: Seq<TokView>, p: int, s: Seq<char>)
    requires
        0 <= p < t.len(),
        t[p] == TokView::Ident(s),
    ensures
        spec_ident(t, p) == (if syn_refused_words().contains(s) {
            Err::<Seq<char>, PErr>(PErr { pos: p, kind: ErrorKind::KeywordAsIdent })
        } else {
            Ok::<Seq<char>, PErr>(s)
        }),
{
}

/// Every identifier that does not start with a lowercase ASCII letter or `_`
/// (a capitalised model name such as `User`, a non-ASCII one), other than
/// `Self`, is read as a name.
pub proof fn law_ident_not_starting_lowercase_is_accepted(t: Seq<TokView>, p: int, s: Seq<char>)
    requires
        0 <= p < t.len(),
        t[p] == TokView::Ident(s),
        s.len() > 0,
        !('a' <= s[0] && s[0] <= 'z'),
        s[0] != '_',
        s != "Self"@,
    ensures
        spec_ident(t, p) == Ok::<Seq<char>, PErr>(s),
{
        reveal_strlit("_");
        reveal_strlit("abstract");
        reveal_strlit("as");
        reveal_strlit("async");
        reveal_strlit("await");
        reveal_strlit("become");
        reveal_strlit("box");
        reveal_strlit("break");
        reveal_strlit("const");
        reveal_strlit("continue");
        reveal_strlit("crate");
        reveal_strlit("do");
        reveal_strlit("dyn");
        reveal_strlit("else");
        reveal_strlit("enum");
        reveal_strlit("extern");
        reveal_strlit("false");
        reveal_strlit("final");
        reveal_strlit("fn");
        reveal_strlit("for");
        reveal_strlit("if");
        reveal_strlit("impl");
        reveal_strlit("in");
        reveal_strlit("let");
        reveal_strlit("loop");
        reveal_strlit("macro");
        reveal_strlit("match");
        reveal_strlit("mod");
        reveal_strlit("move");
        reveal_strlit("mut");
        reveal_strlit("override");
        reveal_strlit("priv");
        reveal_strlit("pub");
        reveal_strlit("ref");
        reveal_strlit("return");
        reveal_strlit("self");
        reveal_strlit("static");
        reveal_strlit("struct");
        reveal_strlit("super");
        reveal_strlit("trait");
        reveal_strlit("true");
        reveal_strlit("try");
        reveal_strlit("type");
        reveal_strlit("typeof");
        reveal_strlit("unsafe");
        reveal_strlit("unsized");
        reveal_strlit("use");
        reveal_strlit("virtual");
        reveal_strlit("where");
        reveal_strlit("while");
        reveal_strlit("yield");
}

/// Every identifier longer than eight characters (longer than any keyword)
/// is read as a name.
pub proof fn law_long_ident_is_accepted(t: Seq<TokView>, p: int, s: Seq<char>)
    requires
        0 <= p < t.len(),
        t[p] == TokView::Ident(s),
        s.len() > 8,
    ensures
        spec_ident(t, p) == Ok::<Seq<char>, PErr>(s),
{
        reveal_strlit("_");
        reveal_strlit("abstract");
        reveal_strlit("as");
        reveal_strlit("async");
        reveal_strlit("await");
        reveal_strlit("become");
        reveal_strlit("box");
        reveal_strlit("break");
        reveal_strlit("const");
        reveal_strlit("continue");
        reveal_strlit("crate");
        reveal_strlit("do");
        reveal_strlit("dyn");
        reveal_strlit("else");
        reveal_strlit("enum");
        reveal_strlit("extern");
        reveal_strlit("false");
        reveal_strlit("final");
        reveal_strlit("fn");
        reveal_strlit("for");
        reveal_strlit("if");
        reveal_strlit("impl");
        reveal_strlit("in");
        reveal_strlit("let");
        reveal_strlit("loop");
        reveal_strlit("macro");
        reveal_strlit("match");
        reveal_strlit("mod");
        reveal_strlit("move");
        reveal_strlit("mut");
        reveal_strlit("override");
        reveal_strlit("priv");
        reveal_strlit("pub");
        reveal_strlit("ref");
        reveal_strlit("return");
        reveal_strlit("Self");
        reveal_strlit("self");
        reveal_strlit("static");
        reveal_strlit("struct");
        reveal_strlit("super");
        reveal_strlit("trait");
        reveal_strlit("true");
        reveal_strlit("try");
        reveal_strlit("type");
        reveal_strlit("typeof");
        reveal_strlit("unsafe");
        reveal_strlit("unsized");
        reveal_strlit("use");
        reveal_strlit("virtual");
        reveal_strlit("where");
        reveal_strlit("while");
        reveal_strlit("yield");
}

} // verus!
