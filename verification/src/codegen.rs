//! The plan of a generated store: for every model, the names and relations
//! that its collection, key type, entity wrapper and methods are built from.
//! Turning a plan into Rust tokens is a matter of filling fixed templates.

use crate::naming::{
    add_method_ident, add_method_of, collection_ident, collection_of, entity_ident, entity_of,
    id_type_ident, id_type_of, index_getter_ident, index_getter_of, index_key_ident, index_key_of,
    index_map_ident, index_map_of, plural_of, can_remove_method_ident, can_remove_method_of, pluralize, remove_method_ident, remove_method_of,
    snake_ident, snake_of, update_method_ident, update_method_of,
};
use crate::relations::{
    belongs_to_parents, children_of, has_many_children, has_many_through_children,
    incoming_of, incoming_relations, index_fields, index_fields_of, names_view, pairs_view,
    parents_of, relations_view, through_children_of,
};
use crate::schema::{DeleteBehavior, ModelDef, ModelView, SchemaDef, SchemaView};
use vstd::prelude::*;

verus! {

/// Every name that the generated code derives from one model name.
pub struct ModelNames {
    /// The model name itself, e.g. `BlogPost`.
    pub name: String,
    /// `blog_post`: the getter on the store and the accessor on children.
    pub snake: String,
    /// `blog_posts`: the collection on the store and the `HasMany` field on parents.
    pub collection: String,
    /// `BlogPostId`
    pub id_type: String,
    /// `BlogPostEntity`
    pub entity: String,
    /// `add_blog_post`
    pub add_method: String,
    /// `update_blog_post`
    pub update_method: String,
    /// `remove_blog_post`
    pub remove_method: String,
    /// `can_remove_blog_post`: whether removing a record would be refused.
    pub can_remove_method: String,
}

/// The names derived from a model name, as character sequences.
pub struct ModelNamesView {
    pub name: Seq<char>,
    pub snake: Seq<char>,
    pub collection: Seq<char>,
    pub id_type: Seq<char>,
    pub entity: Seq<char>,
    pub add_method: Seq<char>,
    pub update_method: Seq<char>,
    pub remove_method: Seq<char>,
    pub can_remove_method: Seq<char>,
}

impl View for ModelNames {
    type V = ModelNamesView;

    open spec fn view(&self) -> ModelNamesView {
        ModelNamesView {
            name: self.name@,
            snake: self.snake@,
            collection: self.collection@,
            id_type: self.id_type@,
            entity: self.entity@,
            add_method: self.add_method@,
            update_method: self.update_method@,
            remove_method: self.remove_method@,
            can_remove_method: self.can_remove_method@,
        }
    }
}

/// The names derived from a model name.
pub open spec fn names_of(name: Seq<char>) -> ModelNamesView {
    ModelNamesView {
        name,
        snake: snake_of(name),
        collection: collection_of(name),
        id_type: id_type_of(name),
        entity: entity_of(name),
        add_method: add_method_of(name),
        update_method: update_method_of(name),
        remove_method: remove_method_of(name),
        can_remove_method: can_remove_method_of(name),
    }
}

/// The names of one secondary index of a model.
pub struct IndexSlot {
    /// The indexed field, e.g. `email`.
    pub field_name: String,
    /// The local that holds the key while a record is added: `index_key_email`.
    pub key_var: String,
    /// The map on the store: `patron_emails`.
    pub map_name: String,
    /// The lookup on the store: `get_patron_by_email`.
    pub getter_name: String,
}

/// The names of one secondary index, as character sequences.
pub struct IndexSlotView {
    pub field_name: Seq<char>,
    pub key_var: Seq<char>,
    pub map_name: Seq<char>,
    pub getter_name: Seq<char>,
}

impl View for IndexSlot {
    type V = IndexSlotView;

    open spec fn view(&self) -> IndexSlotView {
        IndexSlotView {
            field_name: self.field_name@,
            key_var: self.key_var@,
            map_name: self.map_name@,
            getter_name: self.getter_name@,
        }
    }
}

/// The names of the index of `field` on `model`.
pub open spec fn slot_of(model: Seq<char>, field: Seq<char>) -> IndexSlotView {
    IndexSlotView {
        field_name: field,
        key_var: index_key_of(field),
        map_name: index_map_of(model, field),
        getter_name: index_getter_of(model, field),
    }
}

/// The views of a sequence of model names.
pub open spec fn names_seq(v: Seq<ModelNames>) -> Seq<ModelNamesView> {
    v.map_values(|n: ModelNames| n@)
}

/// The views of a sequence of index slots.
pub open spec fn slots_seq(v: Seq<IndexSlot>) -> Seq<IndexSlotView> {
    v.map_values(|s: IndexSlot| s@)
}

/// The names derived from each of a sequence of model names.
pub open spec fn all_names_of(names: Seq<Seq<char>>) -> Seq<ModelNamesView> {
    names.map_values(|n: Seq<char>| names_of(n))
}

/// The index slots of a model for each of a sequence of fields.
pub open spec fn all_slots_of(model: Seq<char>, fields: Seq<Seq<char>>) -> Seq<IndexSlotView> {
    fields.map_values(|f: Seq<char>| slot_of(model, f))
}

impl ModelNames {
    /// Derives every name of a model from its name.
    pub fn of(name: &str) -> (r: ModelNames)
        ensures
            r@ == names_of(name@),
    {
        ModelNames {
            name: String::from_str(name),
            snake: snake_ident(name),
            collection: collection_ident(name),
            id_type: id_type_ident(name),
            entity: entity_ident(name),
            add_method: add_method_ident(name),
            update_method: update_method_ident(name),
            remove_method: remove_method_ident(name),
            can_remove_method: can_remove_method_ident(name),
        }
    }
}

impl IndexSlot {
    /// Derives the names of the index of `field` on `model`.
    pub fn of(model: &str, field: &str) -> (r: IndexSlot)
        ensures
            r@ == slot_of(model@, field@),
    {
        IndexSlot {
            field_name: String::from_str(field),
            key_var: index_key_ident(field),
            map_name: index_map_ident(model, field),
            getter_name: index_getter_ident(model, field),
        }
    }
}

/// The names derived from each of the given model names.
fn names_for(names: &Vec<&String>) -> (r: Vec<ModelNames>)
    ensures
        names_seq(r@) == all_names_of(names_view(names@)),
{
    let ghost nv = names_view(names@);
    let mut r: Vec<ModelNames> = Vec::new();
    let mut i: usize = 0;
    while i < names.len()
        invariant
            i <= names.len(),
            nv == names_view(names@),
            names_seq(r@) =~= all_names_of(nv.take(i as int)),
        decreases names.len() - i,
    {
        let n = ModelNames::of(names[i].as_str());
        proof {
            assert(all_names_of(nv.take(i + 1)) =~= all_names_of(nv.take(i as int)).push(
                names_of(nv[i as int]),
            ));
        }
        r.push(n);
        i = i + 1;
    }
    proof {
        assert(nv.take(nv.len() as int) =~= nv);
    }
    r
}

/// The index slots of `model` for each of the given fields.
fn slots_for(model: &String, fields: &Vec<&String>) -> (r: Vec<IndexSlot>)
    ensures
        slots_seq(r@) == all_slots_of(model@, names_view(fields@)),
{
    let ghost fv = names_view(fields@);
    let mut r: Vec<IndexSlot> = Vec::new();
    let mut i: usize = 0;
    while i < fields.len()
        invariant
            i <= fields.len(),
            fv == names_view(fields@),
            slots_seq(r@) =~= all_slots_of(model@, fv.take(i as int)),
        decreases fields.len() - i,
    {
        let s = IndexSlot::of(model.as_str(), fields[i].as_str());
        proof {
            assert(all_slots_of(model@, fv.take(i + 1)) =~= all_slots_of(
                model@,
                fv.take(i as int),
            ).push(slot_of(model@, fv[i as int])));
        }
        r.push(s);
        i = i + 1;
    }
    proof {
        assert(fv.take(fv.len() as int) =~= fv);
    }
    r
}

/// The views of a sequence of strings.
pub open spec fn strings_view(v: Seq<String>) -> Seq<Seq<char>> {
    v.map_values(|s: String| s@)
}

/// The `add_` method of a model: the parents whose `HasMany` it extends and
/// the indexes it fills.
pub struct AddMethod {
    pub model: ModelNames,
    pub parents: Vec<ModelNames>,
    pub indexes: Vec<IndexSlot>,
}

pub struct AddMethodView {
    pub model: ModelNamesView,
    pub parents: Seq<ModelNamesView>,
    pub indexes: Seq<IndexSlotView>,
}

impl View for AddMethod {
    type V = AddMethodView;

    open spec fn view(&self) -> AddMethodView {
        AddMethodView {
            model: self.model@,
            parents: names_seq(self.parents@),
            indexes: slots_seq(self.indexes@),
        }
    }
}

/// The `add_` method that a model gets.
pub open spec fn add_plan_of(m: ModelView) -> AddMethodView {
    AddMethodView {
        model: names_of(m.name),
        parents: all_names_of(parents_of(m.fields)),
        indexes: all_slots_of(m.name, index_fields_of(m.fields)),
    }
}

/// The getters of a model: by key, and by each indexed field.
pub struct GetMethods {
    pub model: ModelNames,
    pub index_getters: Vec<IndexSlot>,
}

pub struct GetMethodsView {
    pub model: ModelNamesView,
    pub index_getters: Seq<IndexSlotView>,
}

impl View for GetMethods {
    type V = GetMethodsView;

    open spec fn view(&self) -> GetMethodsView {
        GetMethodsView { model: self.model@, index_getters: slots_seq(self.index_getters@) }
    }
}

/// The getters that a model gets.
pub open spec fn get_plan_of(m: ModelView) -> GetMethodsView {
    GetMethodsView {
        model: names_of(m.name),
        index_getters: all_slots_of(m.name, index_fields_of(m.fields)),
    }
}

/// A `has_many ... through` traversal: the far model and the join model.
pub struct ThroughLink {
    pub child: ModelNames,
    pub through: ModelNames,
}

pub struct ThroughLinkView {
    pub child: ModelNamesView,
    pub through: ModelNamesView,
}

impl View for ThroughLink {
    type V = ThroughLinkView;

    open spec fn view(&self) -> ThroughLinkView {
        ThroughLinkView { child: self.child@, through: self.through@ }
    }
}

/// The views of a sequence of traversals.
pub open spec fn links_seq(v: Seq<ThroughLink>) -> Seq<ThroughLinkView> {
    v.map_values(|l: ThroughLink| l@)
}

/// The traversals named by (child, join) pairs.
pub open spec fn all_links_of(pairs: Seq<(Seq<char>, Seq<char>)>) -> Seq<ThroughLinkView> {
    pairs.map_values(
        |p: (Seq<char>, Seq<char>)| ThroughLinkView { child: names_of(p.0), through: names_of(p.1) },
    )
}

/// The entity wrapper of a model and its traversal methods.
pub struct EntityStruct {
    pub model: ModelNames,
    pub parents: Vec<ModelNames>,
    pub children: Vec<ModelNames>,
    pub through: Vec<ThroughLink>,
}

pub struct EntityStructView {
    pub model: ModelNamesView,
    pub parents: Seq<ModelNamesView>,
    pub children: Seq<ModelNamesView>,
    pub through: Seq<ThroughLinkView>,
}

impl View for EntityStruct {
    type V = EntityStructView;

    open spec fn view(&self) -> EntityStructView {
        EntityStructView {
            model: self.model@,
            parents: names_seq(self.parents@),
            children: names_seq(self.children@),
            through: links_seq(self.through@),
        }
    }
}

/// The entity wrapper that a model gets.
pub open spec fn entity_plan_of(m: ModelView) -> EntityStructView {
    EntityStructView {
        model: names_of(m.name),
        parents: all_names_of(parents_of(m.fields)),
        children: all_names_of(children_of(m.fields)),
        through: all_links_of(through_children_of(m.fields)),
    }
}

/// The `update_` method of a model: its error text, the indexes it re-keys,
/// and the parents whose `HasMany` it keeps in step with the record's
/// `BelongsTo` fields (when the update points a field at another parent, the
/// record leaves the old parent's list and joins the new one's).
pub struct UpdateMethod {
    pub model: ModelNames,
    pub not_found: String,
    pub indexes: Vec<IndexSlot>,
    pub parents: Vec<ModelNames>,
}

pub struct UpdateMethodView {
    pub model: ModelNamesView,
    pub not_found: Seq<char>,
    pub indexes: Seq<IndexSlotView>,
    pub parents: Seq<ModelNamesView>,
}

impl View for UpdateMethod {
    type V = UpdateMethodView;

    open spec fn view(&self) -> UpdateMethodView {
        UpdateMethodView {
            model: self.model@,
            not_found: self.not_found@,
            indexes: slots_seq(self.indexes@),
            parents: names_seq(self.parents@),
        }
    }
}

/// The `update_` method that a model gets.
pub open spec fn update_plan_of(m: ModelView) -> UpdateMethodView {
    UpdateMethodView {
        model: names_of(m.name),
        not_found: m.name + " not found"@,
        indexes: all_slots_of(m.name, index_fields_of(m.fields)),
        parents: all_names_of(parents_of(m.fields)),
    }
}

/// A refusal to remove a record while children of one model still point at it.
pub struct RestrictCheck {
    pub child: ModelNames,
    pub message: String,
}

pub struct RestrictCheckView {
    pub child: ModelNamesView,
    pub message: Seq<char>,
}

impl View for RestrictCheck {
    type V = RestrictCheckView;

    open spec fn view(&self) -> RestrictCheckView {
        RestrictCheckView { child: self.child@, message: self.message@ }
    }
}

/// The views of a sequence of refusals.
pub open spec fn checks_seq(v: Seq<RestrictCheck>) -> Seq<RestrictCheckView> {
    v.map_values(|c: RestrictCheck| c@)
}

/// The error text of removing a `model` record that still has `child` records.
pub open spec fn restrict_message(model: Seq<char>, child: Seq<char>) -> Seq<char> {
    "Cannot delete "@ + model + ": it has active "@ + plural_of(child)
}

/// The refusals that removing a `model` record checks, one per restricting child.
pub open spec fn all_checks_of(model: Seq<char>, children: Seq<Seq<char>>) -> Seq<
    RestrictCheckView,
> {
    children.map_values(
        |c: Seq<char>| RestrictCheckView { child: names_of(c), message: restrict_message(model, c) },
    )
}

/// The names of the children in relations with the given delete behavior, in order.
pub open spec fn children_with(rels: Seq<(ModelView, DeleteBehavior)>, b: DeleteBehavior) -> Seq<
    Seq<char>,
>
    decreases rels.len(),
{
    if rels.len() == 0 {
        Seq::empty()
    } else {
        let rest = children_with(rels.drop_last(), b);
        if rels.last().1 == b {
            rest.push(rels.last().0.name)
        } else {
            rest
        }
    }
}

/// The `remove_` method of a model, with its `can_remove_` check: the error
/// text for a key that names no record, the refusals it checks, the child
/// models whose records it removes with it, the parents whose `HasMany` it
/// scrubs, and the indexes it clears.
///
/// The check refuses a removal when a restricting child still has records,
/// and asks the `can_remove_` check of each cascading child record in turn;
/// the removal runs the check before it changes anything, so a refused
/// removal leaves the store as it was and an accepted one leaves no
/// `BelongsTo` pointing at a removed record.
pub struct RemoveMethod {
    pub model: ModelNames,
    pub not_found: String,
    pub restrict_checks: Vec<RestrictCheck>,
    pub cascade_deletes: Vec<ModelNames>,
    pub parents: Vec<ModelNames>,
    pub indexes: Vec<IndexSlot>,
}

pub struct RemoveMethodView {
    pub model: ModelNamesView,
    pub not_found: Seq<char>,
    pub restrict_checks: Seq<RestrictCheckView>,
    pub cascade_deletes: Seq<ModelNamesView>,
    pub parents: Seq<ModelNamesView>,
    pub indexes: Seq<IndexSlotView>,
}

impl View for RemoveMethod {
    type V = RemoveMethodView;

    open spec fn view(&self) -> RemoveMethodView {
        RemoveMethodView {
            model: self.model@,
            not_found: self.not_found@,
            restrict_checks: checks_seq(self.restrict_checks@),
            cascade_deletes: names_seq(self.cascade_deletes@),
            parents: names_seq(self.parents@),
            indexes: slots_seq(self.indexes@),
        }
    }
}

/// The `remove_` method that model `m` of a schema with `models` gets.
pub open spec fn remove_plan_of(models: Seq<ModelView>, m: ModelView) -> RemoveMethodView {
    let rels = incoming_of(models, m.name);
    RemoveMethodView {
        model: names_of(m.name),
        not_found: "Record not found"@,
        restrict_checks: all_checks_of(m.name, children_with(rels, DeleteBehavior::Restrict)),
        cascade_deletes: all_names_of(children_with(rels, DeleteBehavior::Cascade)),
        parents: all_names_of(parents_of(m.fields)),
        indexes: all_slots_of(m.name, index_fields_of(m.fields)),
    }
}

/// The `add_` method that a model gets.
pub fn add_method_for(model: &ModelDef) -> (r: AddMethod)
    ensures
        r@ == add_plan_of(model@),
{
    let parents = belongs_to_parents(model);
    let fields = index_fields(model);
    AddMethod {
        model: ModelNames::of(model.name.as_str()),
        parents: names_for(&parents),
        indexes: slots_for(&model.name, &fields),
    }
}

/// The getters that a model gets.
pub fn get_methods_for(model: &ModelDef) -> (r: GetMethods)
    ensures
        r@ == get_plan_of(model@),
{
    let fields = index_fields(model);
    GetMethods {
        model: ModelNames::of(model.name.as_str()),
        index_getters: slots_for(&model.name, &fields),
    }
}

/// The traversals named by the given (child, join) pairs.
fn links_for(pairs: &Vec<(&String, &String)>) -> (r: Vec<ThroughLink>)
    ensures
        links_seq(r@) == all_links_of(pairs_view(pairs@)),
{
    let ghost pv = pairs_view(pairs@);
    let mut r: Vec<ThroughLink> = Vec::new();
    let mut i: usize = 0;
    while i < pairs.len()
        invariant
            i <= pairs.len(),
            pv == pairs_view(pairs@),
            links_seq(r@) =~= all_links_of(pv.take(i as int)),
        decreases pairs.len() - i,
    {
        let (c, t) = pairs[i];
        let l = ThroughLink { child: ModelNames::of(c.as_str()), through: ModelNames::of(t.as_str()) };
        proof {
            assert(all_links_of(pv.take(i + 1)) =~= all_links_of(pv.take(i as int)).push(l@));
        }
        r.push(l);
        i = i + 1;
    }
    proof {
        assert(pv.take(pv.len() as int) =~= pv);
    }
    r
}

/// The entity wrapper that a model gets.
pub fn entity_struct_for(model: &ModelDef) -> (r: EntityStruct)
    ensures
        r@ == entity_plan_of(model@),
{
    let parents = belongs_to_parents(model);
    let children = has_many_children(model);
    let through = has_many_through_children(model);
    EntityStruct {
        model: ModelNames::of(model.name.as_str()),
        parents: names_for(&parents),
        children: names_for(&children),
        through: links_for(&through),
    }
}

/// The `update_` method that a model gets.
pub fn update_method_for(model: &ModelDef) -> (r: UpdateMethod)
    ensures
        r@ == update_plan_of(model@),
{
    let fields = index_fields(model);
    let parents = belongs_to_parents(model);
    let mut not_found = String::from_str(model.name.as_str());
    not_found.append(" not found");
    UpdateMethod {
        model: ModelNames::of(model.name.as_str()),
        not_found,
        indexes: slots_for(&model.name, &fields),
        parents: names_for(&parents),
    }
}

/// The `remove_` method that a model of `schema` gets.
pub fn remove_method_for(schema: &SchemaDef, model: &ModelDef) -> (r: RemoveMethod)
    ensures
        r@ == remove_plan_of(schema@.models, model@),
{
    let rels = incoming_relations(schema, &model.name);
    let ghost rv = relations_view(rels@);
    let mut restrict_checks: Vec<RestrictCheck> = Vec::new();
    let mut cascade_deletes: Vec<ModelNames> = Vec::new();
    let mut i: usize = 0;
    while i < rels.len()
        invariant
            i <= rels.len(),
            rv == relations_view(rels@),
            checks_seq(restrict_checks@) =~= all_checks_of(
                model.name@,
                children_with(rv.take(i as int), DeleteBehavior::Restrict),
            ),
            names_seq(cascade_deletes@) =~= all_names_of(
                children_with(rv.take(i as int), DeleteBehavior::Cascade),
            ),
        decreases rels.len() - i,
    {
        let (child, behavior) = rels[i];
        let ghost prev = rv.take(i as int);
        let ghost next = rv.take(i + 1);
        proof {
            assert(next.drop_last() =~= prev);
            assert(next.last() == (child@, behavior));
        }
        match behavior {
            DeleteBehavior::Restrict => {
                let plural = pluralize(child.name.as_str());
                let mut message = String::from_str("Cannot delete ");
                message.append(model.name.as_str());
                message.append(": it has active ");
                message.append(plural.as_str());
                let c = RestrictCheck { child: ModelNames::of(child.name.as_str()), message };
                proof {
                    assert(c@.message =~= restrict_message(model.name@, child.name@));
                    assert(children_with(next, DeleteBehavior::Restrict) == children_with(
                        prev,
                        DeleteBehavior::Restrict,
                    ).push(child.name@));
                    assert(children_with(next, DeleteBehavior::Cascade) == children_with(
                        prev,
                        DeleteBehavior::Cascade,
                    ));
                    assert(all_checks_of(
                        model.name@,
                        children_with(prev, DeleteBehavior::Restrict).push(child.name@),
                    ) =~= all_checks_of(
                        model.name@,
                        children_with(prev, DeleteBehavior::Restrict),
                    ).push(c@));
                }
                restrict_checks.push(c);
            },
            DeleteBehavior::Cascade => {
                let n = ModelNames::of(child.name.as_str());
                proof {
                    assert(children_with(next, DeleteBehavior::Cascade) == children_with(
                        prev,
                        DeleteBehavior::Cascade,
                    ).push(child.name@));
                    assert(children_with(next, DeleteBehavior::Restrict) == children_with(
                        prev,
                        DeleteBehavior::Restrict,
                    ));
                    assert(all_names_of(
                        children_with(prev, DeleteBehavior::Cascade).push(child.name@),
                    ) =~= all_names_of(children_with(prev, DeleteBehavior::Cascade)).push(n@));
                }
                cascade_deletes.push(n);
            },
        }
        i = i + 1;
    }
    proof {
        assert(rv.take(rv.len() as int) =~= rv);
    }
    let parents = belongs_to_parents(model);
    let fields = index_fields(model);
    RemoveMethod {
        model: ModelNames::of(model.name.as_str()),
        not_found: String::from_str("Record not found"),
        restrict_checks,
        cascade_deletes,
        parents: names_for(&parents),
        indexes: slots_for(&model.name, &fields),
    }
}

/// The views of sequences of method plans.
pub open spec fn adds_seq(v: Seq<AddMethod>) -> Seq<AddMethodView> {
    v.map_values(|x: AddMethod| x@)
}

pub open spec fn gets_seq(v: Seq<GetMethods>) -> Seq<GetMethodsView> {
    v.map_values(|x: GetMethods| x@)
}

pub open spec fn entities_seq(v: Seq<EntityStruct>) -> Seq<EntityStructView> {
    v.map_values(|x: EntityStruct| x@)
}

pub open spec fn updates_seq(v: Seq<UpdateMethod>) -> Seq<UpdateMethodView> {
    v.map_values(|x: UpdateMethod| x@)
}

pub open spec fn removes_seq(v: Seq<RemoveMethod>) -> Seq<RemoveMethodView> {
    v.map_values(|x: RemoveMethod| x@)
}

/// The key type of each model: `Library` gives `LibraryId`.
pub fn build_id_definitions(schema: &SchemaDef) -> (r: Vec<String>)
    ensures
        strings_view(r@) == schema@.models.map_values(|m: ModelView| id_type_of(m.name)),
{
    let ghost mv = schema@.models;
    let mut r: Vec<String> = Vec::new();
    let mut i: usize = 0;
    while i < schema.models.len()
        invariant
            i <= schema.models.len(),
            mv == schema@.models,
            strings_view(r@) =~= mv.take(i as int).map_values(|m: ModelView| id_type_of(m.name)),
        decreases schema.models.len() - i,
    {
        let model = &schema.models[i];
        let x = id_type_ident(model.name.as_str());
        proof {
            assert(mv.take(i + 1).map_values(|m: ModelView| id_type_of(m.name)) =~= mv.take(i as int).map_values(
                |m: ModelView| id_type_of(m.name),
            ).push(x@));
        }
        r.push(x);
        i = i + 1;
    }
    proof {
        assert(mv.take(mv.len() as int) =~= mv);
    }
    r
}

/// The collection field of each model on the store, with its key and value types.
pub fn build_collections(schema: &SchemaDef) -> (r: Vec<ModelNames>)
    ensures
        names_seq(r@) == schema@.models.map_values(|m: ModelView| names_of(m.name)),
{
    let ghost mv = schema@.models;
    let mut r: Vec<ModelNames> = Vec::new();
    let mut i: usize = 0;
    while i < schema.models.len()
        invariant
            i <= schema.models.len(),
            mv == schema@.models,
            names_seq(r@) =~= mv.take(i as int).map_values(|m: ModelView| names_of(m.name)),
        decreases schema.models.len() - i,
    {
        let model = &schema.models[i];
        let x = ModelNames::of(model.name.as_str());
        proof {
            assert(mv.take(i + 1).map_values(|m: ModelView| names_of(m.name)) =~= mv.take(i as int).map_values(
                |m: ModelView| names_of(m.name),
            ).push(x@));
        }
        r.push(x);
        i = i + 1;
    }
    proof {
        assert(mv.take(mv.len() as int) =~= mv);
    }
    r
}

/// The collection fields that the store's constructor initializes, one per model.
pub fn build_init_collections(schema: &SchemaDef) -> (r: Vec<String>)
    ensures
        strings_view(r@) == schema@.models.map_values(|m: ModelView| collection_of(m.name)),
{
    let ghost mv = schema@.models;
    let mut r: Vec<String> = Vec::new();
    let mut i: usize = 0;
    while i < schema.models.len()
        invariant
            i <= schema.models.len(),
            mv == schema@.models,
            strings_view(r@) =~= mv.take(i as int).map_values(|m: ModelView| collection_of(m.name)),
        decreases schema.models.len() - i,
    {
        let model = &schema.models[i];
        let x = collection_ident(model.name.as_str());
        proof {
            assert(mv.take(i + 1).map_values(|m: ModelView| collection_of(m.name)) =~= mv.take(i as int).map_values(
                |m: ModelView| collection_of(m.name),
            ).push(x@));
        }
        r.push(x);
        i = i + 1;
    }
    proof {
        assert(mv.take(mv.len() as int) =~= mv);
    }
    r
}

/// The `add_` method of each model.
pub fn build_add_methods(schema: &SchemaDef) -> (r: Vec<AddMethod>)
    ensures
        adds_seq(r@) == schema@.models.map_values(|m: ModelView| add_plan_of(m)),
{
    let ghost mv = schema@.models;
    let mut r: Vec<AddMethod> = Vec::new();
    let mut i: usize = 0;
    while i < schema.models.len()
        invariant
            i <= schema.models.len(),
            mv == schema@.models,
            adds_seq(r@) =~= mv.take(i as int).map_values(|m: ModelView| add_plan_of(m)),
        decreases schema.models.len() - i,
    {
        let model = &schema.models[i];
        let x = add_method_for(model);
        proof {
            assert(mv.take(i + 1).map_values(|m: ModelView| add_plan_of(m)) =~= mv.take(i as int).map_values(
                |m: ModelView| add_plan_of(m),
            ).push(x@));
        }
        r.push(x);
        i = i + 1;
    }
    proof {
        assert(mv.take(mv.len() as int) =~= mv);
    }
    r
}

/// The getters of each model.
pub fn build_get_methods(schema: &SchemaDef) -> (r: Vec<GetMethods>)
    ensures
        gets_seq(r@) == schema@.models.map_values(|m: ModelView| get_plan_of(m)),
{
    let ghost mv = schema@.models;
    let mut r: Vec<GetMethods> = Vec::new();
    let mut i: usize = 0;
    while i < schema.models.len()
        invariant
            i <= schema.models.len(),
            mv == schema@.models,
            gets_seq(r@) =~= mv.take(i as int).map_values(|m: ModelView| get_plan_of(m)),
        decreases schema.models.len() - i,
    {
        let model = &schema.models[i];
        let x = get_methods_for(model);
        proof {
            assert(mv.take(i + 1).map_values(|m: ModelView| get_plan_of(m)) =~= mv.take(i as int).map_values(
                |m: ModelView| get_plan_of(m),
            ).push(x@));
        }
        r.push(x);
        i = i + 1;
    }
    proof {
        assert(mv.take(mv.len() as int) =~= mv);
    }
    r
}

/// The entity wrapper of each model.
pub fn build_entity_structs(schema: &SchemaDef) -> (r: Vec<EntityStruct>)
    ensures
        entities_seq(r@) == schema@.models.map_values(|m: ModelView| entity_plan_of(m)),
{
    let ghost mv = schema@.models;
    let mut r: Vec<EntityStruct> = Vec::new();
    let mut i: usize = 0;
    while i < schema.models.len()
        invariant
            i <= schema.models.len(),
            mv == schema@.models,
            entities_seq(r@) =~= mv.take(i as int).map_values(|m: ModelView| entity_plan_of(m)),
        decreases schema.models.len() - i,
    {
        let model = &schema.models[i];
        let x = entity_struct_for(model);
        proof {
            assert(mv.take(i + 1).map_values(|m: ModelView| entity_plan_of(m)) =~= mv.take(i as int).map_values(
                |m: ModelView| entity_plan_of(m),
            ).push(x@));
        }
        r.push(x);
        i = i + 1;
    }
    proof {
        assert(mv.take(mv.len() as int) =~= mv);
    }
    r
}

/// The `update_` method of each model.
pub fn build_update_methods(schema: &SchemaDef) -> (r: Vec<UpdateMethod>)
    ensures
        updates_seq(r@) == schema@.models.map_values(|m: ModelView| update_plan_of(m)),
{
    let ghost mv = schema@.models;
    let mut r: Vec<UpdateMethod> = Vec::new();
    let mut i: usize = 0;
    while i < schema.models.len()
        invariant
            i <= schema.models.len(),
            mv == schema@.models,
            updates_seq(r@) =~= mv.take(i as int).map_values(|m: ModelView| update_plan_of(m)),
        decreases schema.models.len() - i,
    {
        let model = &schema.models[i];
        let x = update_method_for(model);
        proof {
            assert(mv.take(i + 1).map_values(|m: ModelView| update_plan_of(m)) =~= mv.take(i as int).map_values(
                |m: ModelView| update_plan_of(m),
            ).push(x@));
        }
        r.push(x);
        i = i + 1;
    }
    proof {
        assert(mv.take(mv.len() as int) =~= mv);
    }
    r
}

/// The `remove_` method of each model, with the delete behaviors that point at it.
pub fn build_remove_methods(schema: &SchemaDef) -> (r: Vec<RemoveMethod>)
    ensures
        removes_seq(r@) == schema@.models.map_values(|m: ModelView| remove_plan_of(schema@.models, m)),
{
    let ghost mv = schema@.models;
    let mut r: Vec<RemoveMethod> = Vec::new();
    let mut i: usize = 0;
    while i < schema.models.len()
        invariant
            i <= schema.models.len(),
            mv == schema@.models,
            removes_seq(r@) =~= mv.take(i as int).map_values(|m: ModelView| remove_plan_of(mv, m)),
        decreases schema.models.len() - i,
    {
        let model = &schema.models[i];
        let x = remove_method_for(schema, model);
        proof {
            assert(mv.take(i + 1).map_values(|m: ModelView| remove_plan_of(mv, m)) =~= mv.take(i as int).map_values(
                |m: ModelView| remove_plan_of(mv, m),
            ).push(x@));
        }
        r.push(x);
        i = i + 1;
    }
    proof {
        assert(mv.take(mv.len() as int) =~= mv);
    }
    r
}

/// A secondary index field on the store: a map from keys to a model's key type.
pub struct IndexField {
    pub map_name: String,
    pub id_type: String,
}

pub struct IndexFieldView {
    pub map_name: Seq<char>,
    pub id_type: Seq<char>,
}

impl View for IndexField {
    type V = IndexFieldView;

    open spec fn view(&self) -> IndexFieldView {
        IndexFieldView { map_name: self.map_name@, id_type: self.id_type@ }
    }
}

/// The views of a sequence of index fields.
pub open spec fn index_fields_seq(v: Seq<IndexField>) -> Seq<IndexFieldView> {
    v.map_values(|x: IndexField| x@)
}

/// The index field of `field` on `model`.
pub open spec fn index_field_of(model: Seq<char>, field: Seq<char>) -> IndexFieldView {
    IndexFieldView { map_name: index_map_of(model, field), id_type: id_type_of(model) }
}

/// The index fields of one model, in the order of its `index` lines.
pub open spec fn model_index_fields(m: ModelView) -> Seq<IndexFieldView> {
    index_fields_of(m.fields).map_values(|f: Seq<char>| index_field_of(m.name, f))
}

/// The index fields of all models, models in order.
pub open spec fn index_plan(models: Seq<ModelView>) -> Seq<IndexFieldView>
    decreases models.len(),
{
    if models.len() == 0 {
        Seq::empty()
    } else {
        index_plan(models.drop_last()) + model_index_fields(models.last())
    }
}

/// The secondary index fields of the store: one per `index` line of each model.
pub fn build_indexes(schema: &SchemaDef) -> (r: Vec<IndexField>)
    ensures
        index_fields_seq(r@) == index_plan(schema@.models),
{
    let ghost mv = schema@.models;
    let mut r: Vec<IndexField> = Vec::new();
    let mut i: usize = 0;
    while i < schema.models.len()
        invariant
            i <= schema.models.len(),
            mv == schema@.models,
            index_fields_seq(r@) =~= index_plan(mv.take(i as int)),
        decreases schema.models.len() - i,
    {
        let model = &schema.models[i];
        let fields = index_fields(model);
        let ghost fv = names_view(fields@);
        let ghost base = index_fields_seq(r@);
        let mut j: usize = 0;
        while j < fields.len()
            invariant
                j <= fields.len(),
                fv == names_view(fields@),
                fv == index_fields_of(model@.fields),
                index_fields_seq(r@) =~= base + fv.take(j as int).map_values(
                    |f: Seq<char>| index_field_of(model.name@, f),
                ),
            decreases fields.len() - j,
        {
            let x = IndexField {
                map_name: index_map_ident(model.name.as_str(), fields[j].as_str()),
                id_type: id_type_ident(model.name.as_str()),
            };
            proof {
                assert(fv.take(j + 1).map_values(|f: Seq<char>| index_field_of(model.name@, f))
                    =~= fv.take(j as int).map_values(
                    |f: Seq<char>| index_field_of(model.name@, f),
                ).push(x@));
            }
            let ghost before = index_fields_seq(r@);
            r.push(x);
            proof {
                assert(index_fields_seq(r@) =~= before.push(r@[r@.len() - 1]@));
            }
            j = j + 1;
        }
        proof {
            assert(fv.take(fv.len() as int) =~= fv);
            assert(mv.take(i + 1).drop_last() =~= mv.take(i as int));
        }
        i = i + 1;
    }
    proof {
        assert(mv.take(mv.len() as int) =~= mv);
    }
    r
}

/// The index maps that the store's constructor initializes.
pub fn build_init_indexes(schema: &SchemaDef) -> (r: Vec<String>)
    ensures
        strings_view(r@) == index_plan(schema@.models).map_values(|f: IndexFieldView| f.map_name),
{
    let fields = build_indexes(schema);
    let ghost fv = index_fields_seq(fields@);
    let mut r: Vec<String> = Vec::new();
    let mut i: usize = 0;
    while i < fields.len()
        invariant
            i <= fields.len(),
            fv == index_fields_seq(fields@),
            strings_view(r@) =~= fv.take(i as int).map_values(|f: IndexFieldView| f.map_name),
        decreases fields.len() - i,
    {
        let x = fields[i].map_name.clone();
        proof {
            assert(fv.take(i + 1).map_values(|f: IndexFieldView| f.map_name) =~= fv.take(
                i as int,
            ).map_values(|f: IndexFieldView| f.map_name).push(x@));
        }
        r.push(x);
        i = i + 1;
    }
    proof {
        assert(fv.take(fv.len() as int) =~= fv);
    }
    r
}

/// Everything a generated store is built from.
pub struct SchemaPlan {
    pub store_name: String,
    pub id_definitions: Vec<String>,
    pub collections: Vec<ModelNames>,
    pub init_collections: Vec<String>,
    pub indexes: Vec<IndexField>,
    pub init_indexes: Vec<String>,
    pub add_methods: Vec<AddMethod>,
    pub get_methods: Vec<GetMethods>,
    pub entity_structs: Vec<EntityStruct>,
    pub update_methods: Vec<UpdateMethod>,
    pub remove_methods: Vec<RemoveMethod>,
}

pub struct SchemaPlanView {
    pub store_name: Seq<char>,
    pub id_definitions: Seq<Seq<char>>,
    pub collections: Seq<ModelNamesView>,
    pub init_collections: Seq<Seq<char>>,
    pub indexes: Seq<IndexFieldView>,
    pub init_indexes: Seq<Seq<char>>,
    pub add_methods: Seq<AddMethodView>,
    pub get_methods: Seq<GetMethodsView>,
    pub entity_structs: Seq<EntityStructView>,
    pub update_methods: Seq<UpdateMethodView>,
    pub remove_methods: Seq<RemoveMethodView>,
}

impl View for SchemaPlan {
    type V = SchemaPlanView;

    open spec fn view(&self) -> SchemaPlanView {
        SchemaPlanView {
            store_name: self.store_name@,
            id_definitions: strings_view(self.id_definitions@),
            collections: names_seq(self.collections@),
            init_collections: strings_view(self.init_collections@),
            indexes: index_fields_seq(self.indexes@),
            init_indexes: strings_view(self.init_indexes@),
            add_methods: adds_seq(self.add_methods@),
            get_methods: gets_seq(self.get_methods@),
            entity_structs: entities_seq(self.entity_structs@),
            update_methods: updates_seq(self.update_methods@),
            remove_methods: removes_seq(self.remove_methods@),
        }
    }
}

/// The plan of the store that a schema describes.
pub open spec fn schema_plan_of(s: SchemaView) -> SchemaPlanView {
    let ms = s.models;
    SchemaPlanView {
        store_name: s.store_name,
        id_definitions: ms.map_values(|m: ModelView| id_type_of(m.name)),
        collections: ms.map_values(|m: ModelView| names_of(m.name)),
        init_collections: ms.map_values(|m: ModelView| collection_of(m.name)),
        indexes: index_plan(ms),
        init_indexes: index_plan(ms).map_values(|f: IndexFieldView| f.map_name),
        add_methods: ms.map_values(|m: ModelView| add_plan_of(m)),
        get_methods: ms.map_values(|m: ModelView| get_plan_of(m)),
        entity_structs: ms.map_values(|m: ModelView| entity_plan_of(m)),
        update_methods: ms.map_values(|m: ModelView| update_plan_of(m)),
        remove_methods: ms.map_values(|m: ModelView| remove_plan_of(ms, m)),
    }
}

/// Plans the store that a schema describes: every item that the generated
/// code declares, with the names and relations it is built from.
pub fn plan_schema(schema: &SchemaDef) -> (r: SchemaPlan)
    ensures
        r@ == schema_plan_of(schema@),
{
    SchemaPlan {
        store_name: schema.store_name.clone(),
        id_definitions: build_id_definitions(schema),
        collections: build_collections(schema),
        init_collections: build_init_collections(schema),
        indexes: build_indexes(schema),
        init_indexes: build_init_indexes(schema),
        add_methods: build_add_methods(schema),
        get_methods: build_get_methods(schema),
        entity_structs: build_entity_structs(schema),
        update_methods: build_update_methods(schema),
        remove_methods: build_remove_methods(schema),
    }
}

} // verus!
