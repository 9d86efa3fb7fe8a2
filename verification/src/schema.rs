//! The schema that a store is generated from: models and the fields that
//! relate them.

use vstd::prelude::*;

verus! {

/// What removing a parent does to the children that belong to it.
#[derive(PartialEq, Eq, Structural, Clone, Copy, Debug)]
pub enum DeleteBehavior {
    /// Removing the parent removes its children too.
    Cascade,
    /// Removing the parent is refused while it still has children.
    Restrict,
}

/// One line of a model definition.
#[derive(Debug)]
pub enum ModelField {
    /// `belongs_to Parent;` or `belongs_to Parent (on_delete = ...);`
    BelongsTo { parent: String, on_delete: DeleteBehavior },
    /// `has_many Child;`
    HasMany { child: String },
    /// `has_many Child through Join;`
    HasManyThrough { child: String, through: String },
    /// `index unique field;`
    Index { field_name: String },
}

/// A model: its name and its fields, in the order they were written.
#[derive(Debug)]
pub struct ModelDef {
    pub name: String,
    pub fields: Vec<ModelField>,
}

/// A whole schema: the name of the store and its models, in order.
#[derive(Debug)]
pub struct SchemaDef {
    pub store_name: String,
    pub models: Vec<ModelDef>,
}

/// A field, with names as character sequences.
pub enum FieldView {
    BelongsTo { parent: Seq<char>, on_delete: DeleteBehavior },
    HasMany { child: Seq<char> },
    HasManyThrough { child: Seq<char>, through: Seq<char> },
    Index { field_name: Seq<char> },
}

/// A model, with names as character sequences.
pub struct ModelView {
    pub name: Seq<char>,
    pub fields: Seq<FieldView>,
}

/// A schema, with names as character sequences.
pub struct SchemaView {
    pub store_name: Seq<char>,
    pub models: Seq<ModelView>,
}

impl View for ModelField {
    type V = FieldView;

    open spec fn view(&self) -> FieldView {
        match self {
            ModelField::BelongsTo { parent, on_delete } => FieldView::BelongsTo {
                parent: parent@,
                on_delete: *on_delete,
            },
            ModelField::HasMany { child } => FieldView::HasMany { child: child@ },
            ModelField::HasManyThrough { child, through } => FieldView::HasManyThrough {
                child: child@,
                through: through@,
            },
            ModelField::Index { field_name } => FieldView::Index { field_name: field_name@ },
        }
    }
}

/// The views of a sequence of fields.
pub open spec fn fields_view(fields: Seq<ModelField>) -> Seq<FieldView> {
    fields.map_values(|f: ModelField| f@)
}

impl View for ModelDef {
    type V = ModelView;

    open spec fn view(&self) -> ModelView {
        ModelView { name: self.name@, fields: fields_view(self.fields@) }
    }
}

/// The views of a sequence of models.
pub open spec fn models_view(models: Seq<ModelDef>) -> Seq<ModelView> {
    models.map_values(|m: ModelDef| m@)
}

impl View for SchemaDef {
    type V = SchemaView;

    open spec fn view(&self) -> SchemaView {
        SchemaView { store_name: self.store_name@, models: models_view(self.models@) }
    }
}

} // verus!
