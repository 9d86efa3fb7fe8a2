//! GraphLink: a relational in-memory graph store described by a small schema
//! language, together with the runtime collections that the generated stores use.
//!
//! * `tokens`, `parser`: the schema language and its parser.
//! * `schema`, `relations`: the parsed schema and what it says about each model.
//! * `naming`, `codegen`: the names and the plan of the generated store.
//! * `store`: the collections, keys and relationship fields of a running store.
//! * `laws`: properties that hold across these functions.

pub mod codegen;
pub mod laws;
pub mod naming;
pub mod parser;
pub mod relations;
pub mod schema;
pub mod store;
pub mod tokens;

pub use schema::{DeleteBehavior, ModelDef, ModelField, SchemaDef};
pub use slotmap as __private;
pub use store::{BelongsTo, Collection, HasMany, Id};
