//! A typed gateway core over a schemaless document collection of `Foo`
//! aggregates, each embedding a list of `Thing` values.
//!
//! The crate provides the document codec (typed objects to and from the
//! store's tree-structured document values), the unified error channel, an
//! in-memory model of the store collaborator, and the five resolver
//! operations: list, insert-one, insert-many, delete-one and append-child.

pub mod codec;
pub mod document;
pub mod error;
pub mod laws;
pub mod mutation;
pub mod query;
pub mod store;
pub mod types;

pub use crate::error::Error;
pub use crate::mutation::Mutation;
pub use crate::query::Query;
pub use crate::types::{FooInput, FooPayload, ObjectId, ThingInput, UpdateStats};
