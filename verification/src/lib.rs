//! A customer registry: one entity, four verbs.
//!
//! The `store` module models the customers table of the backing relational
//! store (ids and emails unique); the `resolvers` module holds the named API
//! operations, each with an exact contract; the `laws` module proves the
//! cross-operation guarantees. Identifier parsing, identifier formatting and
//! email lowercasing go through the trusted items in `ids` and `text`.

pub mod customer;
pub mod ids;
pub mod laws;
pub mod resolvers;
pub mod store;
pub mod text;
