//! Typed-record persistence for a media library: a schema-driven mapping
//! between record descriptions and relational tables, a value codec, a
//! content-addressed identity and an idempotent upsert built on them.
//!
//! The library makes no call into the store. Whatever needs the store hands
//! out the statement that is to be run and takes what the store gave for it,
//! as plain values, and says what follows: the next statement, or the result.

pub mod codec;
pub mod decimal;
pub mod identity;
pub mod pagination;
pub mod query;
pub mod row;
pub mod scan;
pub mod schema;
pub mod song;
pub mod store;
pub mod text;
pub mod upsert;
