//! The object-relational layer: backends, field types, SQL expressions,
//! aggregates, relationships, lookups and query building.

pub mod backend;
pub mod fields;
pub mod expressions;
pub mod aggregates;
pub mod relationships;
pub mod lookups;
pub mod functions;
pub mod query;
pub mod executor;
pub mod managers;
pub mod models;
