//! Catalog-driven generation of safe, parameterized CRUD statements.
//!
//! The crate models a relational database's catalog (schemas, tables,
//! columns, constraints), filters it through include/exclude scope
//! patterns, classifies columns into semantic input kinds, and builds
//! identifier-quoted, parameter-bound SELECT/INSERT/UPDATE statements
//! from untyped submitted values.

pub use config::Config;

pub mod classify;
pub mod column;
pub mod config;
pub mod constraint;
pub mod error;
pub mod partition;
pub mod project;
pub mod request;
pub mod schema;
pub mod scope;
pub mod sort;
pub mod statement;
pub mod table;
pub mod text;
