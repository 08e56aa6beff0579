//! Record transformation engine for normalizing delimited bank-statement
//! exports: a declarative schema (typed input columns with transform
//! pipelines, output projection with renaming), a transform engine of pure
//! string-to-string operations, a mapper from tokenized rows to named-field
//! records, and a projector from records to ordered output rows.
//!
//! All components are pure; reading and writing the delimited files, as well
//! as loading the schema from configuration, are the caller's business.

pub mod schema;
pub mod transform;
pub mod record;
pub mod mapper;
pub mod projector;
