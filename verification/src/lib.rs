//! A programmatic SQL statement builder with a verified rendering engine.
//!
//! Statements are assembled through a fluent API into an in-memory tree of
//! arguments, conditions and query payloads, and then rendered into SQL text
//! together with a positionally numbered list of bound parameter values.

pub mod error;
pub mod laws;
pub mod query_builder;
pub mod sql_dialect;

pub use error::Error;
pub use error::ErrorKind;
pub use query_builder::Conditions;
pub use query_builder::QueryBuilder;
pub use query_builder::RawExt;
pub use query_builder::ColumnExt;
pub use query_builder::ValueExt;
