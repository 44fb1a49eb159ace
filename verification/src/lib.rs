//! A schema-agnostic search layer: a JSON-described schema is compiled into
//! an engine field catalog, documents given as JSON are mapped onto engine
//! documents, and a JSON query DSL is compiled into a composed query tree
//! that runs against the engine with pagination.

pub mod compile;
pub mod engine;
pub mod json_value;
pub mod query;
pub mod schema;
pub mod session;
pub mod text;

pub use json_value::JsonValue;
pub use session::{SearchResults, TantivyIndex};
