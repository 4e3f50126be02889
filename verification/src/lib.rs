//! A schema-driven query execution core.
//!
//! The crate resolves a position-annotated operation tree against a schema by
//! invoking field resolvers, threading a directive middleware chain around
//! field resolution and an input-validator chain around argument and
//! input-object coercion, and packaging results or errors into a wire-shaped
//! response envelope that supports single or batched requests.
//!
//! The query-language parser and the transport layer are external
//! collaborators: the engine consumes an already-parsed operation tree (or the
//! parser's position-annotated errors) and emits response text; decoding bytes
//! into [`json::JsonValue`] and moving them over a wire is left to callers.

pub mod context;
pub mod directives;
pub mod error;
pub mod executor;
pub mod json;
pub mod query;
pub mod response;
pub mod text;
pub mod validators;

pub use error::Error;
pub use error::FieldError;
pub use error::FieldResult;
pub use error::InputValueError;
pub use error::InputValueResult;
pub use error::ParseError;
pub use error::Pos;
pub use error::QueryError;
pub use error::RuleError;
pub use json::JsonValue;
pub use query::BatchGQLRequest;
pub use query::GQLRequest;
pub use query::IntoQueryBuilderOpts;
pub use query::ParseRequestError;
pub use query::QueryBuilder;
pub use query::Variables;
pub use response::BatchGQLResponse;
pub use response::BatchQueryResponse;
pub use response::GQLError;
pub use response::GQLResponse;
pub use response::QueryResponse;
pub use text::i64_to_string;
pub use text::u64_to_string;
pub use text::usize_to_string;
