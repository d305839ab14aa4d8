//! Resolves JSON Schema documents into a language-neutral model of native types.
//!
//! A schema node ([`JsonSchema`]) and a context name resolve to a node of the
//! type model ([`PropType`]): a primitive, a reference, a named structure, a
//! tagged union, or an array, a map or an optional around another node. The
//! context name is handed down the walk and names every structure that the
//! schema leaves anonymous.

pub mod laws;
pub mod naming;
pub mod render;
pub mod report;
pub mod resolve;
pub mod schema;
pub mod text;
pub mod types;

pub use crate::report::{Diagnostic, ResolveError};
pub use crate::resolve::{ResolveOptions, DEPTH_LIMIT};
pub use crate::schema::JsonSchema;
pub use crate::types::{JsonEnum, JsonEnumVariant, JsonObject, JsonObjectFieldInfo, PropType};
