//! A typed value model for database-level scalar and structured data, with
//! verified bidirectional conversion between the exposed representation and
//! the query engine's canonical one, and a resolver that turns the engine's
//! result trees — which may share sub-trees — into exclusively-owned trees.

pub mod convert;
pub mod item;
pub mod json;
pub mod value;
