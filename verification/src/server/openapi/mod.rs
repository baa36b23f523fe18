//! Describing the API of a running deployment.
//!
//! Core's own endpoints are described by a table, and the routes that plugins
//! add are read out of the same settings that register them, so the two cannot
//! disagree about which paths exist.
use vstd::prelude::*;

pub mod described;
pub mod doc;
pub mod document;
pub mod laws;
pub mod paths;
pub mod render;
pub mod routes;
pub mod schemas;
pub mod spots;

pub use self::document::{build_spec, openapi_docs, openapi_json};
pub use self::routes::{plugin_routes, PluginRoute, RouteKind};

verus! {

/// Where the document itself is served.
pub const OPENAPI_PATH: &'static str = "/openapi.json";

/// Where the human-readable rendering of it is served.
pub const DOCS_PATH: &'static str = "/docs";

/// The unset value that every numeric field of a list query defaults to.
pub const UNSET: &'static str = "18446744073709551615 (`u64::MAX`) when omitted";

} // verus!
