//! Core library for a crates.io documentation browser: fetch-payload
//! normalization, a bounded TTL/LRU cache of parsed documentation trees,
//! dotted-path resolution over the item graph, and a structural renderer
//! that turns documentation entities into readable text.

use vstd::prelude::*;

pub mod audit;
pub mod cache;
pub mod deptree;
pub mod docmodel;
pub mod docsrs;
pub mod inputs;
pub mod render_def;
pub mod render_doc;
pub mod render_sig;
pub mod query;
pub mod registry;
pub mod render_type;
pub mod resolve;
pub mod search;
pub mod state;
pub mod text;
pub mod types;

verus! {

} // verus!
