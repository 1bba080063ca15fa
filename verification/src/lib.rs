//! Assembly engine for project workspaces generated from a template tree.
//!
//! A fetched template tree carries per-language rule fragments, hook
//! definitions, server manifests, and text templates. This library holds
//! the deterministic transformations that turn that tree and a small
//! selection — requested languages, hook names, server names — into the
//! generated artifacts: the rendered top-level document, the merged server
//! manifest, and the settings document. It also plans the conflict-safe
//! application of those artifacts into a working directory the tool does
//! not own: nothing is written before the whole set of destination names
//! has been checked for collisions.
//!
//! Everything here works on pre-read, in-memory values; reading the tree
//! from disk and performing the planned writes happen outside the library.
//! Merge order is fixed and overridable — defaults first, then requested
//! languages in caller order, then explicitly named sources, later sources
//! overwriting earlier ones name by name — except hook entries, which are
//! appended, never overwritten. Requesting a name that no source offers
//! fails the whole run, naming the alternatives.

use vstd::prelude::*;

pub mod apply;
pub mod clarg;
pub mod cli;
pub mod copyplan;
pub mod errors;
pub mod gitignore;
pub mod hooks;
pub mod json;
pub mod language;
pub mod mcp;
pub mod render;
pub mod rules;
pub mod settings;
pub mod text;

verus! {

/// Name of the directory into which the template repository is fetched.
pub const CLONE_DIR: &'static str = "agent-template";

} // verus!
