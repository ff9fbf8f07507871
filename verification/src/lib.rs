//! Verified core of an LLM tool framework: middle-out truncation of tool
//! output, quarantine framing of untrusted output, URI template matching,
//! prompt/resource value types and the JSON-RPC protocol vocabulary.
use vstd::prelude::*;

pub mod text;
pub mod truncation;
pub mod quarantine;
pub mod neutralization;
pub mod uri_template;
pub mod types;
pub mod json;
pub mod mcp;
pub mod attrs;
pub mod template_syntax;
pub mod registry;
pub mod description;
pub mod template_includes;
pub mod signature;

verus! {
} // verus!
