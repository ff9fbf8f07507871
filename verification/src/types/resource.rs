//! Resource definitions and read output types.
use vstd::prelude::*;

verus! {

/// Describes a resource or resource template available in the registry.
#[derive(Debug, Clone, PartialEq, Eq)]
pub struct ResourceDefinition {
    /// Resource URI (e.g. `file:///path` or `config://app`) or template pattern.
    pub uri_template: String,
    /// Human-readable name.
    pub name: String,
    /// Optional description.
    pub description: String,
    /// Optional MIME type.
    pub mime_type: Option<String>,
}

/// A content block inside a resource read output.
#[derive(Debug, Clone, PartialEq, Eq)]
pub enum ResourceOutputContent {
    /// UTF-8 text content.
    Text {
        /// Resource URI.
        uri: String,
        /// Optional MIME type.
        mime_type: Option<String>,
        /// Text string.
        text: String,
    },
    /// Base64 binary content.
    Blob {
        /// Resource URI.
        uri: String,
        /// Optional MIME type.
        mime_type: Option<String>,
        /// Base64 blob data.
        blob: String,
    },
}

/// The output returned by reading a resource.
#[derive(Debug, Clone, PartialEq, Eq)]
pub struct ResourceOutput {
    /// Returned content blocks.
    pub contents: Vec<ResourceOutputContent>,
}

/// Whether `m` holds the same text as `s` (both absent, or both present and equal).
pub open spec fn same_opt(m: Option<String>, s: Option<&str>) -> bool {
    match s {
        Some(x) => m matches Some(y) && y@ == x@,
        None => m is None,
    }
}

fn owned_opt(s: Option<&str>) -> (r: Option<String>)
    ensures
        same_opt(r, s),
{
    match s {
        Some(x) => Some(String::from_str(x)),
        None => None,
    }
}

impl ResourceOutput {
    /// A text resource output with a single content block.
    pub fn text(uri: &str, mime_type: Option<&str>, text: &str) -> (r: Self)
        ensures
            r.contents@.len() == 1,
            r.contents@[0] matches ResourceOutputContent::Text { uri: u, mime_type: m, text: t }
                && u@ == uri@ && same_opt(m, mime_type) && t@ == text@,
    {
        let mut contents = Vec::new();
        contents.push(
            ResourceOutputContent::Text {
                uri: String::from_str(uri),
                mime_type: owned_opt(mime_type),
                text: String::from_str(text),
            },
        );
        ResourceOutput { contents }
    }

    /// A binary blob resource output with a single content block.
    pub fn blob(uri: &str, mime_type: Option<&str>, blob: &str) -> (r: Self)
        ensures
            r.contents@.len() == 1,
            r.contents@[0] matches ResourceOutputContent::Blob { uri: u, mime_type: m, blob: b }
                && u@ == uri@ && same_opt(m, mime_type) && b@ == blob@,
    {
        let mut contents = Vec::new();
        contents.push(
            ResourceOutputContent::Blob {
                uri: String::from_str(uri),
                mime_type: owned_opt(mime_type),
                blob: String::from_str(blob),
            },
        );
        ResourceOutput { contents }
    }
}

} // verus!
