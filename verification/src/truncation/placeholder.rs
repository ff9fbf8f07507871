//! Placeholder definitions and substitution tokens for marker templates.
use vstd::prelude::*;

verus! {

/// Canonical token string for [`MarkerPlaceholder::OmittedBytes`].
pub const TOKEN_OMITTED_BYTES: &'static str = "{omitted_bytes}";
/// Canonical token string for [`MarkerPlaceholder::OriginalBytes`].
pub const TOKEN_ORIGINAL_BYTES: &'static str = "{original_bytes}";
/// Canonical token string for [`MarkerPlaceholder::OffsetStart`].
pub const TOKEN_OFFSET_START: &'static str = "{offset_start}";
/// Canonical token string for [`MarkerPlaceholder::OffsetEnd`].
pub const TOKEN_OFFSET_END: &'static str = "{offset_end}";
/// Canonical token string for [`MarkerPlaceholder::SpillRef`].
pub const TOKEN_SPILL_REF: &'static str = "{ref}";
/// Legacy placeholder `{count}` (alias of `{omitted_bytes}`).
pub const DEPRECATED_COUNT: &'static str = "{count}";
/// Legacy placeholder `{bytes}` (alias of `{omitted_bytes}`).
pub const DEPRECATED_BYTES: &'static str = "{bytes}";
/// Legacy placeholder `<N>` (alias of `{omitted_bytes}`).
pub const DEPRECATED_N: &'static str = "<N>";

/// Named placeholders supported in custom marker templates.
#[derive(Debug, Clone, Copy, PartialEq, Eq, Hash, Structural)]
pub enum MarkerPlaceholder {
    /// Number of bytes omitted from the middle (`"{omitted_bytes}"`).
    OmittedBytes,
    /// Total byte length of the original un-truncated input (`"{original_bytes}"`).
    OriginalBytes,
    /// Starting byte offset in original input where truncation began (`"{offset_start}"`).
    OffsetStart,
    /// Ending byte offset in original input where truncation ended (`"{offset_end}"`).
    OffsetEnd,
    /// Typed reference handle for recall (`"{ref}"`).
    SpillRef,
}

/// The token each placeholder stands for in a marker template.
pub open spec fn placeholder_token(p: MarkerPlaceholder) -> &'static str {
    match p {
        MarkerPlaceholder::OmittedBytes => TOKEN_OMITTED_BYTES,
        MarkerPlaceholder::OriginalBytes => TOKEN_ORIGINAL_BYTES,
        MarkerPlaceholder::OffsetStart => TOKEN_OFFSET_START,
        MarkerPlaceholder::OffsetEnd => TOKEN_OFFSET_END,
        MarkerPlaceholder::SpillRef => TOKEN_SPILL_REF,
    }
}

impl MarkerPlaceholder {
    /// Return the canonical placeholder token string.
    pub fn token(&self) -> (r: &'static str)
        ensures
            r == placeholder_token(*self),
    {
        match self {
            MarkerPlaceholder::OmittedBytes => TOKEN_OMITTED_BYTES,
            MarkerPlaceholder::OriginalBytes => TOKEN_ORIGINAL_BYTES,
            MarkerPlaceholder::OffsetStart => TOKEN_OFFSET_START,
            MarkerPlaceholder::OffsetEnd => TOKEN_OFFSET_END,
            MarkerPlaceholder::SpillRef => TOKEN_SPILL_REF,
        }
    }
}

} // verus!
