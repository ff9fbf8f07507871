//! Detailed truncation outcome capturing metadata and recall references.
use vstd::prelude::*;
use std::borrow::Cow;
use crate::truncation::sink::SpillRef;

verus! {

/// Detailed outcome of a middle-out string truncation operation.
#[derive(Debug, PartialEq, Eq)]
pub struct TruncationOutcome<'a> {
    /// The truncated or original text.
    pub text: Cow<'a, str>,
    /// Byte length of the original input before truncation.
    pub original_len: usize,
    /// Byte range of the original input that was omitted; `None` when untruncated.
    pub omitted: Option<core::ops::Range<usize>>,
    /// Spill reference handle if the full output was retained by a sink.
    pub spill_ref: Option<SpillRef>,
}

impl<'a> TruncationOutcome<'a> {
    /// Returns `true` if content was omitted during truncation.
    pub fn is_truncated(&self) -> (r: bool)
        ensures
            r == self.omitted is Some,
    {
        self.omitted.is_some()
    }

    /// Number of bytes omitted from the original input.
    pub fn omitted_bytes(&self) -> (r: usize)
        ensures
            match self.omitted {
                Some(range) => r == if range.end >= range.start {
                    (range.end - range.start) as usize
                } else {
                    0
                },
                None => r == 0,
            },
    {
        match &self.omitted {
            Some(range) => range.end.saturating_sub(range.start),
            None => 0,
        }
    }

    /// Consume this outcome and return the resulting text.
    pub fn into_text(self) -> (r: Cow<'a, str>)
        ensures
            r == self.text,
    {
        self.text
    }
}

} // verus!
