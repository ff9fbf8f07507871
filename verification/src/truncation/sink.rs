//! Pluggable observation spill sink and contextual handle types.
use vstd::prelude::*;
use crate::text::{dec, push_dec, push_str, string_from_chars};

verus! {

/// Typed identifier/handle for full tool output spilled to an external observation store.
#[derive(Debug, Clone, PartialEq, Eq, Hash, PartialOrd, Ord)]
pub struct SpillRef(String);

impl SpillRef {
    /// The characters of the handle.
    pub closed spec fn text(&self) -> Seq<char> {
        self.0@
    }

    /// Create a new typed spill reference from an identifier.
    pub fn new(id: &str) -> (r: Self)
        ensures
            r.text() == id@,
    {
        SpillRef(String::from_str(id))
    }

    /// Return the string slice of the spill reference.
    pub fn as_str(&self) -> (r: &str)
        ensures
            r@ == self.text(),
    {
        self.0.as_str()
    }

    /// The handle as an owned string (its display form).
    pub fn to_string(&self) -> (r: String)
        ensures
            r@ == self.text(),
    {
        self.0.clone()
    }
}

impl core::ops::Deref for SpillRef {
    type Target = str;

    fn deref(&self) -> (r: &str)
        ensures
            r@ == self.text(),
    {
        self.0.as_str()
    }
}

/// Contextual metadata provided to an [`OutputSpillSink`] during a spill operation.
#[derive(Debug, Clone, Copy, PartialEq, Eq)]
pub struct SpillContext<'a> {
    /// Name of the tool whose output is being truncated.
    pub tool_name: &'a str,
    /// Optional caller-supplied opaque tag or provenance token.
    pub opaque_tag: Option<&'a str>,
}

/// The tag of a spill context, as text.
pub open spec fn tag_of(c: SpillContext) -> Option<Seq<char>> {
    match c.opaque_tag {
        Some(t) => Some(t@),
        None => None,
    }
}

impl<'a> SpillContext<'a> {
    /// Anonymous context with the tool name `"anonymous"`.
    pub fn anonymous() -> (r: SpillContext<'static>)
        ensures
            r.tool_name@ == "anonymous"@,
            r.opaque_tag is None,
    {
        SpillContext { tool_name: "anonymous", opaque_tag: None }
    }

    /// Create a new spill context for a specific tool.
    pub fn new(tool_name: &'a str) -> (r: Self)
        ensures
            r.tool_name == tool_name,
            r.opaque_tag is None,
    {
        SpillContext { tool_name, opaque_tag: None }
    }

    /// Attach an opaque provenance or session tag.
    pub fn with_tag(self, opaque_tag: &'a str) -> (r: Self)
        ensures
            r.tool_name == self.tool_name,
            r.opaque_tag == Some(opaque_tag),
    {
        SpillContext { tool_name: self.tool_name, opaque_tag: Some(opaque_tag) }
    }
}

/// Strongly typed error returned when persisting tool output to an [`OutputSpillSink`].
#[derive(Debug, Clone, PartialEq, Eq)]
pub enum SpillError {
    /// The storage backend or buffer capacity was exceeded.
    CapacityExceeded {
        /// Configured limit in bytes.
        limit: usize,
        /// Attempted spill size in bytes.
        attempted: usize,
    },
    /// Storage I/O or persistence failure.
    StorageFailed(String),
    /// The spill operation timed out.
    Timeout,
    /// The spill operation was rejected by policy or authorization.
    Rejected(String),
    /// Other backend-specific error.
    Other(String),
}

/// The human-readable rendering of a spill error.
pub open spec fn spill_error_text(e: SpillError) -> Seq<char> {
    match e {
        SpillError::CapacityExceeded { limit, attempted } => "spill capacity exceeded: attempted "@
            + dec(attempted as nat) + " bytes with limit of "@ + dec(limit as nat) + " bytes"@,
        SpillError::StorageFailed(msg) => "spill storage failed: "@ + msg@,
        SpillError::Timeout => "spill operation timed out"@,
        SpillError::Rejected(msg) => "spill rejected: "@ + msg@,
        SpillError::Other(msg) => "spill error: "@ + msg@,
    }
}

impl SpillError {
    /// Append this error's rendering to `out`.
    pub fn push_text(&self, out: &mut Vec<char>)
        ensures
            final(out)@ == old(out)@ + spill_error_text(*self),
    {
        match self {
            SpillError::CapacityExceeded { limit, attempted } => {
                push_str(out, "spill capacity exceeded: attempted ");
                push_dec(out, *attempted);
                push_str(out, " bytes with limit of ");
                push_dec(out, *limit);
                push_str(out, " bytes");
                assert(final(out)@ =~= old(out)@ + spill_error_text(*self));
            },
            SpillError::StorageFailed(msg) => {
                push_str(out, "spill storage failed: ");
                push_str(out, msg.as_str());
                assert(final(out)@ =~= old(out)@ + spill_error_text(*self));
            },
            SpillError::Timeout => {
                push_str(out, "spill operation timed out");
            },
            SpillError::Rejected(msg) => {
                push_str(out, "spill rejected: ");
                push_str(out, msg.as_str());
                assert(final(out)@ =~= old(out)@ + spill_error_text(*self));
            },
            SpillError::Other(msg) => {
                push_str(out, "spill error: ");
                push_str(out, msg.as_str());
                assert(final(out)@ =~= old(out)@ + spill_error_text(*self));
            },
        }
    }

    /// The error's human-readable rendering.
    pub fn to_string(&self) -> (r: String)
        ensures
            r@ == spill_error_text(*self),
    {
        let mut out: Vec<char> = Vec::new();
        self.push_text(&mut out);
        assert(out@ =~= spill_error_text(*self));
        string_from_chars(out)
    }
}

/// Resolved outcome of attempting to spill an oversized observation.
#[derive(Debug, Clone, PartialEq, Eq)]
pub enum SpillDisposition {
    /// No [`OutputSpillSink`] was configured; omitted bytes were never retained.
    NotConfigured,
    /// The full output was retained and is recallable via the returned handle.
    Spilled(SpillRef),
    /// A sink was configured but failed; the omitted bytes are unrecoverable.
    Failed(SpillError),
}

impl SpillDisposition {
    /// Return the spill handle when retention succeeded.
    pub fn spill_ref(&self) -> (r: Option<&SpillRef>)
        ensures
            match *self {
                SpillDisposition::Spilled(h) => r == Some(&h),
                _ => r is None,
            },
    {
        match self {
            SpillDisposition::Spilled(handle) => Some(handle),
            _ => None,
        }
    }

    /// Return the spill error when a configured sink failed.
    pub fn error(&self) -> (r: Option<&SpillError>)
        ensures
            match *self {
                SpillDisposition::Failed(e) => r == Some(&e),
                _ => r is None,
            },
    {
        match self {
            SpillDisposition::Failed(error) => Some(error),
            _ => None,
        }
    }
}

/// Pluggable sink for retaining full un-truncated tool output observations.
///
/// Implementations may store output in memory, write to an artifact store,
/// or upload to a remote recall cache. When configured on a
/// [`crate::truncation::policy::TruncationPolicy`], output exceeding
/// `max_bytes` is first saved via [`OutputSpillSink::spill`] before
/// middle-out truncation occurs.
///
/// Each implementation says, through `spilled`, which answers it may give
/// for a context and a content; the library assumes only that `spill`
/// answers one of them, and proves what it does with whichever it gets.
pub trait OutputSpillSink: Send + Sync {
    /// Whether `r` is an answer this sink may give when spilling `full` for
    /// the tool `tool` with the tag `tag`. A sink that does not say admits
    /// every answer.
    closed spec fn spilled(&self, tool: Seq<char>, tag: Option<Seq<char>>, full: Seq<char>, r: Result<SpillRef, SpillError>) -> bool {
        true
    }

    /// Spill the full tool return content, returning a recallable [`SpillRef`].
    fn spill(&self, ctx: &SpillContext<'_>, full: &str) -> (r: Result<SpillRef, SpillError>)
        ensures
            self.spilled(ctx.tool_name@, tag_of(*ctx), full@, r),
    ;
}

} // verus!
