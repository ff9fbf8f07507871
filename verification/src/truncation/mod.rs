//! Middle-out truncation of oversized tool return values.
//!
//! Preserves both head (initial context) and tail (latest context/error summary)
//! while splitting out the middle with an informative marker. When an
//! [`sink::OutputSpillSink`] is configured, the full content is first offered to
//! it and the returned [`sink::SpillRef`] is referenced from the marker.
pub mod alignment;
pub mod outcome;
pub mod placeholder;
pub mod ratio;
pub mod sink;
pub mod policy;
pub mod model;
pub mod laws;
