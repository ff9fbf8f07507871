use std::borrow::Cow;
use std::sync::Arc;

use llm_tool::truncation::alignment::TruncationAlignment;
use llm_tool::truncation::policy::{
    truncate_middle, truncate_middle_detailed, truncate_middle_detailed_with_context, truncate_output,
    truncate_output_detailed, TruncationPolicy, MINIMAL_TRUNCATION_MARKER,
    MINIMAL_TRUNCATION_MARKER_SPILL_FAILED,
};
use llm_tool::truncation::ratio::HeadRatio;
use llm_tool::truncation::sink::{
    OutputSpillSink, SpillContext, SpillDisposition, SpillError, SpillRef,
};
use llm_tool::types::output::ToolOutput;

struct MemoryStore;

impl OutputSpillSink for MemoryStore {
    fn spill(&self, _ctx: &SpillContext<'_>, _full: &str) -> Result<SpillRef, SpillError> {
        Ok(SpillRef::new("obs-12345"))
    }
}

struct FullStore;

impl OutputSpillSink for FullStore {
    fn spill(&self, _ctx: &SpillContext<'_>, full: &str) -> Result<SpillRef, SpillError> {
        Err(SpillError::CapacityExceeded { limit: 10, attempted: full.len() })
    }
}

struct TagEcho;

impl OutputSpillSink for TagEcho {
    fn spill(&self, ctx: &SpillContext<'_>, _full: &str) -> Result<SpillRef, SpillError> {
        Ok(SpillRef::new(&format!("{}:{}", ctx.tool_name, ctx.opaque_tag.unwrap_or("-"))))
    }
}

#[test]
fn small_string_unchanged() {
    let policy = TruncationPolicy::new(100);
    let text = "short string within limits";
    let result = truncate_middle(text, &policy);
    assert!(matches!(result, Cow::Borrowed(_)));
    assert_eq!(result, text);
}

#[test]
fn middle_out_truncates_and_inserts_marker() {
    let policy = TruncationPolicy::new(80);
    let text = "HEAD_CONTENT_1234567890_MIDDLE_CONTENT_PADDING_TO_EXCEED_LIMIT_TAIL_CONTENT_1234567890";
    let result = truncate_middle(text, &policy);
    assert!(result.len() <= 80);
    assert!(result.starts_with("HEAD_CONTENT"));
    assert!(result.ends_with("TAIL_CONTENT_1234567890"));
    assert!(result.contains("bytes truncated"));
}

#[test]
fn utf8_multi_byte_boundaries_preserved() {
    let crab = "🦀".repeat(50);
    let policy = TruncationPolicy::new(90);
    let result = truncate_middle(&crab, &policy);
    assert!(result.len() <= 90);
    let count = result.chars().count();
    assert!(count > 0);
    assert!(result.contains("bytes truncated"));
}

#[test]
fn custom_head_tail_ratios() {
    let text = "0123456789".repeat(20);
    let policy_head = TruncationPolicy::new(80).with_head_ratio(HeadRatio::from_percent(90));
    let res_head = truncate_middle(&text, &policy_head);
    assert!(res_head.len() <= 80);

    let policy_tail = TruncationPolicy::new(80).with_head_ratio(HeadRatio::from_percent(10));
    let res_tail = truncate_middle(&text, &policy_tail);
    assert!(res_tail.len() <= 80);
}

#[test]
fn custom_marker_format() {
    let policy = TruncationPolicy::new(60).with_marker(" --- cut {count} bytes --- ");
    let text = "A".repeat(200);
    let result = truncate_middle(&text, &policy);
    assert!(result.len() <= 60);
    assert!(result.contains(" --- cut "));
}

#[test]
fn truncate_output_in_place() {
    let mut out = ToolOutput::new("X".repeat(500));
    let policy = TruncationPolicy::new(100);
    truncate_output(&mut out, &policy);
    assert!(out.content().len() <= 100);
    assert!(out.content().contains("bytes truncated"));
}

#[test]
fn test_spill_ref_newtype() {
    let r = SpillRef::new("obs-abc-123");
    assert_eq!(r.as_str(), "obs-abc-123");
    assert_eq!(r.to_string(), "obs-abc-123");
    assert_eq!(&*r, "obs-abc-123");
}

#[test]
fn test_line_boundary_default() {
    let policy = TruncationPolicy::new(50);
    assert_eq!(policy.alignment, TruncationAlignment::CharBoundary);
}

#[test]
fn exact_middle_out_result() {
    let policy = TruncationPolicy::new(40);
    let text = "A".repeat(100);
    let outcome = truncate_middle_detailed(&text, &policy).unwrap();
    assert_eq!(outcome.text, "AAAAA\n[... 90 bytes truncated ...]\nAAAAA");
    assert_eq!(outcome.original_len, 100);
    assert_eq!(outcome.omitted, Some(5..95));
    assert_eq!(outcome.omitted_bytes(), 90);
    assert!(outcome.is_truncated());
    assert!(outcome.spill_ref.is_none());
}

#[test]
fn format_marker_default_text() {
    let policy = TruncationPolicy::new(10);
    assert_eq!(policy.format_marker(42), "\n[... 42 bytes truncated ...]\n");
    let spilled = SpillDisposition::Spilled(SpillRef::new("r1"));
    assert_eq!(
        policy.format_marker_detailed(3, 10, 2, 5, &spilled),
        "\n[... 3 bytes omitted (bytes 2..5 of 10). Full output retained as ref=\"r1\" \u{2014} recall with read_observation. ...]\n"
    );
}

#[test]
fn format_marker_substitutes_every_placeholder() {
    let policy = TruncationPolicy::new(10)
        .with_marker("[{omitted_bytes}|{original_bytes}|{offset_start}|{offset_end}|{ref}|{count}|{bytes}|<N>]");
    let spilled = SpillDisposition::Spilled(SpillRef::new("h"));
    assert_eq!(policy.format_marker_detailed(7, 20, 3, 10, &spilled), "[7|20|3|10|h|7|7|7]");
}

#[test]
fn failed_spill_notice_is_appended_to_custom_marker() {
    let policy = TruncationPolicy::new(10).with_marker("<cut {count}>");
    let failed = SpillDisposition::Failed(SpillError::Timeout);
    assert_eq!(
        policy.format_marker_detailed(4, 4, 0, 4, &failed),
        "<cut 4> WARNING: full output could NOT be retained (spill operation timed out); the omitted bytes are unrecoverable."
    );
}

#[test]
fn spill_sink_handle_is_returned() {
    let policy = TruncationPolicy::new(150).with_spill_sink(Arc::new(MemoryStore));
    let payload = "A".repeat(500);
    let outcome = policy.truncate_detailed(&payload).unwrap();
    assert!(outcome.is_truncated());
    assert_eq!(outcome.spill_ref.unwrap().as_str(), "obs-12345");
    assert!(outcome.text.contains("ref=\"obs-12345\""));
    assert!(outcome.text.len() <= 150);
}

#[test]
fn spill_failure_is_an_error_in_detailed_mode() {
    let policy = TruncationPolicy::new(150).with_spill_sink(Arc::new(FullStore));
    let payload = "B".repeat(500);
    let err = policy.truncate_detailed(&payload).unwrap_err();
    assert_eq!(err, SpillError::CapacityExceeded { limit: 10, attempted: 500 });
    assert_eq!(err.to_string(), "spill capacity exceeded: attempted 500 bytes with limit of 10 bytes");
}

#[test]
fn spill_failure_is_rendered_in_lossy_mode() {
    let policy = TruncationPolicy::new(300).with_spill_sink(Arc::new(FullStore));
    let payload = "B".repeat(500);
    let text = policy.truncate(&payload);
    assert!(text.len() <= 300);
    assert!(text.contains("WARNING: full output could NOT be retained"));
    assert!(text.contains("spill capacity exceeded"));
}

#[test]
fn small_input_never_reaches_the_sink() {
    let policy = TruncationPolicy::new(100).with_spill_sink(Arc::new(FullStore));
    let outcome = policy.truncate_detailed("tiny").unwrap();
    assert!(!outcome.is_truncated());
    assert_eq!(outcome.text, "tiny");
}

#[test]
fn spill_context_reaches_the_sink() {
    let policy = TruncationPolicy::new(150).with_spill_sink(Arc::new(TagEcho));
    let ctx = SpillContext::new("reader").with_tag("sess");
    let payload = "C".repeat(400);
    let outcome = truncate_middle_detailed_with_context(&payload, &policy, &ctx).unwrap();
    assert_eq!(outcome.spill_ref.unwrap().as_str(), "reader:sess");
}

#[test]
fn tiny_budget_uses_minimal_marker() {
    let policy = TruncationPolicy::new(25);
    let text = "D".repeat(100);
    let out = truncate_middle(&text, &policy);
    assert_eq!(out, format!("DDDDDD{}", MINIMAL_TRUNCATION_MARKER));
    let failed = TruncationPolicy::new(12).with_spill_sink(Arc::new(FullStore));
    let out = failed.truncate(&text);
    assert_eq!(out, &MINIMAL_TRUNCATION_MARKER_SPILL_FAILED[..12]);
}

#[test]
fn zero_budget_yields_empty_text() {
    let policy = TruncationPolicy::new(0);
    let outcome = truncate_middle_detailed("abc", &policy).unwrap();
    assert_eq!(outcome.text, "");
    assert_eq!(outcome.omitted, Some(0..3));
}

#[test]
fn line_alignment_cuts_after_newlines() {
    let policy = TruncationPolicy::new(100)
        .with_head_ratio(HeadRatio::from_percent(50))
        .with_alignment(TruncationAlignment::LineBoundary);
    let text = "line 1\nline 2\nline 3\nline 4\nline 5\n".repeat(10);
    let out = truncate_middle(&text, &policy);
    assert!(out.len() <= 100);
    let head = out.split("\n[...").next().unwrap();
    assert!(head.is_empty() || head.ends_with('\n'));
}

#[test]
fn retruncating_is_a_passthrough() {
    let policy = TruncationPolicy::new(64);
    let text = "0123456789".repeat(30);
    let once = truncate_middle(&text, &policy).into_owned();
    let twice = truncate_middle(&once, &policy);
    assert!(matches!(twice, Cow::Borrowed(_)));
    assert_eq!(twice, once);
}

#[test]
fn detailed_output_truncation_keeps_error_content() {
    let mut out = ToolOutput::new("E".repeat(300));
    let policy = TruncationPolicy::new(120).with_spill_sink(Arc::new(FullStore));
    assert!(truncate_output_detailed(&mut out, &policy).is_err());
    assert_eq!(out.content().len(), 300);
    let ok_policy = TruncationPolicy::new(120).with_spill_sink(Arc::new(MemoryStore));
    let outcome = truncate_output_detailed(&mut out, &ok_policy).unwrap();
    assert_eq!(out.content(), outcome.text);
    assert!(out.content().len() <= 120);
}

#[test]
fn head_ratio_budget_split() {
    assert_eq!(HeadRatio::default().compute_head_budget(101), 50);
    assert_eq!(HeadRatio::from_percent(90).compute_head_budget(100), 90);
    assert_eq!(HeadRatio::new(5, 0).parts(), (1, 2));
    assert_eq!(HeadRatio::new(7, 3).parts(), (3, 3));
    assert_eq!(HeadRatio::tail_only().compute_head_budget(77), 0);
    assert_eq!(HeadRatio::head_only().compute_head_budget(77), 77);
}

#[test]
fn truncation_is_never_silent() {
    let text = "D".repeat(300);
    for max in [14usize, 15, 18, 19, 25, 40, 100, 250] {
        let out = truncate_middle(&text, &TruncationPolicy::new(max));
        assert!(out.len() <= max);
        assert!(out.contains("truncated") || out.contains("omitted"), "silent at {max}: {out:?}");
        let failed = TruncationPolicy::new(max).with_spill_sink(Arc::new(FullStore));
        let out = failed.truncate(&text);
        assert!(out.contains("truncated") || out.contains("omitted"), "silent at {max}: {out:?}");
    }
    assert_eq!(truncate_middle(&text, &TruncationPolicy::new(13)), "\n[...truncate");
}

#[test]
fn slices_safely_on_char_alignment_or_ascii() {
    let line = TruncationPolicy::new(10).with_alignment(TruncationAlignment::LineBoundary);
    assert!(line.slices_safely("plain ascii\ntext"));
    assert!(!line.slices_safely("caf\u{e9}\nlatte"));
    assert!(TruncationPolicy::new(10).slices_safely("caf\u{e9}\nlatte"));
}

struct Recorder {
    seen: std::sync::Mutex<Vec<(String, String)>>,
}

impl OutputSpillSink for Recorder {
    fn spill(&self, ctx: &SpillContext<'_>, full: &str) -> Result<SpillRef, SpillError> {
        let mut seen = self.seen.lock().unwrap();
        seen.push((ctx.tool_name.to_string(), full.to_string()));
        Ok(SpillRef::new(&format!("rec-{}", seen.len())))
    }
}

#[test]
fn sink_gets_the_input_once_and_its_handle_is_reported() {
    let recorder = Arc::new(Recorder { seen: std::sync::Mutex::new(Vec::new()) });
    let policy = TruncationPolicy::new(60).with_spill_sink(recorder.clone());
    let small = "fits";
    let kept = policy.truncate_detailed_with_context(small, &SpillContext::new("grep")).unwrap();
    assert_eq!(kept.text, small);
    assert!(recorder.seen.lock().unwrap().is_empty());

    let big = "x".repeat(200);
    let outcome = policy.truncate_detailed_with_context(&big, &SpillContext::new("grep")).unwrap();
    let seen = recorder.seen.lock().unwrap().clone();
    assert_eq!(seen, vec![("grep".to_string(), big.clone())]);
    assert_eq!(outcome.spill_ref.as_ref().map(|h| h.as_str()), Some("rec-1"));
}

#[test]
fn failing_sink_error_is_returned_unchanged() {
    let policy = TruncationPolicy::new(60).with_spill_sink(Arc::new(FullStore));
    let big = "y".repeat(120);
    let err = policy.truncate_detailed(&big).unwrap_err();
    assert_eq!(err, SpillError::CapacityExceeded { limit: 10, attempted: 120 });
}

#[test]
fn checked_truncation_refuses_line_alignment_over_non_ascii() {
    let policy = TruncationPolicy::new(40).with_alignment(TruncationAlignment::LineBoundary);
    let ascii = "line one\nline two\nline three\nline four\nline five\nline six";
    assert!(policy.truncate_checked(ascii).is_some());
    let wide = "é".repeat(60);
    assert!(policy.truncate_checked(&wide).is_none());
    assert!(policy.truncate_detailed_checked(&wide, &SpillContext::anonymous()).is_none());
    let char_policy = TruncationPolicy::new(40);
    let cut = char_policy.truncate_checked(&wide).unwrap();
    assert!(cut.len() <= 40);
}
