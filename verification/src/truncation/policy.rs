//! Truncation policy definition and core middle-out execution logic.
use vstd::prelude::*;
use std::sync::Arc;
use crate::text::{dec, push_dec, push_str, push_all, string_from_chars, chars_of, replace_chars, replace_all, utf8, lemma_utf8_concat};
use crate::truncation::alignment::TruncationAlignment;
use crate::truncation::placeholder::{TOKEN_OMITTED_BYTES, TOKEN_ORIGINAL_BYTES, TOKEN_OFFSET_START, TOKEN_OFFSET_END, TOKEN_SPILL_REF, DEPRECATED_COUNT, DEPRECATED_BYTES, DEPRECATED_N};
use crate::truncation::ratio::HeadRatio;
use crate::truncation::sink::{OutputSpillSink, SpillContext, SpillDisposition, SpillError, SpillRef, spill_error_text, tag_of};
use crate::truncation::alignment::MAX_LINE_SCAN_WINDOW;
use crate::truncation::outcome::TruncationOutcome;
use crate::truncation::model::{sat_sub, min_nat, floor_boundary, ceil_boundary, last_newline, first_newline, initial_head, initial_tail, raw_head, raw_tail, shrink_head, expand_tail, total_len, keeps_going, moves_head, converge, fallback_marker, fallback_result, sample_marker_len, content_budget, oversized_result, oversized_ok, window, is_line, marker_len};
use crate::text::{lemma_boundary_after_ascii, lemma_boundary_ends, lemma_chars_of_bytes};
use crate::truncation::ratio::head_budget;
use vstd::string::*;
use vstd::utf8::*;
use std::borrow::Cow;
use crate::types::output::ToolOutput;

verus! {

/// Prefix of the in-band warning emitted when a configured [`OutputSpillSink`] fails.
pub const SPILL_FAILURE_NOTICE_PREFIX: &'static str = " WARNING: full output could NOT be retained (";

/// Suffix of the in-band warning emitted when a configured [`OutputSpillSink`] fails.
pub const SPILL_FAILURE_NOTICE_SUFFIX: &'static str = "); the omitted bytes are unrecoverable.";

/// Marker used when `max_bytes` is too small to hold the fully informative marker.
pub const MINIMAL_TRUNCATION_MARKER: &'static str = "\n[...truncated...]\n";

/// Minimal marker variant used when a configured [`OutputSpillSink`] failed.
pub const MINIMAL_TRUNCATION_MARKER_SPILL_FAILED: &'static str = "\n[...truncated; NOT retained...]\n";

/// The in-band notice describing a failed spill.
pub open spec fn failure_notice(e: SpillError) -> Seq<char> {
    SPILL_FAILURE_NOTICE_PREFIX@ + spill_error_text(e) + SPILL_FAILURE_NOTICE_SUFFIX@
}

/// The recall handle text of a disposition (empty unless the output was spilled).
pub open spec fn ref_text(spill: SpillDisposition) -> Seq<char> {
    match spill {
        SpillDisposition::Spilled(h) => h.text(),
        _ => Seq::<char>::empty(),
    }
}

/// A custom template with every placeholder substituted, in the documented order.
pub open spec fn substituted_template(
    t: Seq<char>,
    omitted: nat,
    original: nat,
    start: nat,
    end: nat,
    spill: SpillDisposition,
) -> Seq<char> {
    let os = dec(omitted);
    let r1 = replace_all(t, TOKEN_OMITTED_BYTES@, os);
    let r2 = replace_all(r1, TOKEN_ORIGINAL_BYTES@, dec(original));
    let r3 = replace_all(r2, TOKEN_OFFSET_START@, dec(start));
    let r4 = replace_all(r3, TOKEN_OFFSET_END@, dec(end));
    let r5 = replace_all(r4, TOKEN_SPILL_REF@, ref_text(spill));
    let r6 = replace_all(r5, DEPRECATED_COUNT@, os);
    let r7 = replace_all(r6, DEPRECATED_BYTES@, os);
    replace_all(r7, DEPRECATED_N@, os)
}

/// The built-in marker for each spill disposition.
pub open spec fn default_marker(
    omitted: nat,
    original: nat,
    start: nat,
    end: nat,
    spill: SpillDisposition,
) -> Seq<char> {
    match spill {
        SpillDisposition::Spilled(h) => "\n[... "@ + dec(omitted) + " bytes omitted (bytes "@ + dec(
            start,
        ) + ".."@ + dec(end) + " of "@ + dec(original)
            + "). Full output retained as ref=\""@ + h.text()
            + "\" \u{2014} recall with read_observation. ...]\n"@,
        SpillDisposition::Failed(e) => "\n[... "@ + dec(omitted) + " bytes omitted (bytes "@ + dec(
            start,
        ) + ".."@ + dec(end) + " of "@ + dec(original) + ")."@ + failure_notice(e) + " ...]\n"@,
        SpillDisposition::NotConfigured => "\n[... "@ + dec(omitted) + " bytes truncated ...]\n"@,
    }
}

/// The marker rendered for the given metadata: the substituted custom
/// template (followed by the failure notice when the sink failed), or the
/// built-in marker.
pub open spec fn marker_text(
    template: Option<String>,
    omitted: nat,
    original: nat,
    start: nat,
    end: nat,
    spill: SpillDisposition,
) -> Seq<char> {
    match template {
        Some(t) => {
            let base = substituted_template(t@, omitted, original, start, end, spill);
            match spill {
                SpillDisposition::Failed(e) => base + failure_notice(e),
                _ => base,
            }
        },
        None => default_marker(omitted, original, start, end, spill),
    }
}

/// Render the notice describing a failed spill.
fn spill_failure_notice(error: &SpillError) -> (r: String)
    ensures
        r@ == failure_notice(*error),
{
    let mut out: Vec<char> = Vec::new();
    push_notice(&mut out, error);
    assert(out@ =~= failure_notice(*error));
    string_from_chars(out)
}

fn push_notice(out: &mut Vec<char>, error: &SpillError)
    ensures
        final(out)@ == old(out)@ + failure_notice(*error),
{
    push_str(out, SPILL_FAILURE_NOTICE_PREFIX);
    error.push_text(out);
    push_str(out, SPILL_FAILURE_NOTICE_SUFFIX);
    assert(final(out)@ =~= old(out)@ + failure_notice(*error));
}

fn dec_chars(n: usize) -> (r: Vec<char>)
    ensures
        r@ == dec(n as nat),
{
    let mut v: Vec<char> = Vec::new();
    push_dec(&mut v, n);
    assert(v@ =~= dec(n as nat));
    v
}

/// Configuration policy for middle-out string truncation.
#[derive(Clone)]
pub struct TruncationPolicy {
    /// Maximum allowed bytes in the truncated output.
    pub max_bytes: usize,
    /// Ratio of available content budget assigned to the head portion.
    pub head_ratio: HeadRatio,
    /// Alignment boundary strategy.
    pub alignment: TruncationAlignment,
    /// Optional custom marker template.
    pub marker_template: Option<String>,
    /// Optional spill sink for retaining full un-truncated observations.
    pub spill_sink: Option<Arc<dyn OutputSpillSink + 'static>>,
}

impl TruncationPolicy {
    /// The marker for the given metadata under this policy.
    pub open spec fn marker(
        &self,
        omitted: nat,
        original: nat,
        start: nat,
        end: nat,
        spill: SpillDisposition,
    ) -> Seq<char> {
        marker_text(self.marker_template, omitted, original, start, end, spill)
    }

    /// Create a policy with a `max_bytes` ceiling, balanced 50/50 head-tail
    /// ratio, character boundary alignment, no custom marker and no sink.
    pub fn new(max_bytes: usize) -> (r: Self)
        ensures
            r.max_bytes == max_bytes,
            r.head_ratio.num() == 1 && r.head_ratio.den() == 2,
            r.alignment == TruncationAlignment::CharBoundary,
            r.marker_template is None,
            r.spill_sink is None,
    {
        TruncationPolicy {
            max_bytes,
            head_ratio: HeadRatio::balanced(),
            alignment: TruncationAlignment::CharBoundary,
            marker_template: None,
            spill_sink: None,
        }
    }

    /// Set the head budget ratio.
    pub fn with_head_ratio(self, ratio: HeadRatio) -> (r: Self)
        ensures
            r.head_ratio == ratio,
            r.max_bytes == self.max_bytes,
            r.alignment == self.alignment,
            r.marker_template == self.marker_template,
            r.spill_sink == self.spill_sink,
    {
        TruncationPolicy { head_ratio: ratio, ..self }
    }

    /// Set the boundary alignment strategy.
    pub fn with_alignment(self, alignment: TruncationAlignment) -> (r: Self)
        ensures
            r.alignment == alignment,
            r.max_bytes == self.max_bytes,
            r.head_ratio == self.head_ratio,
            r.marker_template == self.marker_template,
            r.spill_sink == self.spill_sink,
    {
        TruncationPolicy { alignment, ..self }
    }

    /// Set a custom marker template; see [`marker_text`] for the substitutions.
    pub fn with_marker(self, marker: &str) -> (r: Self)
        ensures
            r.marker_template matches Some(t) && t@ == marker@,
            r.max_bytes == self.max_bytes,
            r.head_ratio == self.head_ratio,
            r.alignment == self.alignment,
            r.spill_sink == self.spill_sink,
    {
        TruncationPolicy { marker_template: Some(String::from_str(marker)), ..self }
    }

    /// Set a spill sink for retaining un-truncated observations.
    pub fn with_spill_sink(self, sink: Arc<dyn OutputSpillSink + 'static>) -> (r: Self)
        ensures
            r.spill_sink == Some(sink),
            r.max_bytes == self.max_bytes,
            r.head_ratio == self.head_ratio,
            r.alignment == self.alignment,
            r.marker_template == self.marker_template,
    {
        let wrapped = Option::Some(sink);
        TruncationPolicy {
            max_bytes: self.max_bytes,
            head_ratio: self.head_ratio,
            alignment: self.alignment,
            marker_template: self.marker_template,
            spill_sink: wrapped,
        }
    }

    fn push_default_prefix(out: &mut Vec<char>, omitted: usize, original: usize, start: usize, end: usize)
        ensures
            final(out)@ == old(out)@ + ("\n[... "@ + dec(omitted as nat) + " bytes omitted (bytes "@
                + dec(start as nat) + ".."@ + dec(end as nat) + " of "@ + dec(original as nat)),
    {
        push_str(out, "\n[... ");
        push_dec(out, omitted);
        push_str(out, " bytes omitted (bytes ");
        push_dec(out, start);
        push_str(out, "..");
        push_dec(out, end);
        push_str(out, " of ");
        push_dec(out, original);
        assert(final(out)@ =~= old(out)@ + ("\n[... "@ + dec(omitted as nat) + " bytes omitted (bytes "@
            + dec(start as nat) + ".."@ + dec(end as nat) + " of "@ + dec(original as nat)));
    }

    fn substitute(t: &String, omitted: usize, original: usize, start: usize, end: usize, spill: &SpillDisposition) -> (r: Vec<char>)
        ensures
            r@ == substituted_template(t@, omitted as nat, original as nat, start as nat, end as nat, *spill),
    {
        let os = dec_chars(omitted);
        let tc = chars_of(t.as_str());
        let r1 = replace_chars(&tc, &chars_of(TOKEN_OMITTED_BYTES), &os);
        let r2 = replace_chars(&r1, &chars_of(TOKEN_ORIGINAL_BYTES), &dec_chars(original));
        let r3 = replace_chars(&r2, &chars_of(TOKEN_OFFSET_START), &dec_chars(start));
        let r4 = replace_chars(&r3, &chars_of(TOKEN_OFFSET_END), &dec_chars(end));
        let rt = match spill {
            SpillDisposition::Spilled(h) => chars_of(h.as_str()),
            _ => Vec::new(),
        };
        assert(rt@ =~= ref_text(*spill));
        let r5 = replace_chars(&r4, &chars_of(TOKEN_SPILL_REF), &rt);
        let r6 = replace_chars(&r5, &chars_of(DEPRECATED_COUNT), &os);
        let r7 = replace_chars(&r6, &chars_of(DEPRECATED_BYTES), &os);
        replace_chars(&r7, &chars_of(DEPRECATED_N), &os)
    }

    /// The marker for the given metadata, as characters.
    fn marker_chars(&self, omitted: usize, original: usize, start: usize, end: usize, spill: &SpillDisposition) -> (r: Vec<char>)
        ensures
            r@ == self.marker(omitted as nat, original as nat, start as nat, end as nat, *spill),
    {
        match &self.marker_template {
            Some(template) => {
                let mut m = Self::substitute(template, omitted, original, start, end, spill);
                match spill {
                    SpillDisposition::Failed(e) => {
                        push_notice(&mut m, e);
                    },
                    _ => {},
                }
                m
            },
            None => {
                let mut m: Vec<char> = Vec::new();
                match spill {
                    SpillDisposition::Spilled(handle) => {
                        Self::push_default_prefix(&mut m, omitted, original, start, end);
                        push_str(&mut m, "). Full output retained as ref=\"");
                        push_str(&mut m, handle.as_str());
                        push_str(&mut m, "\" \u{2014} recall with read_observation. ...]\n");
                    },
                    SpillDisposition::Failed(e) => {
                        Self::push_default_prefix(&mut m, omitted, original, start, end);
                        push_str(&mut m, ").");
                        push_notice(&mut m, e);
                        push_str(&mut m, " ...]\n");
                    },
                    SpillDisposition::NotConfigured => {
                        push_str(&mut m, "\n[... ");
                        push_dec(&mut m, omitted);
                        push_str(&mut m, " bytes truncated ...]\n");
                    },
                }
                assert(m@ =~= self.marker(omitted as nat, original as nat, start as nat, end as nat, *spill));
                m
            },
        }
    }

    /// Format the marker for the given omitted byte count, without spill
    /// reference: offsets `0..omitted_bytes` of `omitted_bytes` bytes.
    pub fn format_marker(&self, omitted_bytes: usize) -> (r: String)
        ensures
            r@ == self.marker(
                omitted_bytes as nat,
                omitted_bytes as nat,
                0,
                omitted_bytes as nat,
                SpillDisposition::NotConfigured,
            ),
    {
        self.format_marker_detailed(
            omitted_bytes,
            omitted_bytes,
            0,
            omitted_bytes,
            &SpillDisposition::NotConfigured,
        )
    }

    /// Format the marker with full metadata substitutions including offsets
    /// and spill disposition.
    pub fn format_marker_detailed(
        &self,
        omitted_bytes: usize,
        original_bytes: usize,
        offset_start: usize,
        offset_end: usize,
        spill: &SpillDisposition,
    ) -> (r: String)
        ensures
            r@ == self.marker(
                omitted_bytes as nat,
                original_bytes as nat,
                offset_start as nat,
                offset_end as nat,
                *spill,
            ),
    {
        string_from_chars(self.marker_chars(omitted_bytes, original_bytes, offset_start, offset_end, spill))
    }
}


/// `floor_boundary` is a boundary of valid UTF-8 at most `i` and within the input.
pub proof fn lemma_floor(b: Seq<u8>, i: nat)
    requires
        valid_utf8(b),
    ensures
        floor_boundary(b, i) <= i,
        floor_boundary(b, i) <= b.len(),
        is_char_boundary(b, floor_boundary(b, i) as int),
    decreases i,
{
    lemma_boundary_ends(b);
    if i == 0 || is_char_boundary(b, i as int) {
    } else {
        lemma_floor(b, (i - 1) as nat);
    }
}

/// `ceil_boundary` is at least `i`, and for `i <= len` a boundary no larger than `len`.
pub proof fn lemma_ceil(b: Seq<u8>, i: nat)
    requires
        valid_utf8(b),
    ensures
        i <= ceil_boundary(b, i),
        i <= b.len() ==> ceil_boundary(b, i) <= b.len() && is_char_boundary(b, ceil_boundary(b, i) as int),
    decreases b.len() - i,
{
    lemma_boundary_ends(b);
    if i >= b.len() || is_char_boundary(b, i as int) {
    } else {
        lemma_ceil(b, i + 1);
    }
}

/// A found newline lies inside the scanned window.
pub proof fn lemma_last_newline(b: Seq<u8>, lo: nat, hi: nat)
    ensures
        last_newline(b, lo, hi) matches Some(r) ==> lo <= r < hi && r < b.len() && b[r as int] == 10,
    decreases hi,
{
    if hi <= lo || hi > b.len() {
    } else if b[hi - 1] == 10 {
    } else {
        lemma_last_newline(b, lo, (hi - 1) as nat);
    }
}

/// A found newline lies inside the scanned window.
pub proof fn lemma_first_newline(b: Seq<u8>, lo: nat, hi: nat)
    ensures
        first_newline(b, lo, hi) matches Some(r) ==> lo <= r < hi && r < b.len() && b[r as int] == 10,
    decreases hi - lo,
{
    if lo >= hi || hi > b.len() {
    } else if b[lo as int] == 10 {
    } else {
        lemma_first_newline(b, lo + 1, hi);
    }
}

fn floor_char_boundary(s: &str, i: usize) -> (r: usize)
    ensures
        r == floor_boundary(s.spec_bytes(), i as nat),
{
    let mut j = i;
    while j > 0 && !s.is_char_boundary(j)
        invariant
            floor_boundary(s.spec_bytes(), j as nat) == floor_boundary(s.spec_bytes(), i as nat),
        decreases j,
    {
        j = j - 1;
    }
    j
}

fn ceil_char_boundary(s: &str, i: usize) -> (r: usize)
    ensures
        r == ceil_boundary(s.spec_bytes(), i as nat),
{
    let n = s.as_bytes().len();
    let mut j = i;
    while j < n && !s.is_char_boundary(j)
        invariant
            n == s.spec_bytes().len(),
            ceil_boundary(s.spec_bytes(), j as nat) == ceil_boundary(s.spec_bytes(), i as nat),
        decreases n - j,
    {
        j = j + 1;
    }
    j
}

fn last_newline_in(b: &[u8], lo: usize, hi: usize) -> (r: Option<usize>)
    requires
        hi <= b@.len(),
    ensures
        match r {
            Some(x) => last_newline(b@, lo as nat, hi as nat) == Some(x as nat),
            None => last_newline(b@, lo as nat, hi as nat) is None,
        },
{
    let mut k = hi;
    while k > lo
        invariant
            k <= hi <= b@.len(),
            last_newline(b@, lo as nat, hi as nat) == last_newline(b@, lo as nat, k as nat),
        decreases k,
    {
        if b[k - 1] == 10 {
            return Some(k - 1);
        }
        k = k - 1;
    }
    None
}

fn first_newline_in(b: &[u8], lo: usize, hi: usize) -> (r: Option<usize>)
    requires
        hi <= b@.len(),
    ensures
        match r {
            Some(x) => first_newline(b@, lo as nat, hi as nat) == Some(x as nat),
            None => first_newline(b@, lo as nat, hi as nat) is None,
        },
{
    let mut k = lo;
    while k < hi
        invariant
            hi <= b@.len(),
            lo <= k,
            first_newline(b@, lo as nat, hi as nat) == first_newline(b@, k as nat, hi as nat),
        decreases hi - k,
    {
        if b[k] == 10 {
            return Some(k);
        }
        k = k + 1;
    }
    None
}

/// Whether `r` carries the same handle as a spilled disposition (and nothing otherwise).
pub open spec fn same_ref(r: Option<SpillRef>, spill: SpillDisposition) -> bool {
    match spill {
        SpillDisposition::Spilled(h) => r matches Some(x) && x.text() == h.text(),
        _ => r is None,
    }
}

fn copy_spill_ref(spill: &SpillDisposition) -> (r: Option<SpillRef>)
    ensures
        same_ref(r, *spill),
{
    match spill {
        SpillDisposition::Spilled(h) => Some(SpillRef::new(h.as_str())),
        _ => None,
    }
}

/// Whether outcome `o` of truncating input bytes `b` is the modelled result `res`
/// with the handle of `spill`.
pub open spec fn outcome_is(o: TruncationOutcome, b: Seq<u8>, res: (Seq<u8>, Option<(nat, nat)>), spill: SpillDisposition) -> bool {
    &&& utf8(o.text@) == res.0
    &&& o.original_len == b.len()
    &&& match res.1 {
        Some((h, t)) => o.omitted matches Some(range) && range.start == h && range.end == t,
        None => o.omitted is None,
    }
    &&& same_ref(o.spill_ref, spill)
}

/// Whether `o` returns the input unchanged (nothing omitted, nothing spilled).
pub open spec fn is_passthrough(o: TruncationOutcome, input: &str) -> bool {
    &&& o.text == Cow::<str>::Borrowed(input)
    &&& o.original_len == input.spec_bytes().len()
    &&& o.omitted is None
    &&& o.spill_ref is None
}

impl TruncationPolicy {
    fn initial_boundaries(&self, input: &str, total_bytes: usize, content_budget: usize) -> (r: (usize, usize))
        requires
            total_bytes == input.spec_bytes().len(),
        ensures
            r.0 == initial_head(*self, input.spec_bytes(), content_budget as nat),
            r.1 == initial_tail(*self, input.spec_bytes(), content_budget as nat),
    {
        let ghost b = input.spec_bytes();
        let head_budget = self.head_ratio.compute_head_budget(content_budget);
        let tail_budget = content_budget.saturating_sub(head_budget);
        let mut head_end = floor_char_boundary(input, if head_budget < total_bytes { head_budget } else { total_bytes });
        let tail_target = total_bytes.saturating_sub(tail_budget);
        let mut tail_start = ceil_char_boundary(input, tail_target);
        assert(head_end == raw_head(*self, b, content_budget as nat));
        assert(tail_start == raw_tail(*self, b, content_budget as nat));
        proof {
            lemma_chars_of_bytes(input@);
            lemma_floor(b, min_nat(head_budget as nat, total_bytes as nat));
            lemma_ceil(b, tail_target as nat);
        }
        if self.alignment == TruncationAlignment::LineBoundary {
            let bytes = input.as_bytes();
            let head_scan_start = head_end.saturating_sub(MAX_LINE_SCAN_WINDOW);
            match last_newline_in(bytes, head_scan_start, head_end) {
                Some(nl) => {
                    proof { lemma_last_newline(b, head_scan_start as nat, head_end as nat); }
                    head_end = nl + 1;
                },
                None => {},
            }
            let tail_scan = tail_start.saturating_add(MAX_LINE_SCAN_WINDOW);
            let tail_scan_end = if tail_scan < total_bytes { tail_scan } else { total_bytes };
            assert(tail_scan_end == min_nat(tail_start as nat + window(), b.len()));
            match first_newline_in(bytes, tail_start, tail_scan_end) {
                Some(nl) => {
                    proof { lemma_first_newline(b, tail_start as nat, tail_scan_end as nat); }
                    tail_start = nl + 1;
                },
                None => {},
            }
        }
        (head_end, tail_start)
    }

    fn shrink_head_boundary(&self, input: &str, head_end: usize) -> (r: usize)
        requires
            head_end <= input.spec_bytes().len(),
        ensures
            r == shrink_head(*self, input.spec_bytes(), head_end as nat),
    {
        if self.alignment == TruncationAlignment::LineBoundary {
            let scan_start = head_end.saturating_sub(MAX_LINE_SCAN_WINDOW);
            match last_newline_in(input.as_bytes(), scan_start, head_end.saturating_sub(1)) {
                Some(nl) => {
                    proof { lemma_last_newline(input.spec_bytes(), scan_start as nat, sat_sub(head_end as nat, 1)); }
                    return nl + 1;
                },
                None => {},
            }
        }
        floor_char_boundary(input, head_end.saturating_sub(1))
    }

    fn expand_tail_boundary(&self, input: &str, total_bytes: usize, tail_start: usize) -> (r: usize)
        requires
            total_bytes == input.spec_bytes().len(),
            tail_start < total_bytes,
        ensures
            r == expand_tail(*self, input.spec_bytes(), tail_start as nat),
    {
        if self.alignment == TruncationAlignment::LineBoundary {
            let scan_start = tail_start + 1;
            let scan = tail_start.saturating_add(MAX_LINE_SCAN_WINDOW);
            let scan_end = if scan < total_bytes { scan } else { total_bytes };
            assert(scan_end == min_nat(tail_start as nat + window(), input.spec_bytes().len()));
            if scan_start < scan_end {
                match first_newline_in(input.as_bytes(), scan_start, scan_end) {
                    Some(nl) => {
                        proof { lemma_first_newline(input.spec_bytes(), scan_start as nat, scan_end as nat); }
                        return nl + 1;
                    },
                    None => {},
                }
            }
        }
        ceil_char_boundary(input, tail_start + 1)
    }
}


/// A shrink step moves the head cut strictly back onto a boundary.
pub proof fn lemma_shrink(p: TruncationPolicy, b: Seq<u8>, h: nat)
    requires
        valid_utf8(b),
        0 < h <= b.len(),
    ensures
        shrink_head(p, b, h) < h,
        is_char_boundary(b, shrink_head(p, b, h) as int),
{
    lemma_floor(b, sat_sub(h, 1));
    lemma_last_newline(b, sat_sub(h, window()), sat_sub(h, 1));
    if is_line(p) {
        match last_newline(b, sat_sub(h, window()), sat_sub(h, 1)) {
            Some(r) => {
                lemma_boundary_after_ascii(b, r as int);
            },
            None => {},
        }
    }
}

/// An expand step moves the tail cut strictly forward onto a boundary within the input.
pub proof fn lemma_expand(p: TruncationPolicy, b: Seq<u8>, t: nat)
    requires
        valid_utf8(b),
        t < b.len(),
    ensures
        t < expand_tail(p, b, t) <= b.len(),
        is_char_boundary(b, expand_tail(p, b, t) as int),
{
    lemma_ceil(b, t + 1);
    let ss = min_nat(t + 1, b.len());
    let se = min_nat(t + window(), b.len());
    lemma_first_newline(b, ss, se);
    if is_line(p) && ss < se {
        match first_newline(b, ss, se) {
            Some(r) => {
                lemma_boundary_after_ascii(b, r as int);
            },
            None => {},
        }
    }
}

/// The initial cuts are boundaries with the head strictly before the tail.
pub proof fn lemma_initial(p: TruncationPolicy, b: Seq<u8>, budget: nat)
    requires
        valid_utf8(b),
        budget < b.len(),
    ensures
        initial_head(p, b, budget) < initial_tail(p, b, budget) <= b.len(),
        is_char_boundary(b, initial_head(p, b, budget) as int),
        is_char_boundary(b, initial_tail(p, b, budget) as int),
{
    let hb = head_budget(p.head_ratio, budget);
    assert(hb <= budget) by {
        if p.head_ratio.den() != 0 {
        }
    }
    let tb = sat_sub(budget, hb);
    lemma_floor(b, min_nat(hb, b.len()));
    lemma_ceil(b, sat_sub(b.len(), tb));
    let h = raw_head(p, b, budget);
    let t = raw_tail(p, b, budget);
    lemma_last_newline(b, sat_sub(h, window()), h);
    lemma_first_newline(b, t, min_nat(t + window(), b.len()));
    if is_line(p) {
        match last_newline(b, sat_sub(h, window()), h) {
            Some(r) => {
                lemma_boundary_after_ascii(b, r as int);
            },
            None => {},
        }
        match first_newline(b, t, min_nat(t + window(), b.len())) {
            Some(r) => {
                lemma_boundary_after_ascii(b, r as int);
            },
            None => {},
        }
    }
}

/// The converged cuts stay ordered boundaries within the input.
pub proof fn lemma_converge(p: TruncationPolicy, b: Seq<u8>, h: nat, t: nat, spill: SpillDisposition)
    requires
        valid_utf8(b),
        h <= t <= b.len(),
        is_char_boundary(b, h as int),
        is_char_boundary(b, t as int),
    ensures
        converge(p, b, h, t, spill).0 <= converge(p, b, h, t, spill).1 <= b.len(),
        converge(p, b, h, t, spill).0 <= h,
        t <= converge(p, b, h, t, spill).1,
        is_char_boundary(b, converge(p, b, h, t, spill).0 as int),
        is_char_boundary(b, converge(p, b, h, t, spill).1 as int),
    decreases h + b.len() - t,
{
    if keeps_going(p, b, h, t, spill) {
        if moves_head(b, h, t) {
            lemma_shrink(p, b, h);
            lemma_converge(p, b, shrink_head(p, b, h), t, spill);
        } else if t < b.len() {
            lemma_expand(p, b, t);
            lemma_converge(p, b, h, expand_tail(p, b, t), spill);
        }
    }
}

impl TruncationPolicy {
    fn total_of(&self, head_end: usize, marker: &String, rest: usize) -> (r: usize)
        requires
            head_end + rest <= usize::MAX,
        ensures
            r == if head_end + utf8(marker@).len() + rest > usize::MAX {
                usize::MAX as int
            } else {
                head_end + utf8(marker@).len() + rest
            },
    {
        let ml = marker.as_str().as_bytes().len();
        let base = head_end + rest;
        base.saturating_add(ml)
    }

    fn converge_boundaries(
        &self,
        input: &str,
        total_bytes: usize,
        head_end: usize,
        tail_start: usize,
        spill: &SpillDisposition,
    ) -> (r: (usize, usize, String))
        requires
            total_bytes == input.spec_bytes().len(),
            self.max_bytes < total_bytes,
            head_end <= tail_start <= total_bytes,
            is_char_boundary(input.spec_bytes(), head_end as int),
            is_char_boundary(input.spec_bytes(), tail_start as int),
        ensures
            (r.0 as nat, r.1 as nat) == converge(*self, input.spec_bytes(), head_end as nat, tail_start as nat, *spill),
            r.2@ == self.marker(sat_sub(r.1 as nat, r.0 as nat), total_bytes as nat, r.0 as nat, r.1 as nat, *spill),
    {
        let ghost b = input.spec_bytes();
        proof {
            lemma_chars_of_bytes(input@);
        }
        let mut h = head_end;
        let mut t = tail_start;
        let mut marker = self.format_marker_detailed(t - h, total_bytes, h, t, spill);
        let mut total = self.total_of(h, &marker, total_bytes - t);
        while total > self.max_bytes && (h > 0 || t < total_bytes)
            invariant
                b == input.spec_bytes(),
                valid_utf8(b),
                total_bytes == b.len(),
                self.max_bytes < total_bytes,
                h <= t <= total_bytes,
                is_char_boundary(b, h as int),
                is_char_boundary(b, t as int),
                converge(*self, b, h as nat, t as nat, *spill) == converge(*self, b, head_end as nat, tail_start as nat, *spill),
                marker@ == self.marker(sat_sub(t as nat, h as nat), total_bytes as nat, h as nat, t as nat, *spill),
                (total > self.max_bytes) == (total_len(*self, b, h as nat, t as nat, *spill) > self.max_bytes),
            decreases h + total_bytes - t,
        {
            assert(keeps_going(*self, b, h as nat, t as nat, *spill));
            if h > 0 && (t == total_bytes || h >= total_bytes - t) {
                proof {
                    lemma_shrink(*self, b, h as nat);
                }
                h = self.shrink_head_boundary(input, h);
            } else {
                proof {
                    lemma_expand(*self, b, t as nat);
                }
                t = self.expand_tail_boundary(input, total_bytes, t);
            }
            marker = self.format_marker_detailed(t - h, total_bytes, h, t, spill);
            total = self.total_of(h, &marker, total_bytes - t);
        }
        (h, t, marker)
    }

    fn fallback_marker_string(spill: &SpillDisposition, max_bytes: usize) -> (r: String)
        ensures
            r@ == fallback_marker(*spill, max_bytes as nat),
    {
        match spill {
            SpillDisposition::Spilled(handle) => {
                let mut v: Vec<char> = Vec::new();
                push_str(&mut v, "\n[...truncated; ref=\"");
                push_str(&mut v, handle.as_str());
                push_str(&mut v, "\"...]\n");
                let with_ref = string_from_chars(v);
                assert(with_ref@ =~= "\n[...truncated; ref=\""@ + handle.text() + "\"...]\n"@);
                if with_ref.as_str().as_bytes().len() <= max_bytes {
                    return with_ref;
                }
                String::from_str(MINIMAL_TRUNCATION_MARKER)
            },
            SpillDisposition::Failed(_) => String::from_str(MINIMAL_TRUNCATION_MARKER_SPILL_FAILED),
            SpillDisposition::NotConfigured => String::from_str(MINIMAL_TRUNCATION_MARKER),
        }
    }

    fn truncate_with_fallback_marker<'a>(
        &self,
        input: &'a str,
        spill: &SpillDisposition,
    ) -> (r: TruncationOutcome<'a>)
        ensures
            outcome_is(r, input.spec_bytes(), fallback_result(*self, input.spec_bytes(), *spill), *spill),
    {
        let total_bytes = input.as_bytes().len();
        let marker = Self::fallback_marker_string(spill, self.max_bytes);
        let mlen = marker.as_str().as_bytes().len();
        proof {
            lemma_chars_of_bytes(input@);
            lemma_chars_of_bytes(marker@);
        }
        if mlen >= self.max_bytes {
            let ms = marker.as_str();
            let cut = floor_char_boundary(ms, self.max_bytes);
            proof {
                lemma_floor(ms.spec_bytes(), self.max_bytes as nat);
            }
            let (pre, _) = ms.split_at(cut);
            return TruncationOutcome {
                text: Cow::Owned(pre.to_owned()),
                original_len: total_bytes,
                omitted: Some(core::ops::Range { start: 0, end: total_bytes }),
                spill_ref: copy_spill_ref(spill),
            };
        }
        let head_end = floor_char_boundary(input, self.max_bytes - mlen);
        proof {
            lemma_floor(input.spec_bytes(), (self.max_bytes - mlen) as nat);
        }
        let (head, _) = input.split_at(head_end);
        let mut v: Vec<char> = Vec::new();
        push_str(&mut v, head);
        push_str(&mut v, marker.as_str());
        let text = string_from_chars(v);
        proof {
            lemma_utf8_concat(head@, marker@);
            lemma_chars_of_bytes(head@);
        }
        TruncationOutcome {
            text: Cow::Owned(text),
            original_len: total_bytes,
            omitted: Some(core::ops::Range { start: head_end, end: total_bytes }),
            spill_ref: copy_spill_ref(spill),
        }
    }

    /// Middle-out elision of `input`, already known to exceed `max_bytes`,
    /// with the spill attempt already resolved to `spill`.
    pub fn truncate_oversized<'a>(&self, input: &'a str, spill: &SpillDisposition) -> (r: TruncationOutcome<'a>)
        requires
            self.max_bytes < input.spec_bytes().len(),
            oversized_ok(*self, input.spec_bytes(), *spill),
        ensures
            outcome_is(r, input.spec_bytes(), oversized_result(*self, input.spec_bytes(), *spill), *spill),
    {
        let ghost b = input.spec_bytes();
        let total_bytes = input.as_bytes().len();
        proof {
            lemma_chars_of_bytes(input@);
        }
        if self.max_bytes == 0 {
            let empty = "";
            proof {
                reveal_strlit("");
            }
            assert(utf8(empty@) =~= Seq::<u8>::empty());
            return TruncationOutcome {
                text: Cow::Borrowed(empty),
                original_len: total_bytes,
                omitted: Some(core::ops::Range { start: 0, end: total_bytes }),
                spill_ref: copy_spill_ref(spill),
            };
        }
        let est_omitted = total_bytes.saturating_sub(self.max_bytes);
        let sample_marker = self.format_marker_detailed(est_omitted, total_bytes, 0, est_omitted, spill);
        let marker_len = sample_marker.as_str().as_bytes().len();
        assert(marker_len == sample_marker_len(*self, b, *spill));
        if self.max_bytes <= marker_len {
            return self.truncate_with_fallback_marker(input, spill);
        }
        let budget = self.max_bytes - marker_len;
        assert(budget == content_budget(*self, b, *spill));
        let (head_end, tail_start) = self.initial_boundaries(input, total_bytes, budget);
        proof {
            lemma_initial(*self, b, budget as nat);
        }
        if head_end >= tail_start {
            return TruncationOutcome {
                text: Cow::Borrowed(input),
                original_len: total_bytes,
                omitted: None,
                spill_ref: copy_spill_ref(spill),
            };
        }
        let (h, t, marker) = self.converge_boundaries(input, total_bytes, head_end, tail_start, spill);
        proof {
            lemma_converge(*self, b, head_end as nat, tail_start as nat, *spill);
        }
        let (head, _) = input.split_at(h);
        let (_, tail) = input.split_at(t);
        let mut v: Vec<char> = Vec::new();
        push_str(&mut v, head);
        push_str(&mut v, marker.as_str());
        push_str(&mut v, tail);
        let output = string_from_chars(v);
        let os = output.as_str();
        proof {
            lemma_utf8_concat(head@ + marker@, tail@);
            lemma_utf8_concat(head@, marker@);
            lemma_chars_of_bytes(head@);
            lemma_chars_of_bytes(tail@);
            lemma_chars_of_bytes(os@);
            assert(os@ =~= head@ + marker@ + tail@);
            assert(os.spec_bytes() =~= b.subrange(0, h as int) + utf8(self.marker(sat_sub(t as nat, h as nat), total_bytes as nat, h as nat, t as nat, *spill)) + b.subrange(t as int, total_bytes as int));
        }
        let text = if os.as_bytes().len() > self.max_bytes {
            let cut = floor_char_boundary(os, self.max_bytes);
            proof {
                lemma_floor(os.spec_bytes(), self.max_bytes as nat);
            }
            let (pre, _) = os.split_at(cut);
            pre.to_owned()
        } else {
            output
        };
        TruncationOutcome {
            text: Cow::Owned(text),
            original_len: total_bytes,
            omitted: Some(core::ops::Range { start: h, end: t }),
            spill_ref: copy_spill_ref(spill),
        }
    }
}

/// Whether disposition `d` can come out of resolving the spill under `p`:
/// `NotConfigured` exactly when no sink is set.
pub open spec fn spill_possible(p: TruncationPolicy, d: SpillDisposition) -> bool {
    match p.spill_sink {
        None => d is NotConfigured,
        Some(_) => !(d is NotConfigured),
    }
}

/// Whether disposition `d` is what resolving the spill of `full` under `p`
/// can give, for the tool `tool` with the tag `tag`: `NotConfigured` exactly
/// when no sink is set, otherwise the handle or the error of an answer the
/// sink may give for that content.
pub open spec fn spill_answer(p: TruncationPolicy, tool: Seq<char>, tag: Option<Seq<char>>, full: Seq<char>, d: SpillDisposition) -> bool {
    match p.spill_sink {
        None => d is NotConfigured,
        Some(s) => match d {
            SpillDisposition::Spilled(h) => s.spilled(tool, tag, full, Ok(h)),
            SpillDisposition::Failed(e) => s.spilled(tool, tag, full, Err(e)),
            SpillDisposition::NotConfigured => false,
        },
    }
}

/// Whether truncating `b` under `p` slices only on character boundaries,
/// whatever the configured sink answers.
pub open spec fn truncation_safe(p: TruncationPolicy, b: Seq<u8>) -> bool {
    forall|d: SpillDisposition| spill_possible(p, d) ==> #[trigger] oversized_ok(p, b, d)
}

impl TruncationPolicy {
    /// The untouched input when it already fits within `max_bytes`.
    ///
    /// Checked before any spill is attempted: content that is not truncated
    /// loses nothing, so it must not consume observation-store capacity.
    fn passthrough<'a>(input: &'a str, max_bytes: usize) -> (r: Option<TruncationOutcome<'a>>)
        ensures
            r is Some <==> input.spec_bytes().len() <= max_bytes,
            r matches Some(o) ==> is_passthrough(o, input),
    {
        let total_bytes = input.as_bytes().len();
        if total_bytes <= max_bytes {
            Some(TruncationOutcome { text: Cow::Borrowed(input), original_len: total_bytes, omitted: None, spill_ref: None })
        } else {
            None
        }
    }

    /// Attempt to retain the full output with the configured sink, classifying the result.
    fn resolve_spill(&self, ctx: &SpillContext<'_>, input: &str) -> (r: SpillDisposition)
        ensures
            spill_possible(*self, r),
            spill_answer(*self, ctx.tool_name@, tag_of(*ctx), input@, r),
    {
        match &self.spill_sink {
            Some(sink) => match sink.spill(ctx, input) {
                Ok(handle) => SpillDisposition::Spilled(handle),
                Err(error) => SpillDisposition::Failed(error),
            },
            None => SpillDisposition::NotConfigured,
        }
    }

    /// Truncate `input`, returning the borrowed input when it fits and an
    /// owned middle-out elision otherwise. A failing sink does not fail the
    /// call: the failure is rendered into the marker.
    pub fn truncate<'a>(&self, input: &'a str) -> (r: Cow<'a, str>)
        requires
            truncation_safe(*self, input.spec_bytes()),
        ensures
            input.spec_bytes().len() <= self.max_bytes ==> r == Cow::<str>::Borrowed(input),
            input.spec_bytes().len() > self.max_bytes ==> exists|d: SpillDisposition|
                spill_answer(*self, "anonymous"@, None, input@, d) && utf8(r@) == #[trigger] oversized_result(*self, input.spec_bytes(), d).0,
    {
        let ctx = SpillContext::anonymous();
        let o = self.truncate_lossy_with_context(input, &ctx);
        o.text
    }

    /// Infallible truncation that degrades visibly, rather than failing, when
    /// the configured sink returns an error.
    pub fn truncate_lossy_with_context<'a>(&self, input: &'a str, ctx: &SpillContext<'_>) -> (r: TruncationOutcome<'a>)
        requires
            truncation_safe(*self, input.spec_bytes()),
        ensures
            input.spec_bytes().len() <= self.max_bytes ==> is_passthrough(r, input),
            input.spec_bytes().len() > self.max_bytes ==> exists|d: SpillDisposition|
                spill_answer(*self, ctx.tool_name@, tag_of(*ctx), input@, d) && outcome_is(r, input.spec_bytes(), #[trigger] oversized_result(*self, input.spec_bytes(), d), d),
    {
        match Self::passthrough(input, self.max_bytes) {
            Some(outcome) => outcome,
            None => {
                let spill = self.resolve_spill(ctx, input);
                assert(oversized_ok(*self, input.spec_bytes(), spill));
                self.truncate_oversized(input, &spill)
            },
        }
    }

    /// Truncate `input` with an anonymous spill context, returning the detailed outcome.
    pub fn truncate_detailed<'a>(&self, input: &'a str) -> (r: Result<TruncationOutcome<'a>, SpillError>)
        requires
            truncation_safe(*self, input.spec_bytes()),
        ensures
            detailed_result(*self, "anonymous"@, None, input, r),
    {
        let ctx = SpillContext::anonymous();
        self.truncate_detailed_with_context(input, &ctx)
    }

    /// Truncate `input` with a caller-provided spill context, returning the
    /// detailed outcome, or the sink's error when a configured sink fails.
    pub fn truncate_detailed_with_context<'a>(&self, input: &'a str, ctx: &SpillContext<'_>) -> (r: Result<TruncationOutcome<'a>, SpillError>)
        requires
            truncation_safe(*self, input.spec_bytes()),
        ensures
            detailed_result(*self, ctx.tool_name@, tag_of(*ctx), input, r),
    {
        match Self::passthrough(input, self.max_bytes) {
            Some(outcome) => Ok(outcome),
            None => {
                let spill = self.resolve_spill(ctx, input);
                assert(oversized_ok(*self, input.spec_bytes(), spill));
                let ghost d = spill;
                let r = match spill {
                    SpillDisposition::Failed(error) => Err(error),
                    other => Ok(self.truncate_oversized(input, &other)),
                };
                assert(detailed_for(*self, input.spec_bytes(), d, r));
                r
            },
        }
    }
}

/// What the detailed truncation of `input` under `p` returns: the untouched
/// input when it fits; otherwise, for the disposition `d` the sink produced,
/// the sink's error when it failed and the modelled outcome when it did not.
pub open spec fn detailed_result<'a>(
    p: TruncationPolicy,
    tool: Seq<char>,
    tag: Option<Seq<char>>,
    input: &'a str,
    r: Result<TruncationOutcome<'a>, SpillError>,
) -> bool {
    if input.spec_bytes().len() <= p.max_bytes {
        r matches Ok(o) && is_passthrough(o, input)
    } else {
        exists|d: SpillDisposition| spill_answer(p, tool, tag, input@, d) && #[trigger] detailed_for(p, input.spec_bytes(), d, r)
    }
}

/// The detailed result for one resolved disposition `d`.
pub open spec fn detailed_for<'a>(p: TruncationPolicy, b: Seq<u8>, d: SpillDisposition, r: Result<TruncationOutcome<'a>, SpillError>) -> bool {
    match d {
        SpillDisposition::Failed(e) => r == Err::<TruncationOutcome<'a>, SpillError>(e),
        _ => r matches Ok(o) && outcome_is(o, b, oversized_result(p, b, d), d),
    }
}

/// Middle-out truncation of a string slice.
pub fn truncate_middle<'a>(input: &'a str, policy: &TruncationPolicy) -> (r: Cow<'a, str>)
    requires
        truncation_safe(*policy, input.spec_bytes()),
    ensures
        input.spec_bytes().len() <= policy.max_bytes ==> r == Cow::<str>::Borrowed(input),
        input.spec_bytes().len() > policy.max_bytes ==> exists|d: SpillDisposition|
            spill_answer(*policy, "anonymous"@, None, input@, d) && utf8(r@) == #[trigger] oversized_result(*policy, input.spec_bytes(), d).0,
{
    policy.truncate(input)
}

/// Detailed middle-out truncation returning metadata and recall handle.
pub fn truncate_middle_detailed<'a>(input: &'a str, policy: &TruncationPolicy) -> (r: Result<TruncationOutcome<'a>, SpillError>)
    requires
        truncation_safe(*policy, input.spec_bytes()),
    ensures
        detailed_result(*policy, "anonymous"@, None, input, r),
{
    policy.truncate_detailed(input)
}

/// Detailed middle-out truncation with a spill context.
pub fn truncate_middle_detailed_with_context<'a>(
    input: &'a str,
    policy: &TruncationPolicy,
    ctx: &SpillContext<'_>,
) -> (r: Result<TruncationOutcome<'a>, SpillError>)
    requires
        truncation_safe(*policy, input.spec_bytes()),
    ensures
        detailed_result(*policy, ctx.tool_name@, tag_of(*ctx), input, r),
{
    policy.truncate_detailed_with_context(input, ctx)
}

/// The owned text of a copy-on-write string.
fn cow_into_string(c: Cow<'_, str>) -> (r: String)
    ensures
        r@ == c@,
{
    match c {
        Cow::Borrowed(s) => String::from_str(s),
        Cow::Owned(s) => s,
    }
}

/// Truncate the content of `output` in place according to `policy`,
/// keeping its metadata.
pub fn truncate_output(output: &mut ToolOutput, policy: &TruncationPolicy)
    requires
        truncation_safe(*policy, utf8(old(output).text())),
    ensures
        final(output).meta() == old(output).meta(),
        final(output).wf() == old(output).wf(),
        utf8(old(output).text()).len() <= policy.max_bytes ==> final(output).text() == old(output).text(),
        utf8(old(output).text()).len() > policy.max_bytes ==> exists|d: SpillDisposition|
            spill_answer(*policy, "anonymous"@, None, old(output).text(), d) && utf8(final(output).text()) == #[trigger] oversized_result(*policy, utf8(old(output).text()), d).0,
{
    let text = cow_into_string(policy.truncate(output.content()));
    output.set_content(text);
}

/// What the detailed in-place truncation of a content `text` returns under
/// `p`, leaving the new content `after`: the unchanged content when it fits;
/// otherwise, for the disposition `d` the sink produced, the sink's error
/// (content unchanged) when it failed and the modelled outcome when it did not.
pub open spec fn detailed_in_place(
    p: TruncationPolicy,
    tool: Seq<char>,
    tag: Option<Seq<char>>,
    text: Seq<char>,
    after: Seq<char>,
    r: Result<TruncationOutcome<'static>, SpillError>,
) -> bool {
    let b = utf8(text);
    if b.len() <= p.max_bytes {
        &&& after == text
        &&& r matches Ok(o) && o.text@ == text && o.original_len == b.len() && o.omitted is None && o.spill_ref is None
    } else {
        exists|d: SpillDisposition| spill_answer(p, tool, tag, text, d) && #[trigger] detailed_for(p, b, d, r) && match d {
            SpillDisposition::Failed(_) => after == text,
            _ => utf8(after) == oversized_result(p, b, d).0,
        }
    }
}

/// Detailed in-place truncation of the content of `output` with an anonymous spill context.
pub fn truncate_output_detailed(output: &mut ToolOutput, policy: &TruncationPolicy) -> (r: Result<TruncationOutcome<'static>, SpillError>)
    requires
        truncation_safe(*policy, utf8(old(output).text())),
    ensures
        final(output).meta() == old(output).meta(),
        final(output).wf() == old(output).wf(),
        detailed_in_place(*policy, "anonymous"@, None, old(output).text(), final(output).text(), r),
{
    let ctx = SpillContext::anonymous();
    truncate_output_detailed_with_context(output, policy, &ctx)
}

/// Detailed in-place truncation of the content of `output` with a spill
/// context; on a sink failure the content is left unchanged.
pub fn truncate_output_detailed_with_context(
    output: &mut ToolOutput,
    policy: &TruncationPolicy,
    ctx: &SpillContext<'_>,
) -> (r: Result<TruncationOutcome<'static>, SpillError>)
    requires
        truncation_safe(*policy, utf8(old(output).text())),
    ensures
        final(output).meta() == old(output).meta(),
        final(output).wf() == old(output).wf(),
        detailed_in_place(*policy, ctx.tool_name@, tag_of(*ctx), old(output).text(), final(output).text(), r),
{
    let ghost before = output.text();
    let result = policy.truncate_detailed_with_context(output.content(), ctx);
    let ghost gr = result;
    match result {
        Err(e) => {
            let r: Result<TruncationOutcome<'static>, SpillError> = Err(e);
            proof {
                let d = choose|d: SpillDisposition| spill_answer(*policy, ctx.tool_name@, tag_of(*ctx), before, d) && #[trigger] detailed_for(*policy, utf8(before), d, gr);
                assert(detailed_for(*policy, utf8(before), d, r));
            }
            r
        },
        Ok(outcome) => {
            let ghost go = outcome;
            let text = cow_into_string(outcome.text);
            let original_len = outcome.original_len;
            let omitted = outcome.omitted;
            let spill_ref = outcome.spill_ref;
            output.set_content(String::from_str(text.as_str()));
            let r: Result<TruncationOutcome<'static>, SpillError> = Ok(TruncationOutcome {
                text: Cow::Owned(text),
                original_len,
                omitted,
                spill_ref,
            });
            proof {
                if utf8(before).len() > policy.max_bytes {
                    let d = choose|d: SpillDisposition| spill_answer(*policy, ctx.tool_name@, tag_of(*ctx), before, d) && #[trigger] detailed_for(*policy, utf8(before), d, gr);
                    assert(detailed_for(*policy, utf8(before), d, r));
                }
            }
            r
        },
    }
}

} // verus!
