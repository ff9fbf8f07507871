//! The mathematical model of middle-out truncation over UTF-8 bytes.
//!
//! Every step of the cut is a spec function of the policy, the input bytes
//! and the resolved spill disposition; the executable code in
//! [`crate::truncation::policy`] is proved equal to it. The `*_ok`
//! predicates say when the line-aligned scans only slice the input on
//! character boundaries (slicing elsewhere panics).
use vstd::prelude::*;
use vstd::utf8::*;
use crate::text::utf8;
use crate::truncation::alignment::{TruncationAlignment, MAX_LINE_SCAN_WINDOW};
use crate::truncation::policy::{TruncationPolicy, MINIMAL_TRUNCATION_MARKER, MINIMAL_TRUNCATION_MARKER_SPILL_FAILED};
use crate::truncation::ratio::head_budget;
use crate::truncation::sink::SpillDisposition;

verus! {

/// `a - b`, or 0 when `b > a`.
pub open spec fn sat_sub(a: nat, b: nat) -> nat {
    if a >= b {
        (a - b) as nat
    } else {
        0
    }
}

/// The smaller of two numbers.
pub open spec fn min_nat(a: nat, b: nat) -> nat {
    if a <= b {
        a
    } else {
        b
    }
}

/// The largest character boundary of `b` at or below `i` (or 0).
pub open spec fn floor_boundary(b: Seq<u8>, i: nat) -> nat
    decreases i,
{
    if i == 0 || is_char_boundary(b, i as int) {
        i
    } else {
        floor_boundary(b, (i - 1) as nat)
    }
}

/// The smallest character boundary of `b` at or above `i` (or `i` once past the end).
pub open spec fn ceil_boundary(b: Seq<u8>, i: nat) -> nat
    decreases b.len() - i,
{
    if i >= b.len() || is_char_boundary(b, i as int) {
        i
    } else {
        ceil_boundary(b, i + 1)
    }
}

/// The last index in `lo..hi` holding a newline byte.
pub open spec fn last_newline(b: Seq<u8>, lo: nat, hi: nat) -> Option<nat>
    decreases hi,
{
    if hi <= lo || hi > b.len() {
        None
    } else if b[hi - 1] == 10 {
        Some((hi - 1) as nat)
    } else {
        last_newline(b, lo, (hi - 1) as nat)
    }
}

/// The first index in `lo..hi` holding a newline byte.
pub open spec fn first_newline(b: Seq<u8>, lo: nat, hi: nat) -> Option<nat>
    decreases hi - lo,
{
    if lo >= hi || hi > b.len() {
        None
    } else if b[lo as int] == 10 {
        Some(lo)
    } else {
        first_newline(b, lo + 1, hi)
    }
}

/// Whether `b[lo..hi]` is a valid string slice.
pub open spec fn slice_ok(b: Seq<u8>, lo: nat, hi: nat) -> bool {
    lo <= hi && hi <= b.len() && is_char_boundary(b, lo as int) && is_char_boundary(b, hi as int)
}

/// Byte length of the marker for the given metadata.
pub open spec fn marker_len(
    p: TruncationPolicy,
    omitted: nat,
    original: nat,
    start: nat,
    end: nat,
    spill: SpillDisposition,
) -> nat {
    utf8(p.marker(omitted, original, start, end, spill)).len()
}

pub open spec fn is_line(p: TruncationPolicy) -> bool {
    p.alignment == TruncationAlignment::LineBoundary
}

pub open spec fn window() -> nat {
    MAX_LINE_SCAN_WINDOW as nat
}

/// Head cut before line alignment: the head share of the budget, floored to a boundary.
pub open spec fn raw_head(p: TruncationPolicy, b: Seq<u8>, budget: nat) -> nat {
    floor_boundary(b, min_nat(head_budget(p.head_ratio, budget), b.len()))
}

/// Tail cut before line alignment: the tail share of the budget, ceiled to a boundary.
pub open spec fn raw_tail(p: TruncationPolicy, b: Seq<u8>, budget: nat) -> nat {
    ceil_boundary(b, sat_sub(b.len(), sat_sub(budget, head_budget(p.head_ratio, budget))))
}

/// Initial head cut: snapped back to just after the last newline in the
/// preceding window under line alignment.
pub open spec fn initial_head(p: TruncationPolicy, b: Seq<u8>, budget: nat) -> nat {
    let h = raw_head(p, b, budget);
    if is_line(p) {
        match last_newline(b, sat_sub(h, window()), h) {
            Some(r) => r + 1,
            None => h,
        }
    } else {
        h
    }
}

/// Initial tail cut: snapped forward to just after the first newline in the
/// following window under line alignment.
pub open spec fn initial_tail(p: TruncationPolicy, b: Seq<u8>, budget: nat) -> nat {
    let t = raw_tail(p, b, budget);
    if is_line(p) {
        match first_newline(b, t, min_nat(t + window(), b.len())) {
            Some(r) => r + 1,
            None => t,
        }
    } else {
        t
    }
}

pub open spec fn initial_ok(p: TruncationPolicy, b: Seq<u8>, budget: nat) -> bool {
    let h = raw_head(p, b, budget);
    let t = raw_tail(p, b, budget);
    is_line(p) ==> slice_ok(b, sat_sub(h, window()), h) && slice_ok(
        b,
        t,
        min_nat(t + window(), b.len()),
    )
}

/// One step of moving the head cut backwards.
pub open spec fn shrink_head(p: TruncationPolicy, b: Seq<u8>, h: nat) -> nat {
    let dflt = floor_boundary(b, sat_sub(h, 1));
    if is_line(p) {
        match last_newline(b, sat_sub(h, window()), sat_sub(h, 1)) {
            Some(r) => r + 1,
            None => dflt,
        }
    } else {
        dflt
    }
}

pub open spec fn shrink_ok(p: TruncationPolicy, b: Seq<u8>, h: nat) -> bool {
    is_line(p) ==> slice_ok(b, sat_sub(h, window()), sat_sub(h, 1))
}

/// One step of moving the tail cut forwards.
pub open spec fn expand_tail(p: TruncationPolicy, b: Seq<u8>, t: nat) -> nat {
    let dflt = ceil_boundary(b, t + 1);
    let ss = min_nat(t + 1, b.len());
    let se = min_nat(t + window(), b.len());
    if is_line(p) && ss < se {
        match first_newline(b, ss, se) {
            Some(r) => r + 1,
            None => dflt,
        }
    } else {
        dflt
    }
}

pub open spec fn expand_ok(p: TruncationPolicy, b: Seq<u8>, t: nat) -> bool {
    let ss = min_nat(t + 1, b.len());
    let se = min_nat(t + window(), b.len());
    is_line(p) && ss < se ==> slice_ok(b, ss, se)
}

/// Bytes the output would have with cuts `h` and `t`.
pub open spec fn total_len(
    p: TruncationPolicy,
    b: Seq<u8>,
    h: nat,
    t: nat,
    spill: SpillDisposition,
) -> int {
    h + marker_len(p, sat_sub(t, h), b.len(), h, t, spill) + (b.len() - t)
}

/// Whether the convergence loop takes another step from cuts `h`, `t`.
pub open spec fn keeps_going(
    p: TruncationPolicy,
    b: Seq<u8>,
    h: nat,
    t: nat,
    spill: SpillDisposition,
) -> bool {
    t <= b.len() && total_len(p, b, h, t, spill) > p.max_bytes && (h > 0 || t < b.len())
}

/// Whether that step moves the head (rather than the tail).
pub open spec fn moves_head(b: Seq<u8>, h: nat, t: nat) -> bool {
    h > 0 && (t == b.len() || h >= b.len() - t)
}

/// The cuts after shrinking the head / expanding the tail until the output fits
/// (or nothing is left to cut).
pub open spec fn converge(
    p: TruncationPolicy,
    b: Seq<u8>,
    h: nat,
    t: nat,
    spill: SpillDisposition,
) -> (nat, nat)
    decreases h + b.len() - t,
{
    if keeps_going(p, b, h, t, spill) {
        if moves_head(b, h, t) {
            let h2 = shrink_head(p, b, h);
            if h2 < h {
                converge(p, b, h2, t, spill)
            } else {
                (h2, t)
            }
        } else if t < b.len() {
            let t2 = expand_tail(p, b, t);
            if t < t2 <= b.len() {
                converge(p, b, h, t2, spill)
            } else {
                (h, t2)
            }
        } else {
            (h, t)
        }
    } else {
        (h, t)
    }
}

/// Whether every line scan of the convergence loop slices on boundaries.
pub open spec fn converge_ok(
    p: TruncationPolicy,
    b: Seq<u8>,
    h: nat,
    t: nat,
    spill: SpillDisposition,
) -> bool
    decreases h + b.len() - t,
{
    if keeps_going(p, b, h, t, spill) {
        if moves_head(b, h, t) {
            let h2 = shrink_head(p, b, h);
            shrink_ok(p, b, h) && (h2 < h ==> converge_ok(p, b, h2, t, spill))
        } else if t < b.len() {
            let t2 = expand_tail(p, b, t);
            expand_ok(p, b, t) && (t < t2 <= b.len() ==> converge_ok(p, b, h, t2, spill))
        } else {
            true
        }
    } else {
        true
    }
}

/// The most informative fallback marker that fits in `max_bytes`.
pub open spec fn fallback_marker(spill: SpillDisposition, max_bytes: nat) -> Seq<char> {
    match spill {
        SpillDisposition::Spilled(h) => {
            let with_ref = "\n[...truncated; ref=\""@ + h.text() + "\"...]\n"@;
            if utf8(with_ref).len() <= max_bytes {
                with_ref
            } else {
                MINIMAL_TRUNCATION_MARKER@
            }
        },
        SpillDisposition::Failed(_) => MINIMAL_TRUNCATION_MARKER_SPILL_FAILED@,
        SpillDisposition::NotConfigured => MINIMAL_TRUNCATION_MARKER@,
    }
}

/// Output text and omitted range when the informative marker does not fit:
/// the fallback marker (cut to `max_bytes` when even it does not fit),
/// preceded by as much of the input as fits.
pub open spec fn fallback_result(p: TruncationPolicy, b: Seq<u8>, spill: SpillDisposition) -> (
    Seq<u8>,
    Option<(nat, nat)>,
) {
    let m = p.max_bytes as nat;
    let mk = utf8(fallback_marker(spill, m));
    if mk.len() >= m {
        (mk.subrange(0, floor_boundary(mk, m) as int), Some((0nat, b.len())))
    } else {
        let he = floor_boundary(b, (m - mk.len()) as nat);
        (b.subrange(0, he as int) + mk, Some((he, b.len())))
    }
}

/// Byte length of the sample marker used to size the content budget.
pub open spec fn sample_marker_len(p: TruncationPolicy, b: Seq<u8>, spill: SpillDisposition) -> nat {
    let est = sat_sub(b.len(), p.max_bytes as nat);
    marker_len(p, est, b.len(), 0, est, spill)
}

/// Content budget left beside the sample marker.
pub open spec fn content_budget(p: TruncationPolicy, b: Seq<u8>, spill: SpillDisposition) -> nat {
    sat_sub(p.max_bytes as nat, sample_marker_len(p, b, spill))
}

/// The text (as bytes) and omitted byte range of truncating the oversized
/// input `b` under policy `p` with spill outcome `spill`.
pub open spec fn oversized_result(p: TruncationPolicy, b: Seq<u8>, spill: SpillDisposition) -> (
    Seq<u8>,
    Option<(nat, nat)>,
) {
    let n = b.len();
    let m = p.max_bytes as nat;
    if m == 0 {
        (Seq::<u8>::empty(), Some((0nat, n)))
    } else if m <= sample_marker_len(p, b, spill) {
        fallback_result(p, b, spill)
    } else {
        let budget = content_budget(p, b, spill);
        let h = initial_head(p, b, budget);
        let t = initial_tail(p, b, budget);
        if h >= t {
            (b, None)
        } else {
            let (h2, t2) = converge(p, b, h, t, spill);
            let out = b.subrange(0, h2 as int) + utf8(p.marker(sat_sub(t2, h2), n, h2, t2, spill))
                + b.subrange(t2 as int, n as int);
            let text = if out.len() > m {
                out.subrange(0, floor_boundary(out, m) as int)
            } else {
                out
            };
            (text, Some((h2, t2)))
        }
    }
}

/// Whether truncating `b` slices only on character boundaries (always true
/// for character alignment; under line alignment a scan window that starts
/// or ends inside a character would panic).
pub open spec fn oversized_ok(p: TruncationPolicy, b: Seq<u8>, spill: SpillDisposition) -> bool {
    let m = p.max_bytes as nat;
    let budget = content_budget(p, b, spill);
    let h = initial_head(p, b, budget);
    let t = initial_tail(p, b, budget);
    (m != 0 && m > sample_marker_len(p, b, spill)) ==> (initial_ok(p, b, budget) && (h < t
        ==> converge_ok(p, b, h, t, spill)))
}

} // verus!
