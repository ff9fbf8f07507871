//! Properties that hold of every truncation, whatever the policy, the input
//! and the answer of the spill sink.
use vstd::prelude::*;
use vstd::utf8::*;
use vstd::string::*;
use crate::text::{
    utf8, contains_seq, occurs_at, dec, digit_char, lemma_chars_of_bytes, lemma_boundary_at_ascii, lemma_boundary_ends,
    lemma_boundary_after_ascii, lemma_utf8_concat,
};
use crate::truncation::model::{
    floor_boundary, sat_sub, min_nat, oversized_result, oversized_ok, sample_marker_len, fallback_marker,
    content_budget, initial_head, last_newline, ceil_boundary, initial_tail, raw_head, raw_tail, converge, converge_ok, keeps_going, moves_head,
    shrink_head, expand_tail, is_line, window, first_newline, total_len,
};
use crate::truncation::ratio::head_budget;
use crate::truncation::policy::{
    TruncationPolicy, failure_notice, lemma_floor, lemma_ceil, lemma_initial, lemma_converge,
    lemma_shrink, lemma_expand, lemma_first_newline, lemma_last_newline, truncation_safe, default_marker, MINIMAL_TRUNCATION_MARKER,
    MINIMAL_TRUNCATION_MARKER_SPILL_FAILED, spill_answer, detailed_result,
};
use crate::truncation::alignment::TruncationAlignment;
use crate::truncation::sink::{SpillDisposition, SpillError, SpillContext, tag_of};
use crate::truncation::outcome::TruncationOutcome;
use std::borrow::Cow;

verus! {

proof fn lemma_floor_le(b: Seq<u8>, i: nat)
    ensures
        floor_boundary(b, i) <= i,
    decreases i,
{
    if i > 0 && !is_char_boundary(b, i as int) {
        lemma_floor_le(b, (i - 1) as nat);
    }
}

/// The truncated text of an oversized input never exceeds `max_bytes`.
pub proof fn law_output_within_max(p: TruncationPolicy, input: &str, d: SpillDisposition)
    requires
        input.spec_bytes().len() > p.max_bytes,
    ensures
        oversized_result(p, input.spec_bytes(), d).0.len() <= p.max_bytes,
{
    let b = input.spec_bytes();
    lemma_chars_of_bytes(input@);
    let m = p.max_bytes as nat;
    if m == 0 {
    } else if m <= sample_marker_len(p, b, d) {
        let mk = utf8(fallback_marker(d, m));
        lemma_floor_le(mk, m);
        if mk.len() < m {
            lemma_floor(b, (m - mk.len()) as nat);
        }
    } else {
        let budget = content_budget(p, b, d);
        lemma_initial(p, b, budget);
        let h = initial_head(p, b, budget);
        let t = initial_tail(p, b, budget);
        lemma_converge(p, b, h, t, d);
        let (h2, t2) = converge(p, b, h, t, d);
        let out = b.subrange(0, h2 as int) + utf8(p.marker(sat_sub(t2, h2), b.len(), h2, t2, d))
            + b.subrange(t2 as int, b.len() as int);
        lemma_floor_le(out, m);
    }
}

/// An oversized input is always reported as truncated, with an omitted byte
/// range that is ordered, lies within the input and starts and ends on
/// character boundaries.
pub proof fn law_oversized_reported(p: TruncationPolicy, input: &str, d: SpillDisposition)
    requires
        input.spec_bytes().len() > p.max_bytes,
    ensures
        oversized_result(p, input.spec_bytes(), d).1 matches Some((lo, hi)) && lo <= hi <= input.spec_bytes().len()
            && is_char_boundary(input.spec_bytes(), lo as int) && is_char_boundary(input.spec_bytes(), hi as int),
{
    let b = input.spec_bytes();
    lemma_chars_of_bytes(input@);
    lemma_boundary_ends(b);
    let m = p.max_bytes as nat;
    if m == 0 {
    } else if m <= sample_marker_len(p, b, d) {
        let mk = utf8(fallback_marker(d, m));
        if mk.len() < m {
            lemma_floor(b, (m - mk.len()) as nat);
        }
    } else {
        let budget = content_budget(p, b, d);
        lemma_initial(p, b, budget);
        let h = initial_head(p, b, budget);
        let t = initial_tail(p, b, budget);
        lemma_converge(p, b, h, t, d);
    }
}

/// When the sink failed, the rendered marker always carries the failure
/// notice, custom templates included.
pub proof fn law_failure_notice_in_marker(
    p: TruncationPolicy,
    omitted: nat,
    original: nat,
    start: nat,
    end: nat,
    e: SpillError,
)
    ensures
        contains_seq(p.marker(omitted, original, start, end, SpillDisposition::Failed(e)), failure_notice(e)),
{
    let mk = p.marker(omitted, original, start, end, SpillDisposition::Failed(e));
    let fnote = failure_notice(e);
    match p.marker_template {
        Some(t) => {
            let i = mk.len() - fnote.len();
            assert(mk.subrange(i, i + fnote.len()) =~= fnote);
            assert(occurs_at(mk, fnote, i));
        },
        None => {
            let tail = " ...]\n"@;
            let i = mk.len() - fnote.len() - tail.len();
            assert(mk.subrange(i, i + fnote.len()) =~= fnote);
            assert(occurs_at(mk, fnote, i));
        },
    }
}

/// With a sink that succeeded and the built-in marker, the marker names the
/// recall handle.
pub proof fn law_handle_in_default_marker(
    p: TruncationPolicy,
    omitted: nat,
    original: nat,
    start: nat,
    end: nat,
    d: SpillDisposition,
)
    requires
        p.marker_template is None,
        d is Spilled,
    ensures
        contains_seq(p.marker(omitted, original, start, end, d), d->Spilled_0.text()),
{
    let mk = p.marker(omitted, original, start, end, d);
    let h = d->Spilled_0.text();
    let tail = "\" \u{2014} recall with read_observation. ...]\n"@;
    let i = mk.len() - h.len() - tail.len();
    assert(mk.subrange(i, i + h.len()) =~= h);
    assert(occurs_at(mk, h, i));
}

proof fn lemma_converge_safe(p: TruncationPolicy, b: Seq<u8>, h: nat, t: nat, d: SpillDisposition)
    requires
        valid_utf8(b),
        h <= t <= b.len(),
        is_line(p) ==> forall|i: int| 0 <= i <= b.len() ==> is_char_boundary(b, i),
    ensures
        converge_ok(p, b, h, t, d),
    decreases h + b.len() - t,
{
    if keeps_going(p, b, h, t, d) {
        if moves_head(b, h, t) {
            let h2 = shrink_head(p, b, h);
            lemma_shrink(p, b, h);
            lemma_converge_safe(p, b, h2, t, d);
        } else if t < b.len() {
            let t2 = expand_tail(p, b, t);
            lemma_expand(p, b, t);
            lemma_converge_safe(p, b, h, t2, d);
        }
    }
}

proof fn lemma_oversized_safe(p: TruncationPolicy, b: Seq<u8>, d: SpillDisposition)
    requires
        valid_utf8(b),
        is_line(p) ==> forall|i: int| 0 <= i <= b.len() ==> is_char_boundary(b, i),
    ensures
        oversized_ok(p, b, d),
{
    let budget = content_budget(p, b, d);
    let hb = head_budget(p.head_ratio, budget);
    lemma_floor(b, min_nat(hb, b.len()));
    lemma_ceil(b, sat_sub(b.len(), sat_sub(budget, hb)));
    let t0 = raw_tail(p, b, budget);
    lemma_first_newline(b, t0, min_nat(t0 + window(), b.len()));
    let h = initial_head(p, b, budget);
    let t = initial_tail(p, b, budget);
    if h < t {
        lemma_converge_safe(p, b, h, t, d);
    }
}

/// Under character alignment truncation only ever slices on character
/// boundaries, so it succeeds on every input.
pub proof fn law_char_alignment_safe(p: TruncationPolicy, input: &str)
    requires
        p.alignment == TruncationAlignment::CharBoundary,
    ensures
        truncation_safe(p, input.spec_bytes()),
{
    lemma_chars_of_bytes(input@);
    assert forall|d: SpillDisposition| #[trigger] oversized_ok(p, input.spec_bytes(), d) by {
        lemma_oversized_safe(p, input.spec_bytes(), d);
    }
}

/// Whether every byte is ASCII.
pub open spec fn ascii_bytes(b: Seq<u8>) -> bool {
    forall|i: int| 0 <= i < b.len() ==> b[i] < 0x80
}

/// Truncation of ASCII text succeeds under every alignment.
pub proof fn law_ascii_safe(p: TruncationPolicy, input: &str)
    requires
        ascii_bytes(input.spec_bytes()),
    ensures
        truncation_safe(p, input.spec_bytes()),
{
    let b = input.spec_bytes();
    lemma_chars_of_bytes(input@);
    assert forall|i: int| 0 <= i <= b.len() implies is_char_boundary(b, i) by {
        if i < b.len() {
            lemma_boundary_at_ascii(b, i);
        } else {
            lemma_boundary_ends(b);
        }
    }
    assert forall|d: SpillDisposition| #[trigger] oversized_ok(p, b, d) by {
        lemma_oversized_safe(p, b, d);
    }
}

/// Dropping content stops only once the text fits or no content is left.
proof fn lemma_converge_stops(p: TruncationPolicy, b: Seq<u8>, h: nat, t: nat, d: SpillDisposition)
    requires
        valid_utf8(b),
        h <= t <= b.len(),
        is_char_boundary(b, h as int),
        is_char_boundary(b, t as int),
    ensures
        total_len(p, b, converge(p, b, h, t, d).0, converge(p, b, h, t, d).1, d) <= p.max_bytes || (converge(
            p,
            b,
            h,
            t,
            d,
        ).0 == 0 && converge(p, b, h, t, d).1 == b.len()),
    decreases h + b.len() - t,
{
    if keeps_going(p, b, h, t, d) {
        if moves_head(b, h, t) {
            lemma_shrink(p, b, h);
            lemma_converge_stops(p, b, shrink_head(p, b, h), t, d);
        } else if t < b.len() {
            lemma_expand(p, b, t);
            lemma_converge_stops(p, b, h, expand_tail(p, b, t), d);
        }
    }
}

/// Whether `mk` is a notice of truncating `b` whose omitted range is
/// `lo..hi`: the full marker for that range, or the fallback marker.
pub open spec fn is_notice(p: TruncationPolicy, b: Seq<u8>, d: SpillDisposition, lo: nat, hi: nat, mk: Seq<u8>) -> bool {
    mk == utf8(p.marker(sat_sub(hi, lo), b.len(), lo, hi, d)) || mk == utf8(fallback_marker(d, p.max_bytes as nat))
}

/// Whether `out` is the head `b[..lo]`, the notice `mk` and the tail
/// `b[hi..]`, or, with no content left, a prefix of the notice.
pub open spec fn kept_around(out: Seq<u8>, b: Seq<u8>, lo: nat, hi: nat, mk: Seq<u8>) -> bool {
    out == b.take(lo as int) + mk + b.skip(hi as int) || (lo == 0 && hi == b.len() && out.len() <= mk.len() && out
        == mk.take(out.len() as int))
}

/// Content is dropped before the notice: the truncated text of an oversized
/// input is the input before the reported omitted range, a whole notice and
/// the input after it; only once no content is left (the range is the whole
/// input) is the notice itself cut to the budget.
pub proof fn law_notice_kept(p: TruncationPolicy, input: &str, d: SpillDisposition)
    requires
        input.spec_bytes().len() > p.max_bytes,
    ensures
        exists|lo: nat, hi: nat, mk: Seq<u8>|
            #![trigger is_notice(p, input.spec_bytes(), d, lo, hi, mk)]
            oversized_result(p, input.spec_bytes(), d).1 == Some((lo, hi)) && lo <= hi <= input.spec_bytes().len()
                && is_notice(p, input.spec_bytes(), d, lo, hi, mk) && kept_around(
                oversized_result(p, input.spec_bytes(), d).0,
                input.spec_bytes(),
                lo,
                hi,
                mk,
            ),
{
    let b = input.spec_bytes();
    let n = b.len();
    lemma_chars_of_bytes(input@);
    let m = p.max_bytes as nat;
    let out = oversized_result(p, b, d).0;
    let fb = utf8(fallback_marker(d, m));
    if m == 0 {
        assert(is_notice(p, b, d, 0, n, fb));
        assert(out =~= fb.take(0));
    } else if m <= sample_marker_len(p, b, d) {
        if fb.len() >= m {
            lemma_floor_le(fb, m);
            assert(is_notice(p, b, d, 0, n, fb));
            assert(out =~= fb.take(out.len() as int));
        } else {
            let he = floor_boundary(b, (m - fb.len()) as nat);
            lemma_floor(b, (m - fb.len()) as nat);
            assert(is_notice(p, b, d, he, n, fb));
            assert(out =~= b.take(he as int) + fb + b.skip(n as int));
        }
    } else {
        let budget = content_budget(p, b, d);
        lemma_initial(p, b, budget);
        let h = initial_head(p, b, budget);
        let t = initial_tail(p, b, budget);
        lemma_converge(p, b, h, t, d);
        lemma_converge_stops(p, b, h, t, d);
        let (h2, t2) = converge(p, b, h, t, d);
        let mk = utf8(p.marker(sat_sub(t2, h2), n, h2, t2, d));
        let full = b.subrange(0, h2 as int) + mk + b.subrange(t2 as int, n as int);
        assert(is_notice(p, b, d, h2, t2, mk));
        assert(full.len() == total_len(p, b, h2, t2, d));
        if full.len() > m {
            assert(h2 == 0 && t2 == n);
            assert(full =~= mk);
            lemma_floor_le(full, m);
            assert(out =~= mk.take(out.len() as int));
        } else {
            assert(out =~= b.take(h2 as int) + mk + b.skip(t2 as int));
        }
    }
}

/// Whether every character of `s` is ASCII.
pub open spec fn ascii_chars(s: Seq<char>) -> bool {
    forall|i: int| 0 <= i < s.len() ==> (s[i] as u32) < 128
}

proof fn lemma_ascii_utf8(s: Seq<char>)
    requires
        ascii_chars(s),
    ensures
        utf8(s).len() == s.len(),
        forall|i: int| 0 <= i < s.len() ==> utf8(s)[i] < 0x80,
    decreases s.len(),
{
    if s.len() > 0 {
        let c = s[0] as u32;
        assert(c < 128);
        assert(ascii_chars(s.drop_first()));
        lemma_ascii_utf8(s.drop_first());
        assert((c & 0x7F) < 0x80) by (bit_vector);
        let e = encode_scalar(c);
        assert(e =~= seq![(c & 0x7F) as u8]);
        assert(utf8(s) == e + utf8(s.drop_first()));
        assert forall|i: int| 0 <= i < s.len() implies utf8(s)[i] < 0x80 by {
            if i > 0 {
                assert(utf8(s)[i] == utf8(s.drop_first())[i - 1]);
            }
        }
    }
}

proof fn lemma_dec_ascii(n: nat)
    ensures
        ascii_chars(dec(n)),
        dec(n).len() >= 1,
    decreases n,
{
    if n >= 10 {
        lemma_dec_ascii(n / 10);
    }
}

proof fn lemma_dec_mono(x: nat, y: nat)
    requires
        x <= y,
    ensures
        dec(x).len() <= dec(y).len(),
    decreases y,
{
    lemma_dec_ascii(x);
    lemma_dec_ascii(y);
    if x >= 10 {
        lemma_dec_mono(x / 10, y / 10);
    }
}

proof fn lemma_dec_sum(x: nat, y: nat)
    ensures
        dec(x + y).len() <= dec(x).len() + 1 || dec(x + y).len() <= dec(y).len() + 1,
{
    let big = if x >= y {
        x
    } else {
        y
    };
    if big == 0 {
        assert(x + y == 0);
    } else {
        lemma_dec_mono((x + y) as nat, (10 * big) as nat);
        assert((10 * big) as nat / 10 == big);
        assert(dec((10 * big) as nat) == dec(big).push(digit_char(0)));
    }
}

proof fn lemma_dec_small(x: nat)
    requires
        x >= 29,
    ensures
        dec(x).len() + 23 <= x,
    decreases x,
{
    if x < 100 {
        lemma_dec_mono(x, 99);
        assert(dec(99).len() == 2) by {
            reveal_with_fuel(dec, 3);
        }
    } else {
        if x / 10 >= 29 {
            lemma_dec_small(x / 10);
        } else {
            lemma_dec_mono(x / 10, 28);
            assert(dec(28).len() == 2) by {
                reveal_with_fuel(dec, 3);
            }
        }
    }
}

proof fn lemma_floor_at_least(b: Seq<u8>, i: nat, j: nat)
    requires
        j <= i,
        is_char_boundary(b, j as int),
    ensures
        j <= floor_boundary(b, i),
    decreases i,
{
    if i > j && !is_char_boundary(b, i as int) {
        lemma_floor_at_least(b, (i - 1) as nat, j);
    }
}

/// A keyword `k` between ASCII text `a` and any text `z`: its bytes occur
/// in every prefix of the encoding that reaches past it, and a character
/// boundary follows it.
proof fn lemma_keyword_in(a: Seq<char>, k: Seq<char>, z: Seq<char>, f: int)
    requires
        ascii_chars(a),
        ascii_chars(k),
        k.len() > 0,
        a.len() + k.len() <= f <= utf8(a + k + z).len(),
    ensures
        contains_seq(utf8(a + k + z).take(f), utf8(k)),
{
    lemma_utf8_concat(a + k, z);
    lemma_utf8_concat(a, k);
    lemma_ascii_utf8(a);
    lemma_ascii_utf8(k);
    let all = utf8(a + k + z);
    let out = all.take(f);
    let at = a.len() as int;
    assert(out.subrange(at, at + k.len()) =~= utf8(k)) by {
        assert forall|i: int| 0 <= i < k.len() implies out.subrange(at, at + k.len())[i] == utf8(k)[i] by {
            assert(all[at + i] == (utf8(a) + utf8(k))[at + i]);
        }
    }
    assert(occurs_at(out, utf8(k), at));
}

proof fn lemma_boundary_after_keyword(a: Seq<char>, k: Seq<char>, z: Seq<char>)
    requires
        ascii_chars(a),
        ascii_chars(k),
        k.len() > 0,
    ensures
        is_char_boundary(utf8(a + k + z), (a.len() + k.len()) as int),
        utf8(a + k + z).len() == a.len() + k.len() + utf8(z).len(),
{
    lemma_utf8_concat(a + k, z);
    lemma_utf8_concat(a, k);
    lemma_ascii_utf8(a);
    lemma_ascii_utf8(k);
    lemma_chars_of_bytes(a + k + z);
    let all = utf8(a + k + z);
    let last = a.len() + k.len() - 1;
    assert(all[last] == utf8(k)[k.len() - 1]);
    lemma_boundary_after_ascii(all, last);
}

/// The words every built-in notice carries.
pub open spec fn tells_truncation(out: Seq<u8>) -> bool {
    contains_seq(out, utf8("truncated"@)) || contains_seq(out, utf8("omitted"@))
}

proof fn lemma_contains_within(x: Seq<u8>, y: Seq<u8>, z: Seq<u8>, k: Seq<u8>)
    requires
        contains_seq(y, k),
    ensures
        contains_seq(x + y + z, k),
{
    let i = choose|i: int| occurs_at(y, k, i);
    let all = x + y + z;
    assert(all.subrange(x.len() + i, x.len() + i + k.len()) =~= y.subrange(i, i + k.len()));
    assert(occurs_at(all, k, x.len() + i));
}

/// The built-in marker is ASCII text, a keyword and the rest: `truncated`
/// when no sink is configured, else `omitted` followed by the byte range.
proof fn lemma_default_shape(o: nat, orig: nat, start: nat, end: nat, d: SpillDisposition) -> (r: (
    Seq<char>,
    Seq<char>,
    Seq<char>,
    Seq<char>,
))
    ensures
        default_marker(o, orig, start, end, d) == r.0 + r.1 + (r.2 + r.3),
        ascii_chars(r.0) && ascii_chars(r.1) && ascii_chars(r.2),
        r.0 == "\n[... "@ + dec(o) + " bytes "@,
        r.1.len() > 0,
        d is NotConfigured ==> r.1 == "truncated"@ && r.2 == " ...]\n"@,
        !(d is NotConfigured) ==> r.1 == "omitted"@ && r.2 == " (bytes "@ + dec(start) + ".."@ + dec(end) + " of "@ + dec(
            orig,
        ),
{
    reveal_strlit("\n[... ");
    reveal_strlit(" bytes ");
    reveal_strlit("truncated");
    reveal_strlit("omitted");
    reveal_strlit(" ...]\n");
    reveal_strlit(" bytes truncated ...]\n");
    reveal_strlit(" bytes omitted (bytes ");
    reveal_strlit(" (bytes ");
    reveal_strlit("..");
    reveal_strlit(" of ");
    lemma_dec_ascii(o);
    lemma_dec_ascii(start);
    lemma_dec_ascii(end);
    lemma_dec_ascii(orig);
    let a = "\n[... "@ + dec(o) + " bytes "@;
    match d {
        SpillDisposition::NotConfigured => {
            let r = (a, "truncated"@, " ...]\n"@, Seq::<char>::empty());
            assert(default_marker(o, orig, start, end, d) =~= r.0 + r.1 + (r.2 + r.3));
            r
        },
        SpillDisposition::Spilled(h) => {
            let z1 = " (bytes "@ + dec(start) + ".."@ + dec(end) + " of "@ + dec(orig);
            let z2 = "). Full output retained as ref=\""@ + h.text()
                + "\" \u{2014} recall with read_observation. ...]\n"@;
            assert(default_marker(o, orig, start, end, d) =~= a + "omitted"@ + (z1 + z2));
            (a, "omitted"@, z1, z2)
        },
        SpillDisposition::Failed(e) => {
            let z1 = " (bytes "@ + dec(start) + ".."@ + dec(end) + " of "@ + dec(orig);
            let z2 = ")."@ + failure_notice(e) + " ...]\n"@;
            assert(default_marker(o, orig, start, end, d) =~= a + "omitted"@ + (z1 + z2));
            (a, "omitted"@, z1, z2)
        },
    }
}

/// Every fallback marker is `\n[...`, the keyword `truncated` and the rest.
proof fn lemma_fallback_shape(d: SpillDisposition, m: nat) -> (z: Seq<char>)
    ensures
        fallback_marker(d, m) == "\n[..."@ + "truncated"@ + z,
{
    reveal_strlit("\n[...");
    reveal_strlit("truncated");
    reveal_strlit("\n[...truncated...]\n");
    reveal_strlit("\n[...truncated; NOT retained...]\n");
    reveal_strlit("\n[...truncated; ref=\"");
    match d {
        SpillDisposition::Spilled(h) => {
            let with_ref = "\n[...truncated; ref=\""@ + h.text() + "\"...]\n"@;
            if utf8(with_ref).len() <= m {
                let z = "; ref=\""@ + h.text() + "\"...]\n"@;
                reveal_strlit("; ref=\"");
                assert(fallback_marker(d, m) =~= "\n[..."@ + "truncated"@ + z);
                z
            } else {
                reveal_strlit("...]\n");
                assert(fallback_marker(d, m) =~= "\n[..."@ + "truncated"@ + "...]\n"@);
                "...]\n"@
            }
        },
        SpillDisposition::Failed(_) => {
            reveal_strlit("; NOT retained...]\n");
            assert(fallback_marker(d, m) =~= "\n[..."@ + "truncated"@ + "; NOT retained...]\n"@);
            "; NOT retained...]\n"@
        },
        SpillDisposition::NotConfigured => {
            reveal_strlit("...]\n");
            assert(fallback_marker(d, m) =~= "\n[..."@ + "truncated"@ + "...]\n"@);
            "...]\n"@
        },
    }
}

/// Truncation is never silent: under the built-in markers, the truncated
/// text of an oversized input always says `truncated` or `omitted`, once
/// the budget holds at least `\n[...truncated` (14 bytes); below that even
/// the shortest notice is cut.
pub proof fn law_truncation_never_silent(p: TruncationPolicy, input: &str, d: SpillDisposition)
    requires
        p.marker_template is None,
        input.spec_bytes().len() > p.max_bytes,
        p.max_bytes >= 14,
    ensures
        tells_truncation(oversized_result(p, input.spec_bytes(), d).0),
{
    let b = input.spec_bytes();
    let n = b.len();
    lemma_chars_of_bytes(input@);
    let m = p.max_bytes as nat;
    let out = oversized_result(p, b, d).0;
    reveal_strlit("\n[...");
    reveal_strlit("truncated");
    reveal_strlit("omitted");
    if m <= sample_marker_len(p, b, d) {
        let z = lemma_fallback_shape(d, m);
        let a = "\n[..."@;
        let k = "truncated"@;
        let fbc = fallback_marker(d, m);
        let fb = utf8(fbc);
        lemma_boundary_after_keyword(a, k, z);
        if fb.len() >= m {
            let f = floor_boundary(fb, m);
            lemma_floor_le(fb, m);
            lemma_floor_at_least(fb, m, 14);
            lemma_keyword_in(a, k, z, f as int);
            assert(out =~= fb.take(f as int));
        } else {
            let he = floor_boundary(b, (m - fb.len()) as nat);
            lemma_keyword_in(a, k, z, fb.len() as int);
            assert(fb.take(fb.len() as int) =~= fb);
            lemma_contains_within(b.subrange(0, he as int), fb, Seq::<u8>::empty(), utf8(k));
            assert(out =~= b.subrange(0, he as int) + fb + Seq::<u8>::empty());
        }
    } else {
        let budget = content_budget(p, b, d);
        lemma_initial(p, b, budget);
        let h = initial_head(p, b, budget);
        let t = initial_tail(p, b, budget);
        lemma_converge(p, b, h, t, d);
        lemma_converge_stops(p, b, h, t, d);
        let (h2, t2) = converge(p, b, h, t, d);
        let o = sat_sub(t2, h2);
        let parts = lemma_default_shape(o, n, h2, t2, d);
        let (a, k, z1, z2) = parts;
        let mc = p.marker(o, n, h2, t2, d);
        assert(mc == default_marker(o, n, h2, t2, d));
        let mk = utf8(mc);
        lemma_boundary_after_keyword(a, k, z1 + z2);
        let full = b.subrange(0, h2 as int) + mk + b.subrange(t2 as int, n as int);
        assert(full.len() == total_len(p, b, h2, t2, d));
        if full.len() > m {
            assert(h2 == 0 && t2 == n);
            assert(full =~= mk);
            // the notice's head and keyword fit in the budget
            let est = sat_sub(n, m);
            let sparts = lemma_default_shape(est, n, 0, est, d);
            let (sa, sk, sz1, sz2) = sparts;
            lemma_boundary_after_keyword(sa, sk, sz1 + sz2);
            lemma_utf8_concat(sz1, sz2);
            lemma_ascii_utf8(sz1);
            assert(p.marker(est, n, 0, est, d) == default_marker(est, n, 0, est, d));
            assert(sample_marker_len(p, b, d) == utf8(sa + sk + (sz1 + sz2)).len());
            lemma_dec_ascii(est);
            lemma_dec_ascii(n);
            lemma_dec_ascii(0);
            reveal_strlit("\n[... ");
            reveal_strlit(" bytes ");
            reveal_strlit(" ...]\n");
            reveal_strlit(" (bytes ");
            reveal_strlit("..");
            reveal_strlit(" of ");
            assert(n == est + m);
            lemma_dec_sum(est, m);
            if d is NotConfigured {
                assert(m >= 29);
                lemma_dec_small(m);
            }
            assert(a.len() + k.len() <= m);
            let f = floor_boundary(mk, m);
            lemma_floor_le(mk, m);
            lemma_floor_at_least(mk, m, (a.len() + k.len()) as nat);
            lemma_keyword_in(a, k, z1 + z2, f as int);
            assert(out =~= mk.take(f as int));
        } else {
            lemma_keyword_in(a, k, z1 + z2, mk.len() as int);
            assert(mk.take(mk.len() as int) =~= mk);
            lemma_contains_within(b.subrange(0, h2 as int), mk, b.subrange(t2 as int, n as int), utf8(k));
            assert(out == full);
        }
    }
}

/// The text truncation gives for the bytes `b` when the sink answers `d`:
/// `b` itself when it fits, else the middle-out result.
pub open spec fn truncated_text(p: TruncationPolicy, b: Seq<u8>, d: SpillDisposition) -> Seq<u8> {
    if b.len() <= p.max_bytes {
        b
    } else {
        oversized_result(p, b, d).0
    }
}

/// Truncated text never exceeds the budget, and an input that fits comes
/// back as it is.
pub proof fn law_truncate_bounded(p: TruncationPolicy, input: &str, d: SpillDisposition)
    ensures
        truncated_text(p, input.spec_bytes(), d).len() <= p.max_bytes,
        input.spec_bytes().len() <= p.max_bytes ==> truncated_text(p, input.spec_bytes(), d) == input.spec_bytes(),
{
    if input.spec_bytes().len() > p.max_bytes {
        law_output_within_max(p, input, d);
    }
}

/// The head ratio sizes the two kept ends of a truncation: the bytes kept
/// before the marker are at most the head share of the content budget, and
/// the bytes kept after it at most the rest. So under a head-only ratio no
/// input byte follows the marker, and under a tail-only ratio none precedes it.
pub proof fn law_head_ratio_sizes_ends(p: TruncationPolicy, input: &str, d: SpillDisposition)
    requires
        input.spec_bytes().len() > p.max_bytes,
        p.max_bytes > sample_marker_len(p, input.spec_bytes(), d),
    ensures
        oversized_result(p, input.spec_bytes(), d).1 matches Some((lo, hi)) ==> lo <= head_budget(
            p.head_ratio,
            content_budget(p, input.spec_bytes(), d),
        ) && input.spec_bytes().len() - hi <= sat_sub(
            content_budget(p, input.spec_bytes(), d),
            head_budget(p.head_ratio, content_budget(p, input.spec_bytes(), d)),
        ),
        p.head_ratio.den() > 0 && p.head_ratio.num() == p.head_ratio.den() ==> (oversized_result(
            p,
            input.spec_bytes(),
            d,
        ).1 matches Some((lo, hi)) ==> hi == input.spec_bytes().len()),
        p.head_ratio.den() > 0 && p.head_ratio.num() == 0 ==> (oversized_result(p, input.spec_bytes(), d).1 matches Some(
            (lo, hi),
        ) ==> lo == 0),
{
    let b = input.spec_bytes();
    lemma_chars_of_bytes(input@);
    let budget = content_budget(p, b, d);
    let hb = head_budget(p.head_ratio, budget);
    assert(hb <= budget) by {
        if p.head_ratio.den() != 0 {
        }
    }
    if p.head_ratio.den() > 0 && p.head_ratio.num() == p.head_ratio.den() {
        assert(budget * p.head_ratio.num() / p.head_ratio.den() == budget) by (nonlinear_arith)
            requires
                p.head_ratio.den() > 0,
                p.head_ratio.num() == p.head_ratio.den(),
        ;
        assert(hb == budget);
    }
    if p.head_ratio.den() > 0 && p.head_ratio.num() == 0 {
        assert(budget * p.head_ratio.num() == 0) by (nonlinear_arith)
            requires
                p.head_ratio.num() == 0,
        ;
        assert(hb == 0);
    }
    let rh = floor_boundary(b, min_nat(hb, b.len()));
    let rt = ceil_boundary(b, sat_sub(b.len(), sat_sub(budget, hb)));
    lemma_floor(b, min_nat(hb, b.len()));
    lemma_ceil(b, sat_sub(b.len(), sat_sub(budget, hb)));
    lemma_last_newline(b, sat_sub(rh, window()), rh);
    lemma_first_newline(b, rt, min_nat(rt + window(), b.len()));
    let h = initial_head(p, b, budget);
    let t = initial_tail(p, b, budget);
    assert(h <= hb);
    assert(t >= b.len() - sat_sub(budget, hb));
    lemma_initial(p, b, budget);
    if h < t {
        lemma_converge(p, b, h, t, d);
    }
}

impl TruncationPolicy {
    /// Whether truncating `input` is known to slice only on character
    /// boundaries, so that the truncating functions may be called: always
    /// under character alignment, and for ASCII text under any alignment.
    /// `false` leaves line alignment over non-ASCII text, where truncation
    /// may still be safe; this test does not decide it.
    pub fn slices_safely(&self, input: &str) -> (r: bool)
        ensures
            r == (self.alignment == TruncationAlignment::CharBoundary || ascii_bytes(input.spec_bytes())),
            r ==> truncation_safe(*self, input.spec_bytes()),
    {
        let char_aligned = match self.alignment {
            TruncationAlignment::CharBoundary => true,
            TruncationAlignment::LineBoundary => false,
        };
        let bytes = input.as_bytes();
        let mut ascii = true;
        let mut i: usize = 0;
        while i < bytes.len()
            invariant
                bytes@ == input.spec_bytes(),
                i <= bytes.len(),
                ascii <==> forall|j: int| 0 <= j < i ==> bytes@[j] < 0x80,
            decreases bytes.len() - i,
        {
            if bytes[i] >= 0x80 {
                ascii = false;
            }
            i = i + 1;
        }
        proof {
            if char_aligned {
                law_char_alignment_safe(*self, input);
            } else if ascii {
                law_ascii_safe(*self, input);
            }
        }
        char_aligned || ascii
    }

    /// Truncate `input` when [`Self::slices_safely`] holds, as
    /// [`Self::truncate`] does; `None`, with nothing done, otherwise (line
    /// alignment over non-ASCII text).
    pub fn truncate_checked<'a>(&self, input: &'a str) -> (r: Option<Cow<'a, str>>)
        ensures
            r is Some <==> (self.alignment == TruncationAlignment::CharBoundary || ascii_bytes(input.spec_bytes())),
            r matches Some(c) ==> (input.spec_bytes().len() <= self.max_bytes ==> c == Cow::<str>::Borrowed(input)),
            r matches Some(c) ==> (input.spec_bytes().len() > self.max_bytes ==> exists|d: SpillDisposition|
                spill_answer(*self, "anonymous"@, None, input@, d) && utf8(c@) == #[trigger] oversized_result(
                    *self,
                    input.spec_bytes(),
                    d,
                ).0),
    {
        if self.slices_safely(input) {
            Some(self.truncate(input))
        } else {
            None
        }
    }

    /// The detailed truncation of `input` for the context `ctx` when
    /// [`Self::slices_safely`] holds, as
    /// [`Self::truncate_detailed_with_context`] gives it; `None`, with nothing
    /// done and no spill, otherwise.
    pub fn truncate_detailed_checked<'a>(&self, input: &'a str, ctx: &SpillContext<'_>) -> (r: Option<
        Result<TruncationOutcome<'a>, SpillError>,
    >)
        ensures
            r is Some <==> (self.alignment == TruncationAlignment::CharBoundary || ascii_bytes(input.spec_bytes())),
            r matches Some(x) ==> detailed_result(*self, ctx.tool_name@, tag_of(*ctx), input, x),
    {
        if self.slices_safely(input) {
            Some(self.truncate_detailed_with_context(input, ctx))
        } else {
            None
        }
    }
}

} // verus!
