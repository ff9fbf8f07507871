//! Why quarantining is final: the neutralized text holds no control token
//! and no quarantine tag, so the framed result is itself quarantined and
//! quarantining it again changes nothing.
use vstd::prelude::*;
use crate::text::{contains_seq, occurs_at, replace_all};
use crate::quarantine::{
    rule, apply_rules, sanitize_from, tag_match, tag_name_start, scan_close, skip_ws, lower, ascii_ws, eq_ignore_case,
    has_breakout, breakout_at, lemma_tag_match, lemma_scan_close, lemma_skip_ws, TOOL_OUTPUT_QUARANTINE_TAG,
    clean, neutralized, quarantined, quarantine, law_envelope_inner_of_framed, DELIMITER_RULE_COUNT,
};

verus! {

/// Whether `x` and `y` agree on their common length.
pub open spec fn agree(x: Seq<char>, y: Seq<char>) -> bool {
    let n = if x.len() <= y.len() {
        x.len()
    } else {
        y.len()
    };
    x.take(n as int) == y.take(n as int)
}

/// `q` cannot start inside `r`.
pub open spec fn no_start_within(q: Seq<char>, r: Seq<char>) -> bool {
    forall|t: int| 0 <= t < r.len() ==> !#[trigger] agree(r.skip(t), q)
}

/// `q` cannot run into a following `r`.
pub open spec fn no_run_into(q: Seq<char>, r: Seq<char>) -> bool {
    forall|t: int| 1 <= t < q.len() ==> !#[trigger] agree(q.skip(t), r)
}

/// The output of replacing starts either as the input does, or with a full
/// replacement within its first `l` characters.
proof fn lemma_replace_prefix(t: Seq<char>, p: Seq<char>, r: Seq<char>, l: int)
    requires
        p.len() > 0,
        0 <= l <= replace_all(t, p, r).len(),
    ensures
        (l <= t.len() && replace_all(t, p, r).take(l) == t.take(l)) || exists|c: int|
            0 <= c < l && c + r.len() <= replace_all(t, p, r).len() && #[trigger] replace_all(t, p, r).subrange(
                c,
                c + r.len(),
            ) == r,
    decreases t.len(),
{
    let out = replace_all(t, p, r);
    if t.len() < p.len() {
        assert(out == t);
    } else if t.take(p.len() as int) == p {
        assert(out == r + replace_all(t.skip(p.len() as int), p, r));
        if l > 0 {
            assert(out.subrange(0int, 0int + r.len()) =~= r);
        } else {
            assert(out.take(0) =~= t.take(0));
        }
    } else {
        let rest = replace_all(t.skip(1), p, r);
        assert(out == seq![t[0]] + rest);
        if l > 0 {
            lemma_replace_prefix(t.skip(1), p, r, l - 1);
            if l - 1 <= t.skip(1).len() && rest.take(l - 1) == t.skip(1).take(l - 1) {
                assert forall|k: int| 0 <= k < l implies out.take(l)[k] == t.take(l)[k] by {
                    if k > 0 {
                        assert(rest.take(l - 1)[k - 1] == t.skip(1).take(l - 1)[k - 1]);
                    }
                }
                assert(out.take(l) =~= t.take(l));
            } else {
                let c = choose|c: int| 0 <= c < l - 1 && c + r.len() <= rest.len() && #[trigger] rest.subrange(c, c + r.len()) == r;
                assert(out.subrange(c + 1, c + 1 + r.len()) =~= rest.subrange(c, c + r.len()));
            }
        } else {
            assert(out.take(0) =~= t.take(0));
        }
    }
}

/// An occurrence of `q` in the output of replacing `p` by `r` was already an
/// occurrence in the input, at a position where `p` does not start.
pub proof fn lemma_occurrence_origin(s: Seq<char>, p: Seq<char>, r: Seq<char>, q: Seq<char>, m: int)
    requires
        p.len() > 0,
        q.len() > 0,
        no_start_within(q, r),
        no_run_into(q, r),
        occurs_at(replace_all(s, p, r), q, m),
    ensures
        exists|m2: int| occurs_at(s, q, m2) && !occurs_at(s, p, m2),
    decreases s.len(),
{
    let out = replace_all(s, p, r);
    if s.len() < p.len() {
        assert(out == s);
        assert(!occurs_at(s, p, m));
    } else if s.take(p.len() as int) == p {
        let rest = replace_all(s.skip(p.len() as int), p, r);
        assert(out == r + rest);
        if m < r.len() {
            let n = if r.len() - m <= q.len() {
                r.len() - m
            } else {
                q.len() as int
            };
            assert(r.skip(m).take(n) =~= q.take(n)) by {
                assert forall|k: int| 0 <= k < n implies r.skip(m).take(n)[k] == q.take(n)[k] by {
                    assert(out.subrange(m, m + q.len())[k] == q[k]);
                }
            }
            assert(agree(r.skip(m), q));
        } else {
            assert(occurs_at(rest, q, m - r.len())) by {
                assert(rest.subrange(m - r.len(), m - r.len() + q.len()) =~= out.subrange(m, m + q.len()));
            }
            lemma_occurrence_origin(s.skip(p.len() as int), p, r, q, m - r.len());
            let m2 = choose|m2: int| occurs_at(s.skip(p.len() as int), q, m2) && !occurs_at(s.skip(p.len() as int), p, m2);
            assert(s.skip(p.len() as int).subrange(m2, m2 + q.len()) =~= s.subrange(m2 + p.len(), m2 + p.len() + q.len()));
            if occurs_at(s, p, m2 + p.len()) {
                assert(s.skip(p.len() as int).subrange(m2, m2 + p.len()) =~= s.subrange(m2 + p.len(), m2 + p.len() + p.len()));
            }
            assert(occurs_at(s, q, m2 + p.len()));
        }
    } else {
        let rest = replace_all(s.skip(1), p, r);
        assert(out == seq![s[0]] + rest);
        assert(!occurs_at(s, p, 0)) by {
            if occurs_at(s, p, 0) {
                assert(s.subrange(0, p.len() as int) =~= s.take(p.len() as int));
            }
        }
        if m >= 1 {
            assert(occurs_at(rest, q, m - 1)) by {
                assert(rest.subrange(m - 1, m - 1 + q.len()) =~= out.subrange(m, m + q.len()));
            }
            lemma_occurrence_origin(s.skip(1), p, r, q, m - 1);
            let m2 = choose|m2: int| occurs_at(s.skip(1), q, m2) && !occurs_at(s.skip(1), p, m2);
            assert(s.skip(1).subrange(m2, m2 + q.len()) =~= s.subrange(m2 + 1, m2 + 1 + q.len()));
            if occurs_at(s, p, m2 + 1) {
                assert(s.skip(1).subrange(m2, m2 + p.len()) =~= s.subrange(m2 + 1, m2 + 1 + p.len()));
            }
            assert(occurs_at(s, q, m2 + 1));
        } else {
            let l = q.len() - 1;
            lemma_replace_prefix(s.skip(1), p, r, l);
            if l <= s.skip(1).len() && rest.take(l) == s.skip(1).take(l) {
                assert forall|k: int| 0 <= k < q.len() implies s.subrange(0, q.len() as int)[k] == out.subrange(0, q.len() as int)[k] by {
                    if k > 0 {
                        assert(rest.take(l)[k - 1] == s.skip(1).take(l)[k - 1]);
                    }
                }
                assert(s.subrange(0, q.len() as int) =~= out.subrange(0, q.len() as int));
                assert(occurs_at(s, q, 0));
            } else {
                let c = choose|c: int| 0 <= c < l && c + r.len() <= rest.len() && #[trigger] rest.subrange(c, c + r.len()) == r;
                let t = c + 1;
                let n = if q.len() - t <= r.len() {
                    q.len() - t
                } else {
                    r.len() as int
                };
                assert(q.skip(t).take(n) =~= r.take(n)) by {
                    assert forall|k: int| 0 <= k < n implies q.skip(t).take(n)[k] == r.take(n)[k] by {
                        assert(out.subrange(0, q.len() as int)[t + k] == q[t + k]);
                        assert(rest.subrange(c, c + r.len())[k] == r[k]);
                    }
                }
                assert(agree(q.skip(t), r));
            }
        }
    }
}

/// Replacing every `p` by `r` leaves no `p` behind.
pub proof fn lemma_replace_removes(s: Seq<char>, p: Seq<char>, r: Seq<char>)
    requires
        p.len() > 0,
        no_start_within(p, r),
        no_run_into(p, r),
    ensures
        !contains_seq(replace_all(s, p, r), p),
{
    if contains_seq(replace_all(s, p, r), p) {
        let m = choose|m: int| occurs_at(replace_all(s, p, r), p, m);
        lemma_occurrence_origin(s, p, r, p, m);
    }
}

/// Replacing `p` by `r` creates no `q` that was not there.
pub proof fn lemma_replace_keeps_absent(s: Seq<char>, p: Seq<char>, r: Seq<char>, q: Seq<char>)
    requires
        p.len() > 0,
        q.len() > 0,
        no_start_within(q, r),
        no_run_into(q, r),
        !contains_seq(s, q),
    ensures
        !contains_seq(replace_all(s, p, r), q),
{
    if contains_seq(replace_all(s, p, r), q) {
        let m = choose|m: int| occurs_at(replace_all(s, p, r), q, m);
        lemma_occurrence_origin(s, p, r, q, m);
    }
}

/// Whether `c` does not occur in `s` from index `i` on.
pub open spec fn absent_from(s: Seq<char>, c: char, i: int) -> bool
    decreases s.len() - i,
{
    if i < 0 || i >= s.len() {
        true
    } else {
        s[i] != c && absent_from(s, c, i + 1)
    }
}

proof fn lemma_absent(s: Seq<char>, c: char, i: int)
    requires
        0 <= i,
        absent_from(s, c, i),
    ensures
        forall|t: int| i <= t < s.len() ==> s[t] != c,
    decreases s.len() - i,
{
    if i < s.len() {
        lemma_absent(s, c, i + 1);
    }
}

/// Whether `x` is one of the two conversational-turn rules (`\n\nHuman:`
/// and `\n\nAssistant:`), the only tokens that start with a line feed.
pub open spec fn is_turn_rule(k: int) -> bool {
    k == 39 || k == 40
}

/// The shape of token `k`: non-empty, without `&`, starting with a line
/// feed exactly when it is a turn rule and else with `<` or `[` and holding
/// no line feed.
pub open spec fn token_facts(k: int) -> bool {
    let q = rule(k).0;
    &&& q.len() > 0
    &&& absent_from(q, '&', 0)
    &&& if is_turn_rule(k) {
        q[0] == '\n'
    } else {
        absent_from(q, '\n', 0) && (q[0] == '<' || q[0] == '[')
    }
}

/// The shape of replacement `k`: non-empty, without `<` or `[`, starting
/// with a line feed for a turn rule and else with `&` and holding no line feed.
pub open spec fn rep_facts(k: int) -> bool {
    let r = rule(k).1;
    &&& r.len() > 0
    &&& absent_from(r, '<', 0)
    &&& absent_from(r, '[', 0)
    &&& if is_turn_rule(k) {
        r[0] == '\n'
    } else {
        r[0] == '&' && absent_from(r, '\n', 0)
    }
}

/// Every token and replacement has its shape: each branch reads one
/// rule's two literals.
proof fn lemma_rule_facts(k: int)
    requires
        0 <= k < 46,
    ensures
        token_facts(k),
        rep_facts(k),
{
    reveal_with_fuel(absent_from, 34);
    if k == 0 {
        reveal_strlit("<|im_start|>");
        reveal_strlit("&lt;|im_start|&gt;");
    } else if k == 1 {
        reveal_strlit("<|im_end|>");
        reveal_strlit("&lt;|im_end|&gt;");
    } else if k == 2 {
        reveal_strlit("<|endoftext|>");
        reveal_strlit("&lt;|endoftext|&gt;");
    } else if k == 3 {
        reveal_strlit("<|start_header_id|>");
        reveal_strlit("&lt;|start_header_id|&gt;");
    } else if k == 4 {
        reveal_strlit("<|end_header_id|>");
        reveal_strlit("&lt;|end_header_id|&gt;");
    } else if k == 5 {
        reveal_strlit("<|eot_id|>");
        reveal_strlit("&lt;|eot_id|&gt;");
    } else if k == 6 {
        reveal_strlit("<tool_call>");
        reveal_strlit("&lt;tool_call&gt;");
    } else if k == 7 {
        reveal_strlit("</tool_call>");
        reveal_strlit("&lt;/tool_call&gt;");
    } else if k == 8 {
        reveal_strlit("<tool_response>");
        reveal_strlit("&lt;tool_response&gt;");
    } else if k == 9 {
        reveal_strlit("</tool_response>");
        reveal_strlit("&lt;/tool_response&gt;");
    } else if k == 10 {
        reveal_strlit("[INST]");
        reveal_strlit("&#91;INST&#93;");
    } else if k == 11 {
        reveal_strlit("[/INST]");
        reveal_strlit("&#91;/INST&#93;");
    } else if k == 12 {
        reveal_strlit("<<SYS>>");
        reveal_strlit("&lt;&lt;SYS&gt;&gt;");
    } else if k == 13 {
        reveal_strlit("<</SYS>>");
        reveal_strlit("&lt;&lt;/SYS&gt;&gt;");
    } else if k == 14 {
        reveal_strlit("<start_of_turn>");
        reveal_strlit("&lt;start_of_turn&gt;");
    } else if k == 15 {
        reveal_strlit("<end_of_turn>");
        reveal_strlit("&lt;end_of_turn&gt;");
    } else if k == 16 {
        reveal_strlit("<think>");
        reveal_strlit("&lt;think&gt;");
    } else if k == 17 {
        reveal_strlit("</think>");
        reveal_strlit("&lt;/think&gt;");
    } else if k == 18 {
        reveal_strlit("<untrusted_tool_output>");
        reveal_strlit("&lt;untrusted_tool_output&gt;");
    } else if k == 19 {
        reveal_strlit("</untrusted_tool_output>");
        reveal_strlit("&lt;/untrusted_tool_output&gt;");
    } else if k == 20 {
        reveal_strlit("<untrusted_content>");
        reveal_strlit("&lt;untrusted_content&gt;");
    } else if k == 21 {
        reveal_strlit("</untrusted_content>");
        reveal_strlit("&lt;/untrusted_content&gt;");
    } else if k == 22 {
        reveal_strlit("<tool_output_quarantine>");
        reveal_strlit("&lt;tool_output_quarantine&gt;");
    } else if k == 23 {
        reveal_strlit("</tool_output_quarantine>");
        reveal_strlit("&lt;/tool_output_quarantine&gt;");
    } else if k == 24 {
        reveal_strlit("<｜begin▁of▁sentence｜>");
        reveal_strlit("&lt;｜begin▁of▁sentence｜&gt;");
    } else if k == 25 {
        reveal_strlit("<｜end▁of▁sentence｜>");
        reveal_strlit("&lt;｜end▁of▁sentence｜&gt;");
    } else if k == 26 {
        reveal_strlit("<｜User｜>");
        reveal_strlit("&lt;｜User｜&gt;");
    } else if k == 27 {
        reveal_strlit("<｜Assistant｜>");
        reveal_strlit("&lt;｜Assistant｜&gt;");
    } else if k == 28 {
        reveal_strlit("<｜tool▁calls▁begin｜>");
        reveal_strlit("&lt;｜tool▁calls▁begin｜&gt;");
    } else if k == 29 {
        reveal_strlit("<|user|>");
        reveal_strlit("&lt;|user|&gt;");
    } else if k == 30 {
        reveal_strlit("<|assistant|>");
        reveal_strlit("&lt;|assistant|&gt;");
    } else if k == 31 {
        reveal_strlit("<|system|>");
        reveal_strlit("&lt;|system|&gt;");
    } else if k == 32 {
        reveal_strlit("<|end|>");
        reveal_strlit("&lt;|end|&gt;");
    } else if k == 33 {
        reveal_strlit("<|START_OF_TURN_TOKEN|>");
        reveal_strlit("&lt;|START_OF_TURN_TOKEN|&gt;");
    } else if k == 34 {
        reveal_strlit("<|END_OF_TURN_TOKEN|>");
        reveal_strlit("&lt;|END_OF_TURN_TOKEN|&gt;");
    } else if k == 35 {
        reveal_strlit("[TOOL_CALLS]");
        reveal_strlit("&#91;TOOL_CALLS&#93;");
    } else if k == 36 {
        reveal_strlit("[AVAILABLE_TOOLS]");
        reveal_strlit("&#91;AVAILABLE_TOOLS&#93;");
    } else if k == 37 {
        reveal_strlit("[/TOOL_CALLS]");
        reveal_strlit("&#91;/TOOL_CALLS&#93;");
    } else if k == 38 {
        reveal_strlit("[/AVAILABLE_TOOLS]");
        reveal_strlit("&#91;/AVAILABLE_TOOLS&#93;");
    } else if k == 39 {
        reveal_strlit("\n\nHuman:");
        reveal_strlit("\n\nHuman&#58;");
    } else if k == 40 {
        reveal_strlit("\n\nAssistant:");
        reveal_strlit("\n\nAssistant&#58;");
    } else if k == 41 {
        reveal_strlit("<role>");
        reveal_strlit("&lt;role&gt;");
    } else if k == 42 {
        reveal_strlit("</role>");
        reveal_strlit("&lt;/role&gt;");
    } else if k == 43 {
        reveal_strlit("<|role_end|>");
        reveal_strlit("&lt;|role_end|&gt;");
    } else if k == 44 {
        reveal_strlit("<|channel|>");
        reveal_strlit("&lt;|channel|&gt;");
    } else if k == 45 {
        reveal_strlit("<|message|>");
        reveal_strlit("&lt;|message|&gt;");
    }
}

proof fn lemma_no_start_by_first(q: Seq<char>, r: Seq<char>)
    requires
        q.len() > 0,
        forall|t: int| 0 <= t < r.len() ==> r[t] != q[0],
    ensures
        no_start_within(q, r),
{
    assert forall|t: int| 0 <= t < r.len() implies !#[trigger] agree(r.skip(t), q) by {
        let n = if r.skip(t).len() <= q.len() {
            r.skip(t).len()
        } else {
            q.len()
        };
        assert(r.skip(t).take(n as int)[0] == r[t]);
        assert(q.take(n as int)[0] == q[0]);
    }
}

proof fn lemma_no_run_by_first(q: Seq<char>, r: Seq<char>)
    requires
        r.len() > 0,
        forall|t: int| 1 <= t < q.len() ==> q[t] != r[0],
    ensures
        no_run_into(q, r),
{
    assert forall|t: int| 1 <= t < q.len() implies !#[trigger] agree(q.skip(t), r) by {
        let n = if q.skip(t).len() <= r.len() {
            q.skip(t).len()
        } else {
            r.len()
        };
        assert(q.skip(t).take(n as int)[0] == q[t]);
        assert(r.take(n as int)[0] == r[0]);
    }
}

proof fn lemma_turn_pair(k: int, kk: int)
    requires
        is_turn_rule(k),
        is_turn_rule(kk),
    ensures
        no_start_within(rule(k).0, rule(kk).1),
        no_run_into(rule(k).0, rule(kk).1),
{
    reveal_strlit("\n\nHuman:");
    reveal_strlit("\n\nHuman&#58;");
    reveal_strlit("\n\nAssistant:");
    reveal_strlit("\n\nAssistant&#58;");
    let q = rule(k).0;
    let r = rule(kk).1;
    assert(q.len() >= 8 && r.len() >= 12);
    assert forall|t: int| 0 <= t < r.len() implies !#[trigger] agree(r.skip(t), q) by {
        let n = if r.skip(t).len() <= q.len() {
            r.skip(t).len()
        } else {
            q.len()
        };
        if t == 0 {
            if q[2] == r[2] {
                assert(r.skip(t).take(n as int)[q.len() - 1] != q.take(n as int)[q.len() - 1]);
            } else {
                assert(r.skip(t).take(n as int)[2] != q.take(n as int)[2]);
            }
        } else if t == 1 {
            assert(r.skip(t).take(n as int)[1] != q.take(n as int)[1]);
        } else {
            assert(r[t] != '\n');
            assert(r.skip(t).take(n as int)[0] != q.take(n as int)[0]);
        }
    }
    assert forall|t: int| 1 <= t < q.len() implies !#[trigger] agree(q.skip(t), r) by {
        let n = if q.skip(t).len() <= r.len() {
            q.skip(t).len()
        } else {
            r.len()
        };
        if t == 1 {
            assert(q.skip(t).take(n as int)[1] != r.take(n as int)[1]);
        } else {
            assert(q[t] != '\n');
            assert(q.skip(t).take(n as int)[0] != r.take(n as int)[0]);
        }
    }
}

/// Replacement `kk` can neither continue nor contain the start of token `k`.
proof fn lemma_rule_pair(k: int, kk: int)
    requires
        0 <= k < 46,
        0 <= kk < 46,
    ensures
        no_start_within(rule(k).0, rule(kk).1),
        no_run_into(rule(k).0, rule(kk).1),
{
    lemma_rule_facts(k);
    lemma_rule_facts(kk);
    let q = rule(k).0;
    let r = rule(kk).1;
    lemma_absent(q, '&', 0);
    lemma_absent(r, '<', 0);
    lemma_absent(r, '[', 0);
    if is_turn_rule(k) && is_turn_rule(kk) {
        lemma_turn_pair(k, kk);
    } else {
        if !is_turn_rule(k) {
            lemma_absent(q, '\n', 0);
        }
        if !is_turn_rule(kk) {
            lemma_absent(r, '\n', 0);
        }
        lemma_no_start_by_first(q, r);
        lemma_no_run_by_first(q, r);
    }
}

/// After the first `kk` rules, none of their tokens is left.
pub proof fn lemma_apply_rules_clean(s: Seq<char>, kk: nat)
    requires
        kk <= 46,
    ensures
        forall|k: int| 0 <= k < kk ==> !#[trigger] contains_seq(apply_rules(s, kk), rule(k).0),
    decreases kk,
{
    if kk > 0 {
        let j = (kk - 1) as nat;
        lemma_apply_rules_clean(s, j);
        let prev = apply_rules(s, j);
        lemma_rule_facts(j as int);
        assert forall|k: int| 0 <= k < kk implies !#[trigger] contains_seq(apply_rules(s, kk), rule(k).0) by {
            lemma_rule_facts(k);
            lemma_rule_pair(k, j as int);
            if k == j {
                lemma_replace_removes(prev, rule(k).0, rule(k).1);
            } else {
                lemma_replace_keeps_absent(prev, rule(j as int).0, rule(j as int).1, rule(k).0);
            }
        }
    }
}

/// The escaped text is at least as long as the text.
proof fn lemma_sanitize_len(s: Seq<char>, i: int)
    requires
        0 <= i,
    ensures
        sanitize_from(s, i).len() >= s.len() - i,
    decreases s.len() - i,
{
    reveal_strlit("&lt;");
    reveal_strlit("&gt;");
    if i < s.len() {
        lemma_tag_match(s, i, TOOL_OUTPUT_QUARANTINE_TAG@);
        if s[i] == '<' && tag_match(s, i, TOOL_OUTPUT_QUARANTINE_TAG@) is Some {
            let a = tag_match(s, i, TOOL_OUTPUT_QUARANTINE_TAG@)->0;
            let j = scan_close(s, a);
            lemma_scan_close(s, a);
            if j < s.len() && s[j] == '>' {
                lemma_sanitize_len(s, j + 1);
                assert(sanitize_from(s, i) == "&lt;"@ + s.subrange(i + 1, j) + "&gt;"@ + sanitize_from(s, j + 1));
            } else {
                lemma_sanitize_len(s, i + 1);
                assert(sanitize_from(s, i) == "&lt;"@ + sanitize_from(s, i + 1));
            }
        } else {
            lemma_sanitize_len(s, i + 1);
            assert(sanitize_from(s, i) == seq![s[i]] + sanitize_from(s, i + 1));
        }
    }
}

/// The escaped text starts as the text does, or holds an `&` within its
/// first `l` characters, the first one standing where the text has a `<`.
proof fn lemma_sanitize_prefix(s: Seq<char>, i: int, l: int)
    requires
        0 <= i <= s.len(),
        0 <= l <= sanitize_from(s, i).len(),
    ensures
        (i + l <= s.len() && sanitize_from(s, i).take(l) == s.subrange(i, i + l)) || exists|c: int|
            0 <= c < l && i + c < s.len() && #[trigger] sanitize_from(s, i)[c] == '&' && s[i + c] == '<'
                && sanitize_from(s, i).take(c) == s.subrange(i, i + c),
    decreases s.len() - i,
{
    let out = sanitize_from(s, i);
    if i >= s.len() {
        assert(out.take(l) =~= s.subrange(i, i + l));
    } else if s[i] == '<' && tag_match(s, i, TOOL_OUTPUT_QUARANTINE_TAG@) is Some {
        reveal_strlit("&lt;");
        if l > 0 {
            assert(out[0] == '&');
            assert(out.take(0) =~= s.subrange(i, i));
        } else {
            assert(out.take(0) =~= s.subrange(i, i));
        }
    } else {
        let rest = sanitize_from(s, i + 1);
        assert(out == seq![s[i]] + rest);
        if l > 0 {
            lemma_sanitize_prefix(s, i + 1, l - 1);
            if i + 1 + (l - 1) <= s.len() && rest.take(l - 1) == s.subrange(i + 1, i + 1 + (l - 1)) {
                assert forall|k: int| 0 <= k < l implies out.take(l)[k] == s.subrange(i, i + l)[k] by {
                    if k > 0 {
                        assert(rest.take(l - 1)[k - 1] == s.subrange(i + 1, i + l)[k - 1]);
                    }
                }
                assert(out.take(l) =~= s.subrange(i, i + l));
            } else {
                let c = choose|c: int| 0 <= c < l - 1 && i + 1 + c < s.len() && #[trigger] rest[c] == '&' && s[i + 1 + c] == '<'
                    && rest.take(c) == s.subrange(i + 1, i + 1 + c);
                assert(out[c + 1] == '&');
                assert forall|k: int| 0 <= k < c + 1 implies #[trigger] out.take(c + 1)[k] == s.subrange(i, i + c + 1)[k] by {
                    if k > 0 {
                        assert(rest.take(c)[k - 1] == s.subrange(i + 1, i + 1 + c)[k - 1]);
                    }
                }
                assert(out.take(c + 1) =~= s.subrange(i, i + c + 1));
            }
        } else {
            assert(out.take(0) =~= s.subrange(i, i));
        }
    }
}

/// Whether `q` can be neither part of an inserted entity nor run into one:
/// it holds no `&` and does not start with a letter of `&lt;` or `&gt;`.
pub open spec fn entity_free(q: Seq<char>) -> bool {
    &&& q.len() > 0
    &&& forall|t: int| 0 <= t < q.len() ==> q[t] != '&'
    &&& q[0] != 'l' && q[0] != 't' && q[0] != 'g' && q[0] != ';'
}

/// An occurrence of an entity-free `q` in the escaped text was already in the text.
proof fn lemma_sanitize_origin(s: Seq<char>, i: int, q: Seq<char>, m: int)
    requires
        0 <= i,
        entity_free(q),
        occurs_at(sanitize_from(s, i), q, m),
    ensures
        contains_seq(s, q),
    decreases s.len() - i,
{
    reveal_strlit("&lt;");
    reveal_strlit("&gt;");
    let out = sanitize_from(s, i);
    if i >= s.len() {
    } else if s[i] == '<' && tag_match(s, i, TOOL_OUTPUT_QUARANTINE_TAG@) is Some {
        let a = tag_match(s, i, TOOL_OUTPUT_QUARANTINE_TAG@)->0;
        let j = scan_close(s, a);
        lemma_tag_match(s, i, TOOL_OUTPUT_QUARANTINE_TAG@);
        lemma_scan_close(s, a);
        assert(out.subrange(m, m + q.len())[0] == q[0]);
        if j < s.len() && s[j] == '>' {
            let mid = s.subrange(i + 1, j);
            let rest = sanitize_from(s, j + 1);
            assert(out == "&lt;"@ + mid + "&gt;"@ + rest);
            if m < 4 {
                assert(out[m] == q[0]);
            } else if m < 4 + mid.len() {
                if m + q.len() <= 4 + mid.len() {
                    assert(s.subrange(i + 1 + (m - 4), i + 1 + (m - 4) + q.len()) =~= out.subrange(m, m + q.len()));
                    assert(occurs_at(s, q, i + 1 + (m - 4)));
                } else {
                    let d = 4 + mid.len() - m;
                    assert(out.subrange(m, m + q.len())[d] == out[4int + mid.len()]);
                    assert(out[4int + mid.len()] == '&');
                }
            } else if m < 8 + mid.len() {
                assert(out[m] == q[0]);
            } else {
                assert(rest.subrange(m - 8 - mid.len(), m - 8 - mid.len() + q.len()) =~= out.subrange(m, m + q.len()));
                lemma_sanitize_origin(s, j + 1, q, m - 8 - mid.len());
            }
        } else {
            let rest = sanitize_from(s, i + 1);
            assert(out == "&lt;"@ + rest);
            if m < 4 {
                assert(out[m] == q[0]);
            } else {
                assert(rest.subrange(m - 4, m - 4 + q.len()) =~= out.subrange(m, m + q.len()));
                lemma_sanitize_origin(s, i + 1, q, m - 4);
            }
        }
    } else {
        let rest = sanitize_from(s, i + 1);
        assert(out == seq![s[i]] + rest);
        if m >= 1 {
            assert(rest.subrange(m - 1, m - 1 + q.len()) =~= out.subrange(m, m + q.len()));
            lemma_sanitize_origin(s, i + 1, q, m - 1);
        } else {
            let l = q.len() - 1;
            lemma_sanitize_prefix(s, i + 1, l);
            if i + 1 + l <= s.len() && rest.take(l) == s.subrange(i + 1, i + 1 + l) {
                assert forall|k: int| 0 <= k < q.len() implies s.subrange(i, i + q.len())[k] == q[k] by {
                    assert(out.subrange(0, q.len() as int)[k] == q[k]);
                    if k > 0 {
                        assert(rest.take(l)[k - 1] == s.subrange(i + 1, i + 1 + l)[k - 1]);
                    }
                }
                assert(s.subrange(i, i + q.len()) =~= q);
                assert(occurs_at(s, q, i));
            } else {
                let c = choose|c: int| 0 <= c < l && i + 1 + c < s.len() && #[trigger] rest[c] == '&' && s[i + 1 + c] == '<'
                    && rest.take(c) == s.subrange(i + 1, i + 1 + c);
                assert(out.subrange(0, q.len() as int)[c + 1] == out[c + 1]);
            }
        }
    }
}

/// Escaping quarantine tags creates no entity-free token that was not there.
pub proof fn lemma_sanitize_keeps_absent(s: Seq<char>, q: Seq<char>)
    requires
        entity_free(q),
        !contains_seq(s, q),
    ensures
        !contains_seq(sanitize_from(s, 0), q),
{
    if contains_seq(sanitize_from(s, 0), q) {
        let m = choose|m: int| occurs_at(sanitize_from(s, 0), q, m);
        lemma_sanitize_origin(s, 0, q, m);
    }
}

/// A character that stops every step of reading a tag: no whitespace, no
/// `/`, no name character, and unequal to every letter of the tag.
pub open spec fn inert(c: char) -> bool {
    c == '&' || c == '<'
}

proof fn lemma_tag_letters()
    ensures
        forall|j: int| 0 <= j < TOOL_OUTPUT_QUARANTINE_TAG@.len() ==> {
            &&& lower(TOOL_OUTPUT_QUARANTINE_TAG@[j] as u32) != lower('&' as u32)
            &&& lower(TOOL_OUTPUT_QUARANTINE_TAG@[j] as u32) != lower('<' as u32)
        },
{
    let t = TOOL_OUTPUT_QUARANTINE_TAG@;
    reveal_strlit("tool_output_quarantine");
    reveal_with_fuel(absent_from, 24);
    assert(absent_from(t, '&', 0) && absent_from(t, '<', 0));
    lemma_absent(t, '&', 0);
    lemma_absent(t, '<', 0);
    assert forall|j: int| 0 <= j < t.len() implies lower(t[j] as u32) != lower('&' as u32) && lower(t[j] as u32) != lower('<' as u32) by {
        assert(t[j] != '&' && t[j] != '<');
        assert(('&' as u32) == 38 && ('<' as u32) == 60);
    }
}

/// Whitespace skipping reads the same on two texts that agree for `d`
/// characters and then both end or both hold an inert character.
proof fn lemma_skip_ws_congruent(x: Seq<char>, px: int, y: Seq<char>, py: int, d: int, k: int)
    requires
        0 <= px,
        0 <= py,
        0 <= k <= d,
        forall|e: int| 0 <= e < d ==> px + e < x.len() && py + e < y.len() && #[trigger] x[px + e] == y[py + e],
        (px + d == x.len() && py + d == y.len()) || (px + d < x.len() && py + d < y.len() && inert(x[px + d])
            && inert(y[py + d])),
    ensures
        skip_ws(x, px + k) - px == skip_ws(y, py + k) - py,
        skip_ws(x, px + k) - px <= d,
    decreases d - k,
{
    if k < d {
        assert(x[px + k] == y[py + k]);
        if ascii_ws(x[px + k]) {
            lemma_skip_ws_congruent(x, px, y, py, d, k + 1);
        }
    }
}

/// Reading a tag after the `<` gives the same verdict on two texts that
/// agree for `d` characters after it and then both end or both hold an
/// inert character.
proof fn lemma_tag_congruent(x: Seq<char>, px: int, y: Seq<char>, py: int, d: int)
    requires
        1 <= px,
        1 <= py,
        0 <= d,
        forall|e: int| 0 <= e < d ==> px + e < x.len() && py + e < y.len() && #[trigger] x[px + e] == y[py + e],
        (px + d == x.len() && py + d == y.len()) || (px + d < x.len() && py + d < y.len() && inert(x[px + d])
            && inert(y[py + d])),
    ensures
        tag_match(x, px - 1, TOOL_OUTPUT_QUARANTINE_TAG@) is Some <==> tag_match(y, py - 1, TOOL_OUTPUT_QUARANTINE_TAG@) is Some,
{
    let t = TOOL_OUTPUT_QUARANTINE_TAG@;
    lemma_tag_letters();
    lemma_skip_ws_congruent(x, px, y, py, d, 0);
    lemma_skip_ws(x, px);
    let o0 = skip_ws(x, px) - px;
    if o0 < d {
        assert(x[px + o0] == y[py + o0]);
    }
    assert(skip_ws(x, px - 1 + 1) == skip_ws(x, px));
    assert(skip_ws(y, py - 1 + 1) == skip_ws(y, py));
    let o1 = if o0 < d && x[px + o0] == '/' {
        lemma_skip_ws_congruent(x, px, y, py, d, o0 + 1);
        lemma_skip_ws(x, px + o0 + 1);
        skip_ws(x, px + o0 + 1) - px
    } else {
        if o0 < d {
            assert(x[px + o0] == y[py + o0]);
        }
        o0
    };
    assert(tag_name_start(x, px - 1) == px + o1);
    assert(tag_name_start(y, py - 1) == py + o1);
    assert(0 <= o1 <= d);
    let o2 = o1 + t.len();
    let ax = px + o2;
    let ay = py + o2;
    if o2 <= d {
        assert(x.subrange(px + o1, ax) =~= y.subrange(py + o1, ay)) by {
            assert forall|e: int| 0 <= e < t.len() implies #[trigger] x.subrange(px + o1, ax)[e] == y.subrange(py + o1, ay)[e] by {
                assert(x[px + (o1 + e)] == y[py + (o1 + e)]);
            }
        }
        if o2 < d {
            assert(x[px + o2] == y[py + o2]);
        }
    } else {
        if px + d < x.len() {
            if ax <= x.len() {
                assert(!eq_ignore_case(x.subrange(px + o1, ax), t)) by {
                    assert(x.subrange(px + o1, ax)[d - o1] == x[px + d]);
                }
            }
            if ay <= y.len() {
                assert(!eq_ignore_case(y.subrange(py + o1, ay), t)) by {
                    assert(y.subrange(py + o1, ay)[d - o1] == y[py + d]);
                }
            }
        }
    }
}

/// The text after `i` up to the end of the tag read there holds no `<`.
proof fn lemma_tag_span_no_lt(s: Seq<char>, i: int)
    requires
        0 <= i < s.len(),
        tag_match(s, i, TOOL_OUTPUT_QUARANTINE_TAG@) is Some,
    ensures
        forall|k: int| i + 1 <= k < scan_close(s, tag_match(s, i, TOOL_OUTPUT_QUARANTINE_TAG@)->0) ==> s[k] != '<',
{
    let t = TOOL_OUTPUT_QUARANTINE_TAG@;
    let a = tag_match(s, i, t)->0;
    lemma_tag_match(s, i, t);
    lemma_tag_letters();
    lemma_skip_ws_span(s, i + 1);
    let p0 = skip_ws(s, i + 1);
    if 0 <= p0 < s.len() && s[p0] == '/' {
        lemma_skip_ws_span(s, p0 + 1);
    }
    let p = tag_name_start(s, i);
    lemma_scan_close_span(s, a);
    assert forall|k: int| i + 1 <= k < scan_close(s, a) implies s[k] != '<' by {
        if p <= k < a {
            assert(s.subrange(p, a)[k - p] == s[k]);
            assert(lower(s[k] as u32) == lower(t[k - p] as u32));
            assert(('<' as u32) == 60);
        }
    }
}

proof fn lemma_skip_ws_at(s: Seq<char>, pos: int, k: int)
    requires
        0 <= pos <= k < skip_ws(s, pos),
    ensures
        0 <= k < s.len(),
        ascii_ws(s[k]),
    decreases k - pos,
{
    if 0 <= pos < s.len() && ascii_ws(s[pos]) {
        if k > pos {
            lemma_skip_ws_at(s, pos + 1, k);
        }
    }
}

proof fn lemma_skip_ws_span(s: Seq<char>, pos: int)
    requires
        0 <= pos,
    ensures
        skip_ws(s, pos) == pos || skip_ws(s, pos) <= s.len(),
        forall|k: int| pos <= k < skip_ws(s, pos) ==> ascii_ws(#[trigger] s[k]),
{
    assert forall|k: int| pos <= k < skip_ws(s, pos) implies ascii_ws(#[trigger] s[k]) by {
        lemma_skip_ws_at(s, pos, k);
    }
    if skip_ws(s, pos) > pos {
        lemma_skip_ws_at(s, pos, skip_ws(s, pos) - 1);
    }
}

proof fn lemma_scan_close_at(s: Seq<char>, j: int, k: int)
    requires
        0 <= j <= k < scan_close(s, j),
    ensures
        0 <= k < s.len(),
        s[k] != '<',
        s[k] != '>',
    decreases k - j,
{
    if 0 <= j < s.len() && s[j] != '>' && s[j] != '<' {
        if k > j {
            lemma_scan_close_at(s, j + 1, k);
        }
    }
}

proof fn lemma_scan_close_span(s: Seq<char>, j: int)
    requires
        0 <= j,
    ensures
        scan_close(s, j) == j || scan_close(s, j) <= s.len(),
        forall|k: int| j <= k < scan_close(s, j) ==> #[trigger] s[k] != '<' && s[k] != '>',
{
    assert forall|k: int| j <= k < scan_close(s, j) implies #[trigger] s[k] != '<' && s[k] != '>' by {
        lemma_scan_close_at(s, j, k);
    }
    if scan_close(s, j) > j {
        lemma_scan_close_at(s, j, scan_close(s, j) - 1);
    }
}

/// Every `<` of the escaped text is a `<` of the text that starts no tag,
/// followed by the escaping of what follows it.
#[verifier::rlimit(60)]
proof fn lemma_lt_origin(s: Seq<char>, i0: int, m: int)
    requires
        0 <= i0,
        0 <= m < sanitize_from(s, i0).len(),
        sanitize_from(s, i0)[m] == '<',
    ensures
        exists|i: int| i0 <= i < s.len() && s[i] == '<' && tag_match(s, i, TOOL_OUTPUT_QUARANTINE_TAG@) is None
            && #[trigger] sanitize_from(s, i0).skip(m + 1) == sanitize_from(s, i + 1),
    decreases s.len() - i0,
{
    reveal_strlit("&lt;");
    reveal_strlit("&gt;");
    let out = sanitize_from(s, i0);
    if i0 >= s.len() {
    } else if s[i0] == '<' && tag_match(s, i0, TOOL_OUTPUT_QUARANTINE_TAG@) is Some {
        let a = tag_match(s, i0, TOOL_OUTPUT_QUARANTINE_TAG@)->0;
        let j = scan_close(s, a);
        lemma_tag_match(s, i0, TOOL_OUTPUT_QUARANTINE_TAG@);
        lemma_scan_close(s, a);
        if j < s.len() && s[j] == '>' {
            let mid = s.subrange(i0 + 1, j);
            let rest = sanitize_from(s, j + 1);
            assert(out == "&lt;"@ + mid + "&gt;"@ + rest);
            if m < 4 {
                assert(out[m] != '<');
            } else if m < 4 + mid.len() {
                lemma_tag_span_no_lt(s, i0);
                assert(out[m] == s[i0 + 1 + (m - 4)]);
            } else if m < 8 + mid.len() {
                assert(out[m] != '<');
            } else {
                let m2 = m - 8 - mid.len();
                assert(rest[m2] == out[m]);
                lemma_lt_origin(s, j + 1, m2);
                assert(out.skip(m + 1) =~= rest.skip(m2 + 1));
            }
        } else {
            let rest = sanitize_from(s, i0 + 1);
            assert(out == "&lt;"@ + rest);
            if m < 4 {
                assert(out[m] != '<');
            } else {
                assert(rest[m - 4] == out[m]);
                lemma_lt_origin(s, i0 + 1, m - 4);
                assert(out.skip(m + 1) =~= rest.skip(m - 4 + 1));
            }
        }
    } else {
        let rest = sanitize_from(s, i0 + 1);
        assert(out == seq![s[i0]] + rest);
        if m == 0 {
            assert(out.skip(1) =~= rest);
        } else {
            assert(rest[m - 1] == out[m]);
            lemma_lt_origin(s, i0 + 1, m - 1);
            assert(out.skip(m + 1) =~= rest.skip(m - 1 + 1));
        }
    }
}

/// Escaping leaves no quarantine tag behind.
pub proof fn lemma_sanitize_no_breakout(s: Seq<char>)
    ensures
        !has_breakout(sanitize_from(s, 0)),
{
    let out = sanitize_from(s, 0);
    if has_breakout(out) {
        let p = choose|p: int| breakout_at(out, p);
        lemma_lt_origin(s, 0, p);
        let i = choose|i: int| 0 <= i < s.len() && s[i] == '<' && tag_match(s, i, TOOL_OUTPUT_QUARANTINE_TAG@) is None
            && #[trigger] sanitize_from(s, 0).skip(p + 1) == sanitize_from(s, i + 1);
        let z = sanitize_from(s, i + 1);
        lemma_sanitize_len(s, i + 1);
        lemma_sanitize_prefix(s, i + 1, z.len() as int);
        if i + 1 + z.len() <= s.len() && z.take(z.len() as int) == s.subrange(i + 1, i + 1 + z.len()) {
            assert forall|e: int| 0 <= e < z.len() implies p + 1 + e < out.len() && i + 1 + e < s.len() && #[trigger] out[p + 1 + e] == s[i + 1 + e] by {
                assert(z[e] == out[p + 1 + e]);
                assert(z.take(z.len() as int)[e] == s.subrange(i + 1, i + 1 + z.len())[e]);
            }
            lemma_tag_congruent(out, p + 1, s, i + 1, z.len() as int);
        } else {
            let c = choose|c: int| 0 <= c < z.len() && i + 1 + c < s.len() && #[trigger] z[c] == '&' && s[i + 1 + c] == '<'
                && z.take(c) == s.subrange(i + 1, i + 1 + c);
            assert forall|e: int| 0 <= e < c implies p + 1 + e < out.len() && i + 1 + e < s.len() && #[trigger] out[p + 1 + e] == s[i + 1 + e] by {
                assert(z[e] == out[p + 1 + e]);
                assert(z.take(c)[e] == s.subrange(i + 1, i + 1 + c)[e]);
            }
            assert(out[p + 1 + c] == z[c]);
            lemma_tag_congruent(out, p + 1, s, i + 1, c);
        }
    }
}

/// Every token is free of entities.
proof fn lemma_token_entity_free(k: int)
    requires
        0 <= k < 46,
    ensures
        entity_free(rule(k).0),
{
    lemma_rule_facts(k);
    lemma_absent(rule(k).0, '&', 0);
}

/// The neutralized text holds no control token and no quarantine tag.
pub proof fn law_neutralized_clean(s: Seq<char>)
    ensures
        clean(neutralized(s)),
{
    let r = apply_rules(s, DELIMITER_RULE_COUNT as nat);
    lemma_apply_rules_clean(s, 46);
    if has_breakout(r) {
        lemma_sanitize_no_breakout(r);
        assert forall|k: int| 0 <= k < DELIMITER_RULE_COUNT implies !#[trigger] contains_seq(neutralized(s), rule(k).0) by {
            lemma_token_entity_free(k);
            lemma_sanitize_keeps_absent(r, rule(k).0);
        }
    }
}

/// Quarantining always yields a quarantined output, so quarantining twice
/// is the same as quarantining once.
pub proof fn law_quarantine_is_quarantined(s: Seq<char>)
    ensures
        quarantined(quarantine(s)),
        quarantine(quarantine(s)) == quarantine(s),
{
    if !quarantined(s) {
        law_envelope_inner_of_framed(neutralized(s));
        law_neutralized_clean(s);
    }
}

/// Replacing a pattern that does not occur changes nothing.
proof fn lemma_replace_absent(s: Seq<char>, p: Seq<char>, r: Seq<char>)
    requires
        !contains_seq(s, p),
    ensures
        replace_all(s, p, r) == s,
    decreases s.len(),
{
    if p.len() == 0 || s.len() < p.len() {
    } else {
        assert(s.take(p.len() as int) != p) by {
            if s.take(p.len() as int) == p {
                assert(s.subrange(0, p.len() as int) =~= s.take(p.len() as int));
                assert(occurs_at(s, p, 0));
            }
        }
        let t = s.skip(1);
        assert(!contains_seq(t, p)) by {
            if contains_seq(t, p) {
                let i = choose|i: int| occurs_at(t, p, i);
                assert(s.subrange(i + 1, i + 1 + p.len()) =~= t.subrange(i, i + p.len()));
                assert(occurs_at(s, p, i + 1));
            }
        }
        lemma_replace_absent(t, p, r);
        assert(seq![s[0]] + t =~= s);
    }
}

/// Text that holds none of the first `kk` tokens is left as it is by them.
proof fn lemma_apply_rules_fixed(c: Seq<char>, kk: nat)
    requires
        kk <= 46,
        forall|k: int| 0 <= k < 46 ==> !#[trigger] contains_seq(c, rule(k).0),
    ensures
        apply_rules(c, kk) == c,
    decreases kk,
{
    if kk > 0 {
        lemma_apply_rules_fixed(c, (kk - 1) as nat);
        let k = kk - 1;
        assert(!contains_seq(c, rule(k).0));
        lemma_replace_absent(c, rule(k).0, rule(k).1);
    }
}

/// Neutralizing is idempotent: the neutralized text is neutralized again
/// to itself.
pub proof fn law_neutralize_idempotent(s: Seq<char>)
    ensures
        neutralized(neutralized(s)) == neutralized(s),
{
    let n = neutralized(s);
    law_neutralized_clean(s);
    assert forall|k: int| 0 <= k < 46 implies !#[trigger] contains_seq(n, rule(k).0) by {
        assert(!contains_seq(n, rule(k).0));
    }
    lemma_apply_rules_fixed(n, 46);
}

/// Whether `s` holds no `<`, no `[` and no blank line (two line feeds in a
/// row): the text that no control token or quarantine tag can occur in.
pub open spec fn ordinary(s: Seq<char>) -> bool {
    &&& forall|i: int| 0 <= i < s.len() ==> #[trigger] s[i] != '<' && s[i] != '['
    &&& forall|i: int| 0 <= i < s.len() - 1 ==> !(#[trigger] s[i] == '\n' && s[i + 1] == '\n')
}

proof fn lemma_turn_tokens()
    ensures
        rule(39).0.len() > 1 && rule(39).0[1] == '\n',
        rule(40).0.len() > 1 && rule(40).0[1] == '\n',
{
    reveal_strlit("\n\nHuman:");
    reveal_strlit("\n\nAssistant:");
}

/// Ordinary text comes back unchanged from neutralization.
pub proof fn law_neutralize_keeps_ordinary(s: Seq<char>)
    requires
        ordinary(s),
    ensures
        neutralized(s) == s,
{
    lemma_turn_tokens();
    assert forall|k: int| 0 <= k < 46 implies !#[trigger] contains_seq(s, rule(k).0) by {
        lemma_rule_facts(k);
        let q = rule(k).0;
        if contains_seq(s, q) {
            let i = choose|i: int| occurs_at(s, q, i);
            assert(s.subrange(i, i + q.len())[0] == s[i]);
            if is_turn_rule(k) {
                assert(s.subrange(i, i + q.len())[1] == s[i + 1]);
                assert(s[i] == '\n' && s[i + 1] == '\n');
            } else {
                assert(s[i] == '<' || s[i] == '[');
            }
        }
    }
    lemma_apply_rules_fixed(s, 46);
    assert(!has_breakout(s)) by {
        if has_breakout(s) {
            let p = choose|p: int| breakout_at(s, p);
            assert(s[p] == '<');
        }
    }
}

/// The neutralized text holds none of the documented control tokens, each
/// named here by its literal text.
pub proof fn law_no_control_token_left(s: Seq<char>)
    ensures
        !contains_seq(neutralized(s), "<|im_start|>"@),
        !contains_seq(neutralized(s), "<|im_end|>"@),
        !contains_seq(neutralized(s), "<|endoftext|>"@),
        !contains_seq(neutralized(s), "<|start_header_id|>"@),
        !contains_seq(neutralized(s), "<|end_header_id|>"@),
        !contains_seq(neutralized(s), "<|eot_id|>"@),
        !contains_seq(neutralized(s), "<tool_call>"@),
        !contains_seq(neutralized(s), "</tool_call>"@),
        !contains_seq(neutralized(s), "<tool_response>"@),
        !contains_seq(neutralized(s), "</tool_response>"@),
        !contains_seq(neutralized(s), "[INST]"@),
        !contains_seq(neutralized(s), "[/INST]"@),
        !contains_seq(neutralized(s), "<<SYS>>"@),
        !contains_seq(neutralized(s), "<</SYS>>"@),
        !contains_seq(neutralized(s), "<start_of_turn>"@),
        !contains_seq(neutralized(s), "<end_of_turn>"@),
        !contains_seq(neutralized(s), "<think>"@),
        !contains_seq(neutralized(s), "</think>"@),
        !contains_seq(neutralized(s), "<untrusted_tool_output>"@),
        !contains_seq(neutralized(s), "</untrusted_tool_output>"@),
        !contains_seq(neutralized(s), "<untrusted_content>"@),
        !contains_seq(neutralized(s), "</untrusted_content>"@),
        !contains_seq(neutralized(s), "<tool_output_quarantine>"@),
        !contains_seq(neutralized(s), "</tool_output_quarantine>"@),
        !contains_seq(neutralized(s), "<｜begin▁of▁sentence｜>"@),
        !contains_seq(neutralized(s), "<｜end▁of▁sentence｜>"@),
        !contains_seq(neutralized(s), "<｜User｜>"@),
        !contains_seq(neutralized(s), "<｜Assistant｜>"@),
        !contains_seq(neutralized(s), "<｜tool▁calls▁begin｜>"@),
        !contains_seq(neutralized(s), "<|user|>"@),
        !contains_seq(neutralized(s), "<|assistant|>"@),
        !contains_seq(neutralized(s), "<|system|>"@),
        !contains_seq(neutralized(s), "<|end|>"@),
        !contains_seq(neutralized(s), "<|START_OF_TURN_TOKEN|>"@),
        !contains_seq(neutralized(s), "<|END_OF_TURN_TOKEN|>"@),
        !contains_seq(neutralized(s), "[TOOL_CALLS]"@),
        !contains_seq(neutralized(s), "[AVAILABLE_TOOLS]"@),
        !contains_seq(neutralized(s), "[/TOOL_CALLS]"@),
        !contains_seq(neutralized(s), "[/AVAILABLE_TOOLS]"@),
        !contains_seq(neutralized(s), "\n\nHuman:"@),
        !contains_seq(neutralized(s), "\n\nAssistant:"@),
        !contains_seq(neutralized(s), "<role>"@),
        !contains_seq(neutralized(s), "</role>"@),
        !contains_seq(neutralized(s), "<|role_end|>"@),
        !contains_seq(neutralized(s), "<|channel|>"@),
        !contains_seq(neutralized(s), "<|message|>"@),
{
    let n = neutralized(s);
    law_neutralized_clean(s);
    assert(!contains_seq(n, rule(0).0));
    assert(!contains_seq(n, rule(1).0));
    assert(!contains_seq(n, rule(2).0));
    assert(!contains_seq(n, rule(3).0));
    assert(!contains_seq(n, rule(4).0));
    assert(!contains_seq(n, rule(5).0));
    assert(!contains_seq(n, rule(6).0));
    assert(!contains_seq(n, rule(7).0));
    assert(!contains_seq(n, rule(8).0));
    assert(!contains_seq(n, rule(9).0));
    assert(!contains_seq(n, rule(10).0));
    assert(!contains_seq(n, rule(11).0));
    assert(!contains_seq(n, rule(12).0));
    assert(!contains_seq(n, rule(13).0));
    assert(!contains_seq(n, rule(14).0));
    assert(!contains_seq(n, rule(15).0));
    assert(!contains_seq(n, rule(16).0));
    assert(!contains_seq(n, rule(17).0));
    assert(!contains_seq(n, rule(18).0));
    assert(!contains_seq(n, rule(19).0));
    assert(!contains_seq(n, rule(20).0));
    assert(!contains_seq(n, rule(21).0));
    assert(!contains_seq(n, rule(22).0));
    assert(!contains_seq(n, rule(23).0));
    assert(!contains_seq(n, rule(24).0));
    assert(!contains_seq(n, rule(25).0));
    assert(!contains_seq(n, rule(26).0));
    assert(!contains_seq(n, rule(27).0));
    assert(!contains_seq(n, rule(28).0));
    assert(!contains_seq(n, rule(29).0));
    assert(!contains_seq(n, rule(30).0));
    assert(!contains_seq(n, rule(31).0));
    assert(!contains_seq(n, rule(32).0));
    assert(!contains_seq(n, rule(33).0));
    assert(!contains_seq(n, rule(34).0));
    assert(!contains_seq(n, rule(35).0));
    assert(!contains_seq(n, rule(36).0));
    assert(!contains_seq(n, rule(37).0));
    assert(!contains_seq(n, rule(38).0));
    assert(!contains_seq(n, rule(39).0));
    assert(!contains_seq(n, rule(40).0));
    assert(!contains_seq(n, rule(41).0));
    assert(!contains_seq(n, rule(42).0));
    assert(!contains_seq(n, rule(43).0));
    assert(!contains_seq(n, rule(44).0));
    assert(!contains_seq(n, rule(45).0));
}

} // verus!
