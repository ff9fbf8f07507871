//! Quarantine framing and delimiter neutralization for untrusted tool outputs.
//!
//! Wraps untrusted tool output in a `<tool_output_quarantine>` envelope after
//! neutralizing control tokens, so it cannot inject `ChatML`, Harmony, Llama or
//! `DeepSeek` turn/tool delimiters into the model's token stream. All tags and
//! tokens are ASCII-led, so the scans work on characters.
use vstd::prelude::*;
use vstd::string::*;
use crate::text::{chars_of, chars_slice, contains_chars, contains_seq, push_all, push_str, replace_chars, replace_all, string_from_chars};

verus! {

/// Default XML tag name used for quarantined tool output envelopes.
pub const TOOL_OUTPUT_QUARANTINE_TAG: &'static str = "tool_output_quarantine";

/// Opening tag of a quarantined tool output envelope.
pub const TOOL_OUTPUT_QUARANTINE_OPEN: &'static str = "<tool_output_quarantine>";

/// Closing tag of a quarantined tool output envelope.
pub const TOOL_OUTPUT_QUARANTINE_CLOSE: &'static str = "</tool_output_quarantine>";

/// Opening prefix including trailing newline.
pub const OPEN_FRAME: &'static str = "<tool_output_quarantine>\n";

/// Closing suffix including leading newline.
pub const CLOSE_FRAME: &'static str = "\n</tool_output_quarantine>";

/// Number of well-known control token replacement rules.
pub const DELIMITER_RULE_COUNT: usize = 46;

/// Rule `i` of the well-known LLM control token and role/tool delimiter
/// replacement rules: the token and its neutralized replacement.
pub open spec fn rule(i: int) -> (Seq<char>, Seq<char>) {
    if i == 0 {
        ("<|im_start|>"@, "&lt;|im_start|&gt;"@)
    } else if i == 1 {
        ("<|im_end|>"@, "&lt;|im_end|&gt;"@)
    } else if i == 2 {
        ("<|endoftext|>"@, "&lt;|endoftext|&gt;"@)
    } else if i == 3 {
        ("<|start_header_id|>"@, "&lt;|start_header_id|&gt;"@)
    } else if i == 4 {
        ("<|end_header_id|>"@, "&lt;|end_header_id|&gt;"@)
    } else if i == 5 {
        ("<|eot_id|>"@, "&lt;|eot_id|&gt;"@)
    } else if i == 6 {
        ("<tool_call>"@, "&lt;tool_call&gt;"@)
    } else if i == 7 {
        ("</tool_call>"@, "&lt;/tool_call&gt;"@)
    } else if i == 8 {
        ("<tool_response>"@, "&lt;tool_response&gt;"@)
    } else if i == 9 {
        ("</tool_response>"@, "&lt;/tool_response&gt;"@)
    } else if i == 10 {
        ("[INST]"@, "&#91;INST&#93;"@)
    } else if i == 11 {
        ("[/INST]"@, "&#91;/INST&#93;"@)
    } else if i == 12 {
        ("<<SYS>>"@, "&lt;&lt;SYS&gt;&gt;"@)
    } else if i == 13 {
        ("<</SYS>>"@, "&lt;&lt;/SYS&gt;&gt;"@)
    } else if i == 14 {
        ("<start_of_turn>"@, "&lt;start_of_turn&gt;"@)
    } else if i == 15 {
        ("<end_of_turn>"@, "&lt;end_of_turn&gt;"@)
    } else if i == 16 {
        ("<think>"@, "&lt;think&gt;"@)
    } else if i == 17 {
        ("</think>"@, "&lt;/think&gt;"@)
    } else if i == 18 {
        ("<untrusted_tool_output>"@, "&lt;untrusted_tool_output&gt;"@)
    } else if i == 19 {
        ("</untrusted_tool_output>"@, "&lt;/untrusted_tool_output&gt;"@)
    } else if i == 20 {
        ("<untrusted_content>"@, "&lt;untrusted_content&gt;"@)
    } else if i == 21 {
        ("</untrusted_content>"@, "&lt;/untrusted_content&gt;"@)
    } else if i == 22 {
        ("<tool_output_quarantine>"@, "&lt;tool_output_quarantine&gt;"@)
    } else if i == 23 {
        ("</tool_output_quarantine>"@, "&lt;/tool_output_quarantine&gt;"@)
    } else if i == 24 {
        ("<｜begin▁of▁sentence｜>"@, "&lt;｜begin▁of▁sentence｜&gt;"@)
    } else if i == 25 {
        ("<｜end▁of▁sentence｜>"@, "&lt;｜end▁of▁sentence｜&gt;"@)
    } else if i == 26 {
        ("<｜User｜>"@, "&lt;｜User｜&gt;"@)
    } else if i == 27 {
        ("<｜Assistant｜>"@, "&lt;｜Assistant｜&gt;"@)
    } else if i == 28 {
        ("<｜tool▁calls▁begin｜>"@, "&lt;｜tool▁calls▁begin｜&gt;"@)
    } else if i == 29 {
        ("<|user|>"@, "&lt;|user|&gt;"@)
    } else if i == 30 {
        ("<|assistant|>"@, "&lt;|assistant|&gt;"@)
    } else if i == 31 {
        ("<|system|>"@, "&lt;|system|&gt;"@)
    } else if i == 32 {
        ("<|end|>"@, "&lt;|end|&gt;"@)
    } else if i == 33 {
        ("<|START_OF_TURN_TOKEN|>"@, "&lt;|START_OF_TURN_TOKEN|&gt;"@)
    } else if i == 34 {
        ("<|END_OF_TURN_TOKEN|>"@, "&lt;|END_OF_TURN_TOKEN|&gt;"@)
    } else if i == 35 {
        ("[TOOL_CALLS]"@, "&#91;TOOL_CALLS&#93;"@)
    } else if i == 36 {
        ("[AVAILABLE_TOOLS]"@, "&#91;AVAILABLE_TOOLS&#93;"@)
    } else if i == 37 {
        ("[/TOOL_CALLS]"@, "&#91;/TOOL_CALLS&#93;"@)
    } else if i == 38 {
        ("[/AVAILABLE_TOOLS]"@, "&#91;/AVAILABLE_TOOLS&#93;"@)
    } else if i == 39 {
        ("\n\nHuman:"@, "\n\nHuman&#58;"@)
    } else if i == 40 {
        ("\n\nAssistant:"@, "\n\nAssistant&#58;"@)
    } else if i == 41 {
        ("<role>"@, "&lt;role&gt;"@)
    } else if i == 42 {
        ("</role>"@, "&lt;/role&gt;"@)
    } else if i == 43 {
        ("<|role_end|>"@, "&lt;|role_end|&gt;"@)
    } else if i == 44 {
        ("<|channel|>"@, "&lt;|channel|&gt;"@)
    } else {
        ("<|message|>"@, "&lt;|message|&gt;"@)
    }
}

/// Rule `i` of the control token replacement rules, applied in index order.
pub fn delimiter_rule(i: usize) -> (r: (&'static str, &'static str))
    requires
        i < DELIMITER_RULE_COUNT,
    ensures
        r.0@ == rule(i as int).0,
        r.1@ == rule(i as int).1,
{
    match i {
        0 => ("<|im_start|>", "&lt;|im_start|&gt;"),
        1 => ("<|im_end|>", "&lt;|im_end|&gt;"),
        2 => ("<|endoftext|>", "&lt;|endoftext|&gt;"),
        3 => ("<|start_header_id|>", "&lt;|start_header_id|&gt;"),
        4 => ("<|end_header_id|>", "&lt;|end_header_id|&gt;"),
        5 => ("<|eot_id|>", "&lt;|eot_id|&gt;"),
        6 => ("<tool_call>", "&lt;tool_call&gt;"),
        7 => ("</tool_call>", "&lt;/tool_call&gt;"),
        8 => ("<tool_response>", "&lt;tool_response&gt;"),
        9 => ("</tool_response>", "&lt;/tool_response&gt;"),
        10 => ("[INST]", "&#91;INST&#93;"),
        11 => ("[/INST]", "&#91;/INST&#93;"),
        12 => ("<<SYS>>", "&lt;&lt;SYS&gt;&gt;"),
        13 => ("<</SYS>>", "&lt;&lt;/SYS&gt;&gt;"),
        14 => ("<start_of_turn>", "&lt;start_of_turn&gt;"),
        15 => ("<end_of_turn>", "&lt;end_of_turn&gt;"),
        16 => ("<think>", "&lt;think&gt;"),
        17 => ("</think>", "&lt;/think&gt;"),
        18 => ("<untrusted_tool_output>", "&lt;untrusted_tool_output&gt;"),
        19 => ("</untrusted_tool_output>", "&lt;/untrusted_tool_output&gt;"),
        20 => ("<untrusted_content>", "&lt;untrusted_content&gt;"),
        21 => ("</untrusted_content>", "&lt;/untrusted_content&gt;"),
        22 => ("<tool_output_quarantine>", "&lt;tool_output_quarantine&gt;"),
        23 => ("</tool_output_quarantine>", "&lt;/tool_output_quarantine&gt;"),
        24 => ("<｜begin▁of▁sentence｜>", "&lt;｜begin▁of▁sentence｜&gt;"),
        25 => ("<｜end▁of▁sentence｜>", "&lt;｜end▁of▁sentence｜&gt;"),
        26 => ("<｜User｜>", "&lt;｜User｜&gt;"),
        27 => ("<｜Assistant｜>", "&lt;｜Assistant｜&gt;"),
        28 => ("<｜tool▁calls▁begin｜>", "&lt;｜tool▁calls▁begin｜&gt;"),
        29 => ("<|user|>", "&lt;|user|&gt;"),
        30 => ("<|assistant|>", "&lt;|assistant|&gt;"),
        31 => ("<|system|>", "&lt;|system|&gt;"),
        32 => ("<|end|>", "&lt;|end|&gt;"),
        33 => ("<|START_OF_TURN_TOKEN|>", "&lt;|START_OF_TURN_TOKEN|&gt;"),
        34 => ("<|END_OF_TURN_TOKEN|>", "&lt;|END_OF_TURN_TOKEN|&gt;"),
        35 => ("[TOOL_CALLS]", "&#91;TOOL_CALLS&#93;"),
        36 => ("[AVAILABLE_TOOLS]", "&#91;AVAILABLE_TOOLS&#93;"),
        37 => ("[/TOOL_CALLS]", "&#91;/TOOL_CALLS&#93;"),
        38 => ("[/AVAILABLE_TOOLS]", "&#91;/AVAILABLE_TOOLS&#93;"),
        39 => ("\n\nHuman:", "\n\nHuman&#58;"),
        40 => ("\n\nAssistant:", "\n\nAssistant&#58;"),
        41 => ("<role>", "&lt;role&gt;"),
        42 => ("</role>", "&lt;/role&gt;"),
        43 => ("<|role_end|>", "&lt;|role_end|&gt;"),
        44 => ("<|channel|>", "&lt;|channel|&gt;"),
        _ => ("<|message|>", "&lt;|message|&gt;"),
    }
}

/// Whether `b` may continue an XML name (ASCII alphanumeric, `_`, `-` or `.`).
pub open spec fn ncname_byte(b: u8) -> bool {
    (48 <= b <= 57) || (65 <= b <= 90) || (97 <= b <= 122) || b == 95 || b == 45 || b == 46
}

/// Whether the character `c` may continue an XML name.
pub open spec fn ncname_char(c: char) -> bool {
    (c as u32) < 128 && ncname_byte(c as u8)
}

/// ASCII whitespace: space, tab, line feed, form feed, carriage return.
pub open spec fn ascii_ws(c: char) -> bool {
    c == ' ' || c == '\t' || c == '\n' || c == '\u{0C}' || c == '\r'
}

/// ASCII lower-casing of a code point.
pub open spec fn lower(u: u32) -> u32 {
    if 65 <= u <= 90 {
        (u + 32) as u32
    } else {
        u
    }
}

/// ASCII case-insensitive equality of two character sequences.
pub open spec fn eq_ignore_case(a: Seq<char>, b: Seq<char>) -> bool {
    a.len() == b.len() && forall|k: int| 0 <= k < a.len() ==> lower(a[k] as u32) == lower(b[k] as u32)
}

/// The first position at or after `pos` that is not ASCII whitespace.
pub open spec fn skip_ws(s: Seq<char>, pos: int) -> int
    decreases s.len() - pos,
{
    if 0 <= pos < s.len() && ascii_ws(s[pos]) {
        skip_ws(s, pos + 1)
    } else {
        pos
    }
}

/// Where the tag name starts after the `<` at `i`: past optional whitespace,
/// an optional `/` and whitespace again.
pub open spec fn tag_name_start(s: Seq<char>, i: int) -> int {
    let p = skip_ws(s, i + 1);
    if 0 <= p < s.len() && s[p] == '/' {
        skip_ws(s, p + 1)
    } else {
        p
    }
}

/// The position just after `tag` when the `<` at `i` opens or closes a tag
/// named `tag` (ASCII case-insensitively, not followed by a name character).
pub open spec fn tag_match(s: Seq<char>, i: int, tag: Seq<char>) -> Option<int> {
    let p = tag_name_start(s, i);
    let a = p + tag.len();
    if a <= s.len() && eq_ignore_case(s.subrange(p, a), tag) && !(a < s.len() && ncname_char(s[a])) {
        Some(a)
    } else {
        None
    }
}

/// Whether the `<` at `i` starts a quarantine tag.
pub open spec fn breakout_at(s: Seq<char>, i: int) -> bool {
    0 <= i < s.len() && s[i] == '<' && tag_match(s, i, TOOL_OUTPUT_QUARANTINE_TAG@) is Some
}

/// Whether `s` holds an un-neutralized opening or closing quarantine tag.
pub open spec fn has_breakout(s: Seq<char>) -> bool {
    exists|i: int| breakout_at(s, i)
}

/// The first position at or after `j` holding `>` or `<` (or the end).
pub open spec fn scan_close(s: Seq<char>, j: int) -> int
    decreases s.len() - j,
{
    if 0 <= j < s.len() && s[j] != '>' && s[j] != '<' {
        scan_close(s, j + 1)
    } else {
        j
    }
}

pub proof fn lemma_skip_ws(s: Seq<char>, pos: int)
    ensures
        skip_ws(s, pos) >= pos,
    decreases s.len() - pos,
{
    if 0 <= pos < s.len() && ascii_ws(s[pos]) {
        lemma_skip_ws(s, pos + 1);
    }
}

pub proof fn lemma_scan_close(s: Seq<char>, j: int)
    ensures
        scan_close(s, j) >= j,
    decreases s.len() - j,
{
    if 0 <= j < s.len() && s[j] != '>' && s[j] != '<' {
        lemma_scan_close(s, j + 1);
    }
}

pub proof fn lemma_tag_match(s: Seq<char>, i: int, tag: Seq<char>)
    ensures
        tag_match(s, i, tag) matches Some(a) ==> i + 1 <= tag_name_start(s, i) && tag_name_start(s, i) + tag.len() == a && a <= s.len(),
{
    lemma_skip_ws(s, i + 1);
    lemma_skip_ws(s, skip_ws(s, i + 1) + 1);
}

/// The escaping of every quarantine tag in `s[i..]`: a tag that closes with
/// `>` before any `<` has both angle brackets escaped; otherwise only its `<`.
pub open spec fn sanitize_from(s: Seq<char>, i: int) -> Seq<char>
    decreases s.len() - i,
{
    if i < 0 || i >= s.len() {
        Seq::<char>::empty()
    } else if s[i] == '<' && tag_match(s, i, TOOL_OUTPUT_QUARANTINE_TAG@) is Some {
        let a = tag_match(s, i, TOOL_OUTPUT_QUARANTINE_TAG@)->0;
        let j = scan_close(s, a);
        proof {
            lemma_tag_match(s, i, TOOL_OUTPUT_QUARANTINE_TAG@);
            lemma_scan_close(s, a);
        }
        if j < s.len() && s[j] == '>' {
            "&lt;"@ + s.subrange(i + 1, j) + "&gt;"@ + sanitize_from(s, j + 1)
        } else {
            "&lt;"@ + sanitize_from(s, i + 1)
        }
    } else {
        seq![s[i]] + sanitize_from(s, i + 1)
    }
}

/// `s` after the first `k` replacement rules.
pub open spec fn apply_rules(s: Seq<char>, k: nat) -> Seq<char>
    decreases k,
{
    if k == 0 {
        s
    } else {
        let prev = apply_rules(s, (k - 1) as nat);
        replace_all(prev, rule(k - 1).0, rule(k - 1).1)
    }
}

/// `s` with every control token neutralized and every quarantine tag escaped.
pub open spec fn neutralized(s: Seq<char>) -> Seq<char> {
    let r = apply_rules(s, DELIMITER_RULE_COUNT as nat);
    if has_breakout(r) {
        sanitize_from(r, 0)
    } else {
        r
    }
}

/// The body of `s` between the opening and closing frames, if `s` has both.
pub open spec fn envelope_inner(s: Seq<char>) -> Option<Seq<char>> {
    let o = OPEN_FRAME@;
    let c = CLOSE_FRAME@;
    if s.len() >= o.len() + c.len() && s.take(o.len() as int) == o && s.skip(s.len() - c.len()) == c {
        Some(s.subrange(o.len() as int, s.len() - c.len()))
    } else {
        None
    }
}

/// Whether `inner` holds no control token and no quarantine tag.
pub open spec fn clean(inner: Seq<char>) -> bool {
    &&& forall|k: int| 0 <= k < DELIMITER_RULE_COUNT ==> !#[trigger] contains_seq(inner, rule(k).0)
    &&& !has_breakout(inner)
}

/// Whether `s` is a quarantine envelope around a clean body.
pub open spec fn quarantined(s: Seq<char>) -> bool {
    envelope_inner(s) matches Some(inner) && clean(inner)
}

/// The quarantined form of `s`: `s` itself when already quarantined, else the
/// neutralized text between the frames.
pub open spec fn quarantine(s: Seq<char>) -> Seq<char> {
    if quarantined(s) {
        s
    } else {
        OPEN_FRAME@ + neutralized(s) + CLOSE_FRAME@
    }
}

fn is_ncname_continue_byte(b: u8) -> (r: bool)
    ensures
        r == ncname_byte(b),
{
    (48 <= b && b <= 57) || (65 <= b && b <= 90) || (97 <= b && b <= 122) || b == 95 || b == 45 || b == 46
}

fn is_ncname_char(c: char) -> (r: bool)
    ensures
        r == ncname_char(c),
{
    let u = c as u32;
    u < 128 && is_ncname_continue_byte(u as u8)
}

fn is_ascii_ws(c: char) -> (r: bool)
    ensures
        r == ascii_ws(c),
{
    c == ' ' || c == '\t' || c == '\n' || c == '\u{0C}' || c == '\r'
}

fn lower_u32(u: u32) -> (r: u32)
    ensures
        r == lower(u),
{
    if 65 <= u && u <= 90 {
        u + 32
    } else {
        u
    }
}

fn skip_ws_from(s: &Vec<char>, pos: usize) -> (r: usize)
    requires
        pos <= s.len(),
    ensures
        r == skip_ws(s@, pos as int),
        pos <= r <= s.len(),
{
    let mut p = pos;
    while p < s.len() && is_ascii_ws(s[p])
        invariant
            pos <= p <= s.len(),
            skip_ws(s@, p as int) == skip_ws(s@, pos as int),
        decreases s.len() - p,
    {
        p = p + 1;
    }
    p
}

/// If the `<` at `i` opens or closes a tag named `tag` (ASCII
/// case-insensitively, allowing whitespace after `<` and after `/`), the
/// position just after the name.
fn match_tag_prefix(s: &Vec<char>, i: usize, tag: &Vec<char>) -> (r: Option<usize>)
    requires
        i < s.len(),
    ensures
        r == (match tag_match(s@, i as int, tag@) {
            Some(a) => Some(a as usize),
            None => None::<usize>,
        }),
{
    let mut pos = skip_ws_from(s, i + 1);
    if pos < s.len() && s[pos] == '/' {
        pos = skip_ws_from(s, pos + 1);
    }
    assert(pos == tag_name_start(s@, i as int));
    let after_tag = match pos.checked_add(tag.len()) {
        Some(a) => a,
        None => return None,
    };
    if after_tag > s.len() {
        return None;
    }
    let mut k: usize = 0;
    while k < tag.len()
        invariant
            pos == tag_name_start(s@, i as int),
            pos + tag.len() == after_tag <= s.len(),
            k <= tag.len(),
            forall|m: int| 0 <= m < k ==> lower(s@[pos + m] as u32) == lower(tag@[m] as u32),
        decreases tag.len() - k,
    {
        if lower_u32(s[pos + k] as u32) != lower_u32(tag[k] as u32) {
            let ghost sub = s@.subrange(pos as int, after_tag as int);
            assert(sub[k as int] == s@[pos + k]);
            assert(lower(sub[k as int] as u32) != lower(tag@[k as int] as u32));
            assert(!eq_ignore_case(sub, tag@));
            return None;
        }
        k = k + 1;
    }
    assert(eq_ignore_case(s@.subrange(pos as int, after_tag as int), tag@));
    if after_tag < s.len() && is_ncname_char(s[after_tag]) {
        None
    } else {
        Some(after_tag)
    }
}

fn has_breakout_chars(s: &Vec<char>, tag: &Vec<char>) -> (r: bool)
    requires
        tag@ == TOOL_OUTPUT_QUARANTINE_TAG@,
    ensures
        r == has_breakout(s@),
{
    let mut i: usize = 0;
    while i < s.len()
        invariant
            tag@ == TOOL_OUTPUT_QUARANTINE_TAG@,
            i <= s.len(),
            forall|k: int| 0 <= k < i ==> !breakout_at(s@, k),
        decreases s.len() - i,
    {
        if s[i] == '<' && match_tag_prefix(s, i, tag).is_some() {
            assert(breakout_at(s@, i as int));
            return true;
        }
        i = i + 1;
    }
    false
}

/// Whether `s` contains an un-neutralized opening or closing
/// `<tool_output_quarantine...>` tag (case-insensitive, with optional
/// whitespace or attributes).
fn has_quarantine_tag_breakout(s: &str) -> (r: bool)
    ensures
        r == has_breakout(s@),
{
    let tag = chars_of(TOOL_OUTPUT_QUARANTINE_TAG);
    has_breakout_chars(&chars_of(s), &tag)
}

/// Escape every opening or closing `<tool_output_quarantine...>` tag.
fn sanitize_quarantine_tag_breakouts(s: &str) -> (r: String)
    ensures
        r@ == sanitize_from(s@, 0),
{
    let cs = chars_of(s);
    let tag = chars_of(TOOL_OUTPUT_QUARANTINE_TAG);
    let mut out: Vec<char> = Vec::new();
    let mut i: usize = 0;
    while i < cs.len()
        invariant
            tag@ == TOOL_OUTPUT_QUARANTINE_TAG@,
            cs@ == s@,
            i <= cs.len(),
            out@ + sanitize_from(cs@, i as int) == sanitize_from(cs@, 0),
        decreases cs.len() - i,
    {
        let ghost before = out@;
        let m = if cs[i] == '<' {
            match_tag_prefix(&cs, i, &tag)
        } else {
            None
        };
        match m {
            Some(after_tag) => {
                proof {
                    lemma_tag_match(cs@, i as int, tag@);
                }
                let mut j = after_tag;
                while j < cs.len() && cs[j] != '>' && cs[j] != '<'
                    invariant
                        i < after_tag <= j <= cs.len(),
                        scan_close(cs@, j as int) == scan_close(cs@, after_tag as int),
                    decreases cs.len() - j,
                {
                    j = j + 1;
                }
                if j < cs.len() && cs[j] == '>' {
                    push_str(&mut out, "&lt;");
                    push_all(&mut out, &chars_slice(&cs, i + 1, j));
                    push_str(&mut out, "&gt;");
                    assert(before + sanitize_from(cs@, i as int) =~= out@ + sanitize_from(cs@, j + 1));
                    i = j + 1;
                } else {
                    push_str(&mut out, "&lt;");
                    assert(before + sanitize_from(cs@, i as int) =~= out@ + sanitize_from(cs@, i + 1));
                    i = i + 1;
                }
            },
            None => {
                out.push(cs[i]);
                assert(before + sanitize_from(cs@, i as int) =~= out@ + sanitize_from(cs@, i + 1));
                i = i + 1;
            },
        }
    }
    assert(out@ =~= sanitize_from(cs@, 0));
    string_from_chars(out)
}

/// Neutralize all known control tokens and quarantine breakout tags in `raw`.
pub fn neutralize_delimiters(raw: &str) -> (r: String)
    ensures
        r@ == neutralized(raw@),
{
    let mut out = chars_of(raw);
    let mut k: usize = 0;
    while k < DELIMITER_RULE_COUNT
        invariant
            k <= DELIMITER_RULE_COUNT,
            out@ == apply_rules(raw@, k as nat),
        decreases DELIMITER_RULE_COUNT - k,
    {
        let (token, replacement) = delimiter_rule(k);
        out = replace_chars(&out, &chars_of(token), &chars_of(replacement));
        k = k + 1;
    }
    let text = string_from_chars(out);
    if has_quarantine_tag_breakout(text.as_str()) {
        sanitize_quarantine_tag_breakouts(text.as_str())
    } else {
        text
    }
}

/// Whether `inner` holds no control token and no quarantine tag.
fn is_clean(inner: &Vec<char>) -> (r: bool)
    ensures
        r == clean(inner@),
{
    let mut k: usize = 0;
    while k < DELIMITER_RULE_COUNT
        invariant
            k <= DELIMITER_RULE_COUNT,
            forall|m: int| 0 <= m < k ==> !#[trigger] contains_seq(inner@, rule(m).0),
        decreases DELIMITER_RULE_COUNT - k,
    {
        let (token, _) = delimiter_rule(k);
        if contains_chars(inner, &chars_of(token)) {
            return false;
        }
        k = k + 1;
    }
    let tag = chars_of(TOOL_OUTPUT_QUARANTINE_TAG);
    !has_breakout_chars(inner, &tag)
}

/// The body between the frames of `cs`, if it has both frames.
fn envelope_body(cs: &Vec<char>) -> (r: Option<Vec<char>>)
    ensures
        match envelope_inner(cs@) {
            Some(inner) => r matches Some(v) && v@ == inner,
            None => r is None,
        },
{
    let o = chars_of(OPEN_FRAME);
    let c = chars_of(CLOSE_FRAME);
    if cs.len() < o.len() || cs.len() - o.len() < c.len() {
        return None;
    }
    let starts = chars_match_at_start(cs, &o);
    let ends = crate::text::chars_match_at(cs, &c, cs.len() - c.len());
    assert(starts == (cs@.take(o@.len() as int) == o@)) by {
        assert(cs@.subrange(0, o@.len() as int) =~= cs@.take(o@.len() as int));
    }
    assert(ends == (cs@.skip(cs@.len() - c@.len()) == c@)) by {
        assert(cs@.subrange(cs@.len() - c@.len(), cs@.len() as int) =~= cs@.skip(cs@.len() - c@.len()));
    }
    if starts && ends {
        Some(chars_slice(cs, o.len(), cs.len() - c.len()))
    } else {
        None
    }
}

fn chars_match_at_start(cs: &Vec<char>, pat: &Vec<char>) -> (r: bool)
    ensures
        r == crate::text::occurs_at(cs@, pat@, 0),
{
    crate::text::chars_match_at(cs, pat, 0)
}

/// Whether `raw` is already a valid, un-escaped `<tool_output_quarantine>`
/// envelope whose body holds no un-neutralized control token or boundary
/// breakout tag.
pub fn is_quarantined_output(raw: &str) -> (r: bool)
    ensures
        r == quarantined(raw@),
{
    match envelope_body(&chars_of(raw)) {
        Some(inner) => is_clean(&inner),
        None => false,
    }
}

/// The body of a quarantined envelope, if and only if `raw` is one.
pub fn unquarantine_tool_output<'a>(raw: &'a str) -> (r: Option<&'a str>)
    ensures
        r is Some <==> quarantined(raw@),
        r matches Some(body) ==> envelope_inner(raw@) == Some(body@),
{
    if !is_quarantined_output(raw) {
        return None;
    }
    let o = chars_of(OPEN_FRAME);
    let c = chars_of(CLOSE_FRAME);
    let n = raw.unicode_len();
    Some(raw.substring_char(o.len(), n - c.len()))
}

/// Wrap `raw` in a `<tool_output_quarantine>` envelope after neutralizing
/// any embedded control tokens and breakout tags; an output that is already
/// quarantined is returned unchanged.
pub fn quarantine_tool_output(raw: &str) -> (r: String)
    ensures
        r@ == quarantine(raw@),
{
    if is_quarantined_output(raw) {
        return raw.to_owned();
    }
    let sanitized = neutralize_delimiters(raw);
    let mut buf: Vec<char> = Vec::new();
    push_str(&mut buf, OPEN_FRAME);
    push_str(&mut buf, sanitized.as_str());
    push_str(&mut buf, CLOSE_FRAME);
    string_from_chars(buf)
}

/// Quarantining an output that is already quarantined leaves it unchanged.
pub proof fn law_quarantine_keeps_quarantined(s: Seq<char>)
    requires
        quarantined(s),
    ensures
        quarantine(s) == s,
{
}

/// The body of a framed text is exactly the text that was framed.
pub proof fn law_envelope_inner_of_framed(x: Seq<char>)
    ensures
        envelope_inner(OPEN_FRAME@ + x + CLOSE_FRAME@) == Some(x),
{
    let o = OPEN_FRAME@;
    let c = CLOSE_FRAME@;
    let s = o + x + c;
    assert(s.take(o.len() as int) =~= o);
    assert(s.skip(s.len() - c.len()) =~= c);
    assert(s.subrange(o.len() as int, s.len() - c.len()) =~= x);
}

/// A quarantined output is the frames around its body, and quarantining a
/// text that is not yet quarantined frames its neutralized form.
pub proof fn law_quarantine_frames(s: Seq<char>)
    ensures
        envelope_inner(s) matches Some(inner) ==> s == OPEN_FRAME@ + inner + CLOSE_FRAME@,
        !quarantined(s) ==> envelope_inner(quarantine(s)) == Some(neutralized(s)),
{
    let o = OPEN_FRAME@;
    let c = CLOSE_FRAME@;
    if let Some(inner) = envelope_inner(s) {
        assert(s =~= s.take(o.len() as int) + inner + s.skip(s.len() - c.len()));
    }
    law_envelope_inner_of_framed(neutralized(s));
}

} // verus!
