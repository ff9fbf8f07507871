//! Frontmatter syntax check of `.tmpl.md` templates: compound types must use
//! parentheses, never the legacy `<...>` or `[...]` forms.
use vstd::prelude::*;
use crate::mcp::dispatch::is_ws;
use crate::text::{chars_of, chars_slice, chars_match_at, contains_chars, contains_seq, occurs_at, push_str, string_from_chars};
use crate::uri_template::{find_seq, find_seq_vec, lemma_find_seq_from};

verus! {

/// `list` keyword.
pub const KW_LIST: &'static str = "list";
/// `struct` keyword.
pub const KW_STRUCT: &'static str = "struct";
/// `option` keyword.
pub const KW_OPTION: &'static str = "option";
/// `enum` keyword.
pub const KW_ENUM: &'static str = "enum";
/// `tmpl` keyword.
pub const KW_TMPL: &'static str = "tmpl";
/// Frontmatter delimiter.
pub const FRONTMATTER_DELIM: &'static str = "---";
/// Closing delimiter after a line feed.
pub const NEWLINE_DELIM_LF: &'static str = "\n---";
/// Closing delimiter after a carriage return and line feed.
pub const NEWLINE_DELIM_CRLF: &'static str = "\r\n---";

/// `s` without leading whitespace.
pub open spec fn trim_start(s: Seq<char>) -> Seq<char>
    decreases s.len(),
{
    if s.len() > 0 && is_ws(s[0]) {
        trim_start(s.skip(1))
    } else {
        s
    }
}

/// The frontmatter of a template: the text after the opening `---` (once
/// leading whitespace is skipped) up to the first `\n---` (or `\r\n---`);
/// `None` when the template has no complete frontmatter.
pub open spec fn frontmatter(s: Seq<char>) -> Option<Seq<char>> {
    let t = trim_start(s);
    let d = FRONTMATTER_DELIM@;
    if !(t.len() >= d.len() && t.take(d.len() as int) == d) {
        None
    } else {
        let a = t.skip(d.len() as int);
        match find_seq(a, NEWLINE_DELIM_LF@) {
            Some(i) => Some(a.take(i)),
            None => match find_seq(a, NEWLINE_DELIM_CRLF@) {
                Some(i) => Some(a.take(i)),
                None => None,
            },
        }
    }
}

/// Compound type keyword `k` (in `0..5`).
pub open spec fn keyword(k: int) -> Seq<char> {
    if k == 0 {
        KW_LIST@
    } else if k == 1 {
        KW_STRUCT@
    } else if k == 2 {
        KW_OPTION@
    } else if k == 3 {
        KW_ENUM@
    } else {
        KW_TMPL@
    }
}

/// Legacy opener `m` (in `0..4`): `<`, ` <`, `[` or ` [`.
pub open spec fn legacy_opener(m: int) -> Seq<char> {
    if m == 0 {
        "<"@
    } else if m == 1 {
        " <"@
    } else if m == 2 {
        "["@
    } else {
        " ["@
    }
}

/// Whether the frontmatter writes a compound type with a legacy opener.
pub open spec fn uses_legacy_syntax(fm: Seq<char>) -> bool {
    exists|k: int, m: int| 0 <= k < 5 && 0 <= m < 4 && #[trigger] contains_seq(fm, keyword(k) + legacy_opener(m))
}

/// The error for a template at `rel` that uses legacy syntax.
pub open spec fn legacy_syntax_message(rel: Seq<char>) -> Seq<char> {
    "template '"@ + rel + "' uses illegal <...> or [...] fallback syntax; only full (...) parentheses are permitted"@
}

fn keyword_str(k: usize) -> (r: &'static str)
    requires
        k < 5,
    ensures
        r@ == keyword(k as int),
{
    match k {
        0 => KW_LIST,
        1 => KW_STRUCT,
        2 => KW_OPTION,
        3 => KW_ENUM,
        _ => KW_TMPL,
    }
}

fn opener_str(m: usize) -> (r: &'static str)
    requires
        m < 4,
    ensures
        r@ == legacy_opener(m as int),
{
    match m {
        0 => "<",
        1 => " <",
        2 => "[",
        _ => " [",
    }
}

fn has_legacy_syntax(fm: &Vec<char>) -> (r: bool)
    ensures
        r == uses_legacy_syntax(fm@),
{
    let mut k: usize = 0;
    while k < 5
        invariant
            k <= 5,
            forall|kk: int, m: int| 0 <= kk < k && 0 <= m < 4 ==> !#[trigger] contains_seq(fm@, keyword(kk) + legacy_opener(m)),
        decreases 5 - k,
    {
        let mut m: usize = 0;
        while m < 4
            invariant
                k < 5,
                m <= 4,
                forall|kk: int, mm: int| 0 <= kk < k && 0 <= mm < 4 ==> !#[trigger] contains_seq(fm@, keyword(kk) + legacy_opener(mm)),
                forall|mm: int| 0 <= mm < m ==> !#[trigger] contains_seq(fm@, keyword(k as int) + legacy_opener(mm)),
            decreases 4 - m,
        {
            let mut pat = chars_of(keyword_str(k));
            let mut op = chars_of(opener_str(m));
            pat.append(&mut op);
            if contains_chars(fm, &pat) {
                assert(contains_seq(fm@, keyword(k as int) + legacy_opener(m as int)));
                return true;
            }
            m = m + 1;
        }
        k = k + 1;
    }
    false
}

/// Check the frontmatter of the template `source` (found at `rel_path`)
/// for legacy compound-type syntax; the source is returned unchanged when
/// it has none (or has no complete frontmatter).
pub fn normalize_and_validate_syntax(source: &str, rel_path: &str) -> (r: Result<String, String>)
    ensures
        match frontmatter(source@) {
            Some(fm) => if uses_legacy_syntax(fm) {
                r matches Err(msg) && msg@ == legacy_syntax_message(rel_path@)
            } else {
                r matches Ok(s) && s@ == source@
            },
            None => r matches Ok(s) && s@ == source@,
        },
{
    let cs = chars_of(source);
    let mut i: usize = 0;
    assert(cs@.skip(0) =~= cs@);
    while i < cs.len() && crate::mcp::dispatch::is_ws_char(cs[i])
        invariant
            i <= cs.len(),
            trim_start(cs@.skip(i as int)) == trim_start(cs@),
        decreases cs.len() - i,
    {
        assert(cs@.skip(i as int).skip(1) =~= cs@.skip(i + 1));
        i = i + 1;
    }
    let ghost t = cs@.skip(i as int);
    assert(trim_start(cs@) == t) by {
        assert(!(t.len() > 0 && is_ws(t[0])));
    }
    let delim = chars_of(FRONTMATTER_DELIM);
    assert(occurs_at(cs@, delim@, i as int) == (t.len() >= delim@.len() && t.take(delim@.len() as int) == delim@)) by {
        if t.len() >= delim@.len() {
            assert(cs@.subrange(i as int, i + delim@.len()) =~= t.take(delim@.len() as int));
        }
    }
    if !chars_match_at(&cs, &delim, i) {
        return Ok(String::from_str(source));
    }
    let after = chars_slice(&cs, i + delim.len(), cs.len());
    assert(after@ =~= t.skip(delim@.len() as int));
    let lf = chars_of(NEWLINE_DELIM_LF);
    let crlf = chars_of(NEWLINE_DELIM_CRLF);
    let end = match find_seq_vec(&after, &lf) {
        Some(e) => e,
        None => match find_seq_vec(&after, &crlf) {
            Some(e) => e,
            None => return Ok(String::from_str(source)),
        },
    };
    proof {
        lemma_find_seq_from(after@, lf@, 0);
        lemma_find_seq_from(after@, crlf@, 0);
    }
    let fm = chars_slice(&after, 0, end);
    assert(fm@ =~= after@.take(end as int));
    if has_legacy_syntax(&fm) {
        let mut v: Vec<char> = Vec::new();
        push_str(&mut v, "template '");
        push_str(&mut v, rel_path);
        push_str(&mut v, "' uses illegal <...> or [...] fallback syntax; only full (...) parentheses are permitted");
        return Err(string_from_chars(v));
    }
    Ok(String::from_str(source))
}

/// Whether the frontmatter writes one of the compound types `list`,
/// `struct`, `option`, `enum` or `tmpl` directly followed by `<`, ` <`, `[`
/// or ` [`.
pub open spec fn writes_legacy_compound(fm: Seq<char>) -> bool {
    contains_seq(fm, "list"@ + "<"@)
    || contains_seq(fm, "list"@ + " <"@)
    || contains_seq(fm, "list"@ + "["@)
    || contains_seq(fm, "list"@ + " ["@)
    || contains_seq(fm, "struct"@ + "<"@)
    || contains_seq(fm, "struct"@ + " <"@)
    || contains_seq(fm, "struct"@ + "["@)
    || contains_seq(fm, "struct"@ + " ["@)
    || contains_seq(fm, "option"@ + "<"@)
    || contains_seq(fm, "option"@ + " <"@)
    || contains_seq(fm, "option"@ + "["@)
    || contains_seq(fm, "option"@ + " ["@)
    || contains_seq(fm, "enum"@ + "<"@)
    || contains_seq(fm, "enum"@ + " <"@)
    || contains_seq(fm, "enum"@ + "["@)
    || contains_seq(fm, "enum"@ + " ["@)
    || contains_seq(fm, "tmpl"@ + "<"@)
    || contains_seq(fm, "tmpl"@ + " <"@)
    || contains_seq(fm, "tmpl"@ + "["@)
    || contains_seq(fm, "tmpl"@ + " ["@)
}

/// A frontmatter is rejected exactly when it writes one of the five
/// compound-type keywords with a legacy `<` or `[` opener (optionally after
/// one space).
pub proof fn law_legacy_syntax_is_the_keywords(fm: Seq<char>)
    ensures
        uses_legacy_syntax(fm) <==> writes_legacy_compound(fm),
{
    if writes_legacy_compound(fm) {
        if contains_seq(fm, "list"@ + "<"@) {
            assert(contains_seq(fm, keyword(0) + legacy_opener(0)));
        }
        if contains_seq(fm, "list"@ + " <"@) {
            assert(contains_seq(fm, keyword(0) + legacy_opener(1)));
        }
        if contains_seq(fm, "list"@ + "["@) {
            assert(contains_seq(fm, keyword(0) + legacy_opener(2)));
        }
        if contains_seq(fm, "list"@ + " ["@) {
            assert(contains_seq(fm, keyword(0) + legacy_opener(3)));
        }
        if contains_seq(fm, "struct"@ + "<"@) {
            assert(contains_seq(fm, keyword(1) + legacy_opener(0)));
        }
        if contains_seq(fm, "struct"@ + " <"@) {
            assert(contains_seq(fm, keyword(1) + legacy_opener(1)));
        }
        if contains_seq(fm, "struct"@ + "["@) {
            assert(contains_seq(fm, keyword(1) + legacy_opener(2)));
        }
        if contains_seq(fm, "struct"@ + " ["@) {
            assert(contains_seq(fm, keyword(1) + legacy_opener(3)));
        }
        if contains_seq(fm, "option"@ + "<"@) {
            assert(contains_seq(fm, keyword(2) + legacy_opener(0)));
        }
        if contains_seq(fm, "option"@ + " <"@) {
            assert(contains_seq(fm, keyword(2) + legacy_opener(1)));
        }
        if contains_seq(fm, "option"@ + "["@) {
            assert(contains_seq(fm, keyword(2) + legacy_opener(2)));
        }
        if contains_seq(fm, "option"@ + " ["@) {
            assert(contains_seq(fm, keyword(2) + legacy_opener(3)));
        }
        if contains_seq(fm, "enum"@ + "<"@) {
            assert(contains_seq(fm, keyword(3) + legacy_opener(0)));
        }
        if contains_seq(fm, "enum"@ + " <"@) {
            assert(contains_seq(fm, keyword(3) + legacy_opener(1)));
        }
        if contains_seq(fm, "enum"@ + "["@) {
            assert(contains_seq(fm, keyword(3) + legacy_opener(2)));
        }
        if contains_seq(fm, "enum"@ + " ["@) {
            assert(contains_seq(fm, keyword(3) + legacy_opener(3)));
        }
        if contains_seq(fm, "tmpl"@ + "<"@) {
            assert(contains_seq(fm, keyword(4) + legacy_opener(0)));
        }
        if contains_seq(fm, "tmpl"@ + " <"@) {
            assert(contains_seq(fm, keyword(4) + legacy_opener(1)));
        }
        if contains_seq(fm, "tmpl"@ + "["@) {
            assert(contains_seq(fm, keyword(4) + legacy_opener(2)));
        }
        if contains_seq(fm, "tmpl"@ + " ["@) {
            assert(contains_seq(fm, keyword(4) + legacy_opener(3)));
        }
    }
    if uses_legacy_syntax(fm) {
        let (k, m) = choose|k: int, m: int| 0 <= k < 5 && 0 <= m < 4 && #[trigger] contains_seq(fm, keyword(k) + legacy_opener(m));
        assert(contains_seq(fm, keyword(k) + legacy_opener(m)));
    }
}

} // verus!
