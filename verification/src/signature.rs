//! The rules a function must meet to become a tool, a prompt or a
//! resource: how its parameters may take the tool context and that they
//! are documented.
use vstd::prelude::*;
use crate::mcp::dispatch::{is_ws, is_ws_char, trimmed};
use crate::text::{chars_of, chars_slice, push_all, push_str, replace_all, replace_chars, string_from_chars};

verus! {

/// Which attribute a function carries.
#[derive(Debug, Clone, Copy, PartialEq, Eq, Structural)]
pub enum MacroKind {
    /// `#[llm_tool]`.
    Tool,
    /// `#[llm_prompt]`.
    Prompt,
    /// `#[llm_resource]`.
    Resource,
}

/// What the rules read of one parameter.
#[derive(Debug, Clone, Copy)]
pub struct ParamSummary<'a> {
    /// The parameter's name.
    pub name: &'a str,
    /// Whether it takes the tool context.
    pub is_context: bool,
    /// Whether it has a doc comment.
    pub has_doc: bool,
}

/// The attribute as written.
pub open spec fn macro_label(k: MacroKind) -> Seq<char> {
    match k {
        MacroKind::Tool => "#[llm_tool]"@,
        MacroKind::Prompt => "#[llm_prompt]"@,
        MacroKind::Resource => "#[llm_resource]"@,
    }
}

/// How many parameters take the tool context.
pub open spec fn context_count(ps: Seq<ParamSummary>) -> nat
    decreases ps.len(),
{
    if ps.len() == 0 {
        0
    } else {
        context_count(ps.drop_last()) + if ps.last().is_context {
            1nat
        } else {
            0nat
        }
    }
}

/// The parameters that become fields of the generated parameters struct
/// and of the argument schema: every parameter but the context one, in
/// order.
pub open spec fn schema_fields<'a>(ps: Seq<ParamSummary<'a>>) -> Seq<ParamSummary<'a>> {
    ps.filter(|p: ParamSummary<'a>| !p.is_context)
}

/// The parameters that become schema fields: the context parameter is
/// bound to the call's context instead, and left out.
pub fn schema_params<'a>(params: &[ParamSummary<'a>]) -> (r: Vec<ParamSummary<'a>>)
    ensures
        r@ == schema_fields(params@),
{
    let mut out: Vec<ParamSummary<'a>> = Vec::new();
    let mut i: usize = 0;
    while i < params.len()
        invariant
            i <= params@.len(),
            out@ == schema_fields(params@.take(i as int)),
        decreases params.len() - i,
    {
        proof {
            reveal(Seq::filter);
            assert(params@.take(i + 1).drop_last() =~= params@.take(i as int));
        }
        let p = params[i];
        if !p.is_context {
            out.push(p);
        }
        i = i + 1;
    }
    assert(params@.take(params@.len() as int) =~= params@);
    out
}

/// The first parameter, other than a context one, without a doc comment.
pub open spec fn first_undocumented(ps: Seq<ParamSummary>) -> Option<ParamSummary>
    decreases ps.len(),
{
    if ps.len() == 0 {
        None
    } else if !ps[0].is_context && !ps[0].has_doc {
        Some(ps[0])
    } else {
        first_undocumented(ps.skip(1))
    }
}

/// The message for the undocumented parameter `name`.
pub open spec fn doc_message(k: MacroKind, name: Seq<char>) -> Seq<char> {
    macro_label(k) + " parameter `"@ + name
        + "` must have a doc comment (used as the parameter description in the JSON schema)"@
}

/// The first rule a function breaks: a tool takes at most one context
/// parameter; a prompt gives no response template; prompts and resources
/// take no context; tool and prompt parameters are documented.
pub open spec fn signature_error(k: MacroKind, has_response: bool, ps: Seq<ParamSummary>) -> Option<Seq<char>> {
    let undocumented = match first_undocumented(ps) {
        Some(p) => Some(doc_message(k, p.name@)),
        None => None,
    };
    match k {
        MacroKind::Tool => if context_count(ps) > 1 {
            Some("#[llm_tool] functions can accept at most one ToolContext parameter"@)
        } else {
            undocumented
        },
        MacroKind::Prompt => if has_response {
            Some("#[llm_prompt] does not support `response`/`response_file`; response templates apply to #[llm_tool] only"@)
        } else if context_count(ps) > 0 {
            Some("#[llm_prompt] functions do not accept a ToolContext parameter"@)
        } else {
            undocumented
        },
        MacroKind::Resource => if context_count(ps) > 0 {
            Some("#[llm_resource] functions do not accept a ToolContext parameter"@)
        } else {
            None
        },
    }
}

fn label(k: MacroKind) -> (r: &'static str)
    ensures
        r@ == macro_label(k),
{
    match k {
        MacroKind::Tool => "#[llm_tool]",
        MacroKind::Prompt => "#[llm_prompt]",
        MacroKind::Resource => "#[llm_resource]",
    }
}

/// Check the parameters of a function carrying the attribute `k`
/// (`has_response`: whether the attribute gives a response template).
pub fn check_signature(k: MacroKind, has_response: bool, params: &[ParamSummary]) -> (r: Result<(), String>)
    ensures
        match signature_error(k, has_response, params@) {
            Some(m) => r matches Err(e) && e@ == m,
            None => r is Ok,
        },
{
    let mut contexts: usize = 0;
    let mut undocumented: Option<usize> = None;
    let mut i: usize = 0;
    assert(params@.take(0) =~= Seq::<ParamSummary>::empty());
    assert(params@.skip(0) =~= params@);
    while i < params.len()
        invariant
            i <= params.len(),
            contexts == context_count(params@.take(i as int)),
            contexts <= i,
            match undocumented {
                Some(u) => u < i && first_undocumented(params@) == Some(params@[u as int]),
                None => first_undocumented(params@) == first_undocumented(params@.skip(i as int)),
            },
        decreases params.len() - i,
    {
        let p = params[i];
        assert(params@.take(i + 1).drop_last() =~= params@.take(i as int));
        if p.is_context {
            contexts = contexts + 1;
        }
        if undocumented.is_none() {
            assert(params@.skip(i as int)[0] == p);
            assert(params@.skip(i as int).skip(1) =~= params@.skip(i + 1));
            if !p.is_context && !p.has_doc {
                undocumented = Some(i);
            }
        }
        i = i + 1;
    }
    assert(params@.take(i as int) =~= params@);
    assert(undocumented is None ==> params@.skip(i as int).len() == 0);
    let doc_error = match undocumented {
        Some(u) => {
            let mut v: Vec<char> = Vec::new();
            push_str(&mut v, label(k));
            push_str(&mut v, " parameter `");
            push_str(&mut v, params[u].name);
            push_str(&mut v, "` must have a doc comment (used as the parameter description in the JSON schema)");
            proof {
                reveal_strlit(" parameter `");
                reveal_strlit("` must have a doc comment (used as the parameter description in the JSON schema)");
            }
            assert(v@ =~= doc_message(k, params@[u as int].name@));
            Err(string_from_chars(v))
        },
        None => Ok(()),
    };
    match k {
        MacroKind::Tool => if contexts > 1 {
            Err(String::from_str("#[llm_tool] functions can accept at most one ToolContext parameter"))
        } else {
            doc_error
        },
        MacroKind::Prompt => if has_response {
            Err(
                String::from_str(
                    "#[llm_prompt] does not support `response`/`response_file`; response templates apply to #[llm_tool] only",
                ),
            )
        } else if contexts > 0 {
            Err(String::from_str("#[llm_prompt] functions do not accept a ToolContext parameter"))
        } else {
            doc_error
        },
        MacroKind::Resource => if contexts > 0 {
            Err(String::from_str("#[llm_resource] functions do not accept a ToolContext parameter"))
        } else {
            Ok(())
        },
    }
}

/// The message for a function with a `where` clause (`has_where`) or
/// with generic or lifetime parameters, under the attribute `macro_name`.
pub open spec fn generics_error(macro_name: Seq<char>, has_where: bool, has_params: bool) -> Option<Seq<char>> {
    if has_where {
        Some("#["@ + macro_name + "] does not support `where` clauses; use concrete types"@)
    } else if has_params {
        Some("#["@ + macro_name + "] does not support generic parameters or lifetimes; use concrete types"@)
    } else {
        None
    }
}

/// Refuse a generic signature: the generated item is a concrete struct.
pub fn reject_generic_signature(macro_name: &str, has_where: bool, has_params: bool) -> (r: Result<(), String>)
    ensures
        match generics_error(macro_name@, has_where, has_params) {
            Some(m) => r matches Err(e) && e@ == m,
            None => r is Ok,
        },
{
    if !has_where && !has_params {
        return Ok(());
    }
    let mut v: Vec<char> = Vec::new();
    push_str(&mut v, "#[");
    push_str(&mut v, macro_name);
    if has_where {
        push_str(&mut v, "] does not support `where` clauses; use concrete types");
    } else {
        push_str(&mut v, "] does not support generic parameters or lifetimes; use concrete types");
    }
    proof {
        reveal_strlit("#[");
        reveal_strlit("] does not support `where` clauses; use concrete types");
        reveal_strlit("] does not support generic parameters or lifetimes; use concrete types");
    }
    assert(v@ =~= generics_error(macro_name@, has_where, has_params)->0);
    Err(string_from_chars(v))
}

/// One doc literal as a line of the description: line endings made `\n`,
/// surrounding whitespace trimmed.
pub open spec fn doc_line(d: Seq<char>) -> Seq<char> {
    trimmed(replace_all(d, "\r\n"@, "\n"@))
}

/// The doc lines joined with `\n`.
pub open spec fn joined_lines(docs: Seq<Seq<char>>) -> Seq<char>
    decreases docs.len(),
{
    if docs.len() == 0 {
        Seq::empty()
    } else if docs.len() == 1 {
        doc_line(docs[0])
    } else {
        joined_lines(docs.drop_last()) + "\n"@ + doc_line(docs.last())
    }
}

/// The description given by the doc literals `docs`: their lines joined,
/// then trimmed.
pub open spec fn doc_text(docs: Seq<Seq<char>>) -> Seq<char> {
    trimmed(joined_lines(docs))
}

fn trim_vec(cs: &Vec<char>) -> (r: Vec<char>)
    ensures
        r@ == trimmed(cs@),
{
    let mut lo: usize = 0;
    let mut hi: usize = cs.len();
    assert(cs@.subrange(0, cs@.len() as int) =~= cs@);
    while lo < hi && is_ws_char(cs[lo])
        invariant
            lo <= hi == cs.len(),
            trimmed(cs@.subrange(lo as int, hi as int)) == trimmed(cs@),
        decreases hi - lo,
    {
        assert(cs@.subrange(lo as int, hi as int).skip(1) =~= cs@.subrange(lo + 1, hi as int));
        lo = lo + 1;
    }
    while lo < hi && is_ws_char(cs[hi - 1])
        invariant
            lo <= hi <= cs.len(),
            lo < hi ==> !is_ws(cs@[lo as int]),
            trimmed(cs@.subrange(lo as int, hi as int)) == trimmed(cs@),
        decreases hi - lo,
    {
        let ghost sub = cs@.subrange(lo as int, hi as int);
        assert(sub.drop_last() =~= cs@.subrange(lo as int, hi - 1));
        assert(sub[0] == cs@[lo as int]);
        hi = hi - 1;
    }
    let ghost sub = cs@.subrange(lo as int, hi as int);
    assert(sub.len() > 0 ==> sub[0] == cs@[lo as int] && sub.last() == cs@[hi - 1]);
    chars_slice(cs, lo, hi)
}

/// The description a function's doc literals give.
pub fn doc_string(docs: &[&str]) -> (r: String)
    ensures
        r@ == doc_text(docs@.map_values(|d: &str| d@)),
{
    let crlf = chars_of("\r\n");
    let lf = chars_of("\n");
    proof {
        reveal_strlit("\r\n");
        reveal_strlit("\n");
    }
    let mut out: Vec<char> = Vec::new();
    let mut i: usize = 0;
    assert(docs@.take(0).map_values(|d: &str| d@) =~= Seq::<Seq<char>>::empty());
    while i < docs.len()
        invariant
            i <= docs.len(),
            crlf@ == "\r\n"@,
            lf@ == "\n"@,
            out@ == joined_lines(docs@.take(i as int).map_values(|d: &str| d@)),
        decreases docs.len() - i,
    {
        let ghost before = docs@.take(i as int).map_values(|d: &str| d@);
        let ghost after = docs@.take(i + 1).map_values(|d: &str| d@);
        assert(after.drop_last() =~= before);
        assert(after.last() == docs@[i as int]@);
        let line = trim_vec(&replace_chars(&chars_of(docs[i]), &crlf, &lf));
        assert(line@ == doc_line(after.last()));
        proof {
            reveal_strlit("\n");
            if i == 0 {
                assert(after.len() == 1);
            }
        }
        if i > 0 {
            out.push('\n');
        }
        push_all(&mut out, &line);
        assert(out@ =~= joined_lines(after));
        i = i + 1;
    }
    assert(docs@.take(docs@.len() as int) =~= docs@);
    string_from_chars(trim_vec(&out))
}

} // verus!
