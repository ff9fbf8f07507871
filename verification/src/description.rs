//! How a tool's inline description template is resolved, and the checks
//! between the parameters a template declares and the `params(...)` values
//! an attribute gives it.
use vstd::prelude::*;
use crate::mcp::dispatch::is_ws_char;
use crate::template_syntax::{trim_start, FRONTMATTER_DELIM};
use crate::attrs::ToolAttrFlags;
use crate::text::{chars_of, chars_match_at, occurs_at, push_str, str_eq, string_from_chars};

verus! {

/// How an inline description template becomes the tool's description.
#[derive(Debug, Clone, Copy, PartialEq, Eq, Structural)]
pub enum DescriptionPlan {
    /// No frontmatter: the text is the description as written.
    Verbatim,
    /// Frontmatter that declares nothing, with neither params nor context:
    /// the trimmed body is the description.
    StaticBody,
    /// Rendered when the tool is built, with the `params(...)` values.
    RenderWithParams,
    /// Rendered on every request, from the `context = ...` function.
    RenderWithContext,
    /// The template declares parameters but nothing supplies them.
    MissingInputs,
}

/// Whether `s` opens with a frontmatter delimiter once leading whitespace
/// is skipped.
pub open spec fn opens_frontmatter(s: Seq<char>) -> bool {
    let t = trim_start(s);
    let d = FRONTMATTER_DELIM@;
    t.len() >= d.len() && t.take(d.len() as int) == d
}

/// The plan for an inline template `source`, given whether its frontmatter
/// declares parameters and whether the attribute gives params or context.
pub open spec fn plan_of(source: Seq<char>, has_declarations: bool, has_params: bool, has_context: bool) -> DescriptionPlan {
    if !opens_frontmatter(source) {
        DescriptionPlan::Verbatim
    } else if !has_declarations && !has_params && !has_context {
        DescriptionPlan::StaticBody
    } else if has_params {
        DescriptionPlan::RenderWithParams
    } else if has_context {
        DescriptionPlan::RenderWithContext
    } else {
        DescriptionPlan::MissingInputs
    }
}

/// Whether `source` opens with a frontmatter delimiter.
pub fn opens_with_frontmatter(source: &str) -> (r: bool)
    ensures
        r == opens_frontmatter(source@),
{
    let cs = chars_of(source);
    let mut i: usize = 0;
    assert(cs@.skip(0) =~= cs@);
    while i < cs.len() && is_ws_char(cs[i])
        invariant
            i <= cs.len(),
            trim_start(cs@.skip(i as int)) == trim_start(cs@),
        decreases cs.len() - i,
    {
        assert(cs@.skip(i as int).skip(1) =~= cs@.skip(i + 1));
        i = i + 1;
    }
    let ghost t = cs@.skip(i as int);
    assert(trim_start(cs@) == t);
    let delim = chars_of(FRONTMATTER_DELIM);
    assert(occurs_at(cs@, delim@, i as int) == (t.len() >= delim@.len() && t.take(delim@.len() as int) == delim@)) by {
        if t.len() >= delim@.len() {
            assert(cs@.subrange(i as int, i + delim@.len()) =~= t.take(delim@.len() as int));
        }
    }
    chars_match_at(&cs, &delim, i)
}

/// The plan for an inline description template: frontmatter is read only
/// when the source opens with it, and `params(...)` wins over `context`.
pub fn inline_description_plan(source: &str, has_declarations: bool, has_params: bool, has_context: bool) -> (r:
    DescriptionPlan)
    ensures
        r == plan_of(source@, has_declarations, has_params, has_context),
{
    if !opens_with_frontmatter(source) {
        DescriptionPlan::Verbatim
    } else if !has_declarations && !has_params && !has_context {
        DescriptionPlan::StaticBody
    } else if has_params {
        DescriptionPlan::RenderWithParams
    } else if has_context {
        DescriptionPlan::RenderWithContext
    } else {
        DescriptionPlan::MissingInputs
    }
}

/// The views of a list of names.
pub open spec fn names_of(names: Seq<&str>) -> Seq<Seq<char>> {
    names.map_values(|n: &str| n@)
}

/// The names joined with `, `.
pub open spec fn joined(names: Seq<Seq<char>>) -> Seq<char>
    decreases names.len(),
{
    if names.len() == 0 {
        Seq::empty()
    } else if names.len() == 1 {
        names[0]
    } else {
        joined(names.drop_last()) + ", "@ + names.last()
    }
}

/// The message for a template that declares `names` but is given neither
/// params nor context.
pub open spec fn missing_inputs_message(names: Seq<Seq<char>>) -> Seq<char> {
    "inline template declares parameters ("@ + joined(names)
        + ") but neither `params(...)` nor `context = ...` was provided"@
}

fn push_joined(v: &mut Vec<char>, names: &[&str])
    ensures
        final(v)@ == old(v)@ + joined(names_of(names@)),
{
    let ghost start = v@;
    let mut i: usize = 0;
    assert(names_of(names@.take(0)) =~= Seq::<Seq<char>>::empty());
    while i < names.len()
        invariant
            i <= names.len(),
            v@ == start + joined(names_of(names@.take(i as int))),
        decreases names.len() - i,
    {
        let ghost before = names_of(names@.take(i as int));
        let ghost after = names_of(names@.take(i + 1));
        assert(after.drop_last() =~= before);
        assert(after.last() == names@[i as int]@);
        if i > 0 {
            push_str(v, ", ");
            proof {
                reveal_strlit(", ");
            }
        }
        push_str(v, names[i]);
        proof {
            if i == 0 {
                assert(after.len() == 1);
            }
        }
        assert(v@ =~= start + joined(after));
        i = i + 1;
    }
    assert(names@.take(names@.len() as int) =~= names@);
}

/// The message for a template that declares `names` but is given neither
/// params nor context.
pub fn missing_inputs_error(names: &[&str]) -> (r: String)
    ensures
        r@ == missing_inputs_message(names_of(names@)),
{
    let mut v: Vec<char> = Vec::new();
    push_str(&mut v, "inline template declares parameters (");
    push_joined(&mut v, names);
    push_str(&mut v, ") but neither `params(...)` nor `context = ...` was provided");
    proof {
        reveal_strlit("inline template declares parameters (");
        reveal_strlit(") but neither `params(...)` nor `context = ...` was provided");
    }
    assert(v@ =~= missing_inputs_message(names_of(names@)));
    string_from_chars(v)
}

/// Whether `name` is among `names`.
pub open spec fn listed(names: Seq<&str>, name: Seq<char>) -> bool {
    exists|i: int| 0 <= i < names.len() && #[trigger] names[i]@ == name
}

/// The declared parameters that no `params(...)` value gives, in
/// declaration order.
pub open spec fn missing_params(declared: Seq<&str>, provided: Seq<&str>) -> Seq<Seq<char>>
    decreases declared.len(),
{
    if declared.len() == 0 {
        Seq::empty()
    } else {
        let rest = missing_params(declared.drop_last(), provided);
        if listed(provided, declared.last()@) {
            rest
        } else {
            rest.push(declared.last()@)
        }
    }
}

/// The first `params(...)` key, in attribute order, that the template does
/// not declare.
pub open spec fn first_undeclared(declared: Seq<&str>, provided: Seq<&str>) -> Option<Seq<char>>
    decreases provided.len(),
{
    if provided.len() == 0 {
        None
    } else if !listed(declared, provided[0]@) {
        Some(provided[0]@)
    } else {
        first_undeclared(declared, provided.skip(1))
    }
}

/// A variable a template's frontmatter declares: a plain parameter, or a
/// struct whose fields are given one by one.
#[derive(Debug, Clone, PartialEq, Eq)]
pub struct DeclaredParam<'a> {
    /// The variable's name.
    pub name: &'a str,
    /// The field names of a struct variable; `None` for a plain one.
    pub fields: Option<Vec<&'a str>>,
}

/// The parameter names one declaration expects: a struct's field names,
/// else the variable's own name.
pub open spec fn decl_params<'a>(d: DeclaredParam<'a>) -> Seq<&'a str> {
    match d.fields {
        Some(fs) => fs@,
        None => seq![d.name],
    }
}

/// The parameter names a template's declarations expect, in declaration
/// order, struct variables flattened into their fields.
pub open spec fn flat_params<'a>(ds: Seq<DeclaredParam<'a>>) -> Seq<&'a str>
    decreases ds.len(),
{
    if ds.len() == 0 {
        Seq::empty()
    } else {
        flat_params(ds.drop_last()) + decl_params(ds.last())
    }
}

/// The struct variable whose fields include `key` (the last such
/// declaration), if any.
pub open spec fn field_owner(ds: Seq<DeclaredParam>, key: Seq<char>) -> Option<Seq<char>>
    decreases ds.len(),
{
    if ds.len() == 0 {
        None
    } else if ds.last().fields matches Some(fs) && listed(fs@, key) {
        Some(ds.last().name@)
    } else {
        field_owner(ds.drop_last(), key)
    }
}

/// The parameter names the declarations expect, in declaration order, each
/// struct variable replaced by its fields: the names `params(...)` must
/// give, checked by [`check_template_params`].
pub fn expected_params<'a>(decls: &Vec<DeclaredParam<'a>>) -> (r: Vec<&'a str>)
    ensures
        r@ == flat_params(decls@),
{
    let mut out: Vec<&'a str> = Vec::new();
    let mut i: usize = 0;
    while i < decls.len()
        invariant
            i <= decls@.len(),
            out@ == flat_params(decls@.take(i as int)),
        decreases decls.len() - i,
    {
        assert(decls@.take(i + 1).drop_last() =~= decls@.take(i as int));
        let d = &decls[i];
        match &d.fields {
            Some(fs) => {
                let ghost start = out@;
                let mut j: usize = 0;
                while j < fs.len()
                    invariant
                        j <= fs@.len(),
                        out@ == start + fs@.take(j as int),
                    decreases fs.len() - j,
                {
                    out.push(fs[j]);
                    assert(fs@.take(j + 1) =~= fs@.take(j as int).push(fs@[j as int]));
                    j = j + 1;
                }
                assert(fs@.take(fs@.len() as int) =~= fs@);
            },
            None => {
                out.push(d.name);
            },
        }
        i = i + 1;
    }
    assert(decls@.take(decls@.len() as int) =~= decls@);
    out
}

/// The struct variable a `params(...)` key is a field of (the last
/// declaration listing it), or `None` for a key that stands at the top of
/// the render context.
pub fn param_owner<'a>(decls: &Vec<DeclaredParam<'a>>, key: &str) -> (r: Option<&'a str>)
    ensures
        match field_owner(decls@, key@) {
            Some(n) => r matches Some(o) && o@ == n,
            None => r is None,
        },
{
    let mut i: usize = decls.len();
    assert(decls@.take(i as int) =~= decls@);
    while i > 0
        invariant
            i <= decls@.len(),
            field_owner(decls@, key@) == field_owner(decls@.take(i as int), key@),
        decreases i,
    {
        let d = &decls[i - 1];
        assert(decls@.take(i as int).last() == decls@[i - 1]);
        assert(decls@.take(i as int).drop_last() =~= decls@.take(i - 1));
        if let Some(fs) = &d.fields {
            if is_listed(fs.as_slice(), key) {
                return Some(d.name);
            }
        }
        i = i - 1;
    }
    None
}

/// How the `params(...)` keys of an attribute fail to match the parameters
/// its template declares.
#[derive(Debug, Clone, PartialEq, Eq)]
pub enum ParamsMismatch {
    /// Declared parameters that no key gives, in declaration order.
    Missing(Vec<String>),
    /// A key the template does not declare.
    Undeclared(String),
}

fn is_listed(names: &[&str], name: &str) -> (r: bool)
    ensures
        r == listed(names@, name@),
{
    let mut i: usize = 0;
    while i < names.len()
        invariant
            i <= names.len(),
            forall|j: int| 0 <= j < i ==> #[trigger] names@[j]@ != name@,
        decreases names.len() - i,
    {
        if str_eq(names[i], name) {
            assert(names@[i as int]@ == name@);
            return true;
        }
        i = i + 1;
    }
    false
}

/// Check the `params(...)` keys `provided` against the parameters
/// `declared` by the template: missing parameters are reported first, all
/// of them; otherwise the first undeclared key.
pub fn check_template_params(declared: &[&str], provided: &[&str]) -> (r: Result<(), ParamsMismatch>)
    ensures
        missing_params(declared@, provided@).len() > 0 ==> (r matches Err(ParamsMismatch::Missing(v)) && v@.len()
            == missing_params(declared@, provided@).len() && forall|i: int|
            0 <= i < v@.len() ==> #[trigger] v@[i]@ == missing_params(declared@, provided@)[i]),
        missing_params(declared@, provided@).len() == 0 ==> match first_undeclared(declared@, provided@) {
            Some(n) => r matches Err(ParamsMismatch::Undeclared(u)) && u@ == n,
            None => r is Ok,
        },
{
    let mut missing: Vec<String> = Vec::new();
    let mut i: usize = 0;
    while i < declared.len()
        invariant
            i <= declared.len(),
            missing@.len() == missing_params(declared@.take(i as int), provided@).len(),
            forall|j: int| 0 <= j < missing@.len() ==> #[trigger] missing@[j]@ == missing_params(
                declared@.take(i as int),
                provided@,
            )[j],
        decreases declared.len() - i,
    {
        assert(declared@.take(i + 1).drop_last() =~= declared@.take(i as int));
        assert(declared@.take(i + 1).last() == declared@[i as int]);
        if !is_listed(provided, declared[i]) {
            missing.push(String::from_str(declared[i]));
        }
        i = i + 1;
    }
    assert(declared@.take(declared@.len() as int) =~= declared@);
    if missing.len() > 0 {
        return Err(ParamsMismatch::Missing(missing));
    }
    let mut k: usize = 0;
    assert(provided@.skip(0) =~= provided@);
    while k < provided.len()
        invariant
            k <= provided.len(),
            missing_params(declared@, provided@).len() == 0,
            first_undeclared(declared@, provided@) == first_undeclared(declared@, provided@.skip(k as int)),
        decreases provided.len() - k,
    {
        assert(provided@.skip(k as int)[0] == provided@[k as int]);
        assert(provided@.skip(k as int).skip(1) =~= provided@.skip(k + 1));
        if !is_listed(declared, provided[k]) {
            return Err(ParamsMismatch::Undeclared(String::from_str(provided[k])));
        }
        k = k + 1;
    }
    Ok(())
}

/// The message for declared parameters that no key gives.
pub open spec fn missing_params_message(rel_path: Seq<char>, missing: Seq<Seq<char>>) -> Seq<char> {
    "template '"@ + rel_path + "' declares parameters not provided in `params(...)`: "@ + joined(missing)
}

/// The message for a key the template does not declare.
pub open spec fn undeclared_param_message(key: Seq<char>, rel_path: Seq<char>, declared: Seq<Seq<char>>) -> Seq<char> {
    "param `"@ + key + "` is not declared in template '"@ + rel_path + "'. Declared params: "@ + joined(declared)
}

impl ParamsMismatch {
    /// The message reporting this mismatch for the template at `rel_path`,
    /// which declares `declared`.
    pub fn message(&self, rel_path: &str, declared: &[&str]) -> (r: String)
        ensures
            match self {
                ParamsMismatch::Missing(v) => r@ == missing_params_message(rel_path@, v@.map_values(|s: String| s@)),
                ParamsMismatch::Undeclared(u) => r@ == undeclared_param_message(u@, rel_path@, names_of(declared@)),
            },
    {
        let mut v: Vec<char> = Vec::new();
        match self {
            ParamsMismatch::Missing(names) => {
                let mut refs: Vec<&str> = Vec::new();
                let mut i: usize = 0;
                while i < names.len()
                    invariant
                        i <= names.len(),
                        refs@.len() == i,
                        forall|j: int| 0 <= j < i ==> #[trigger] refs@[j]@ == names@[j]@,
                    decreases names.len() - i,
                {
                    refs.push(names[i].as_str());
                    i = i + 1;
                }
                assert(names_of(refs@) =~= names@.map_values(|s: String| s@));
                push_str(&mut v, "template '");
                push_str(&mut v, rel_path);
                push_str(&mut v, "' declares parameters not provided in `params(...)`: ");
                push_joined(&mut v, refs.as_slice());
                proof {
                    reveal_strlit("template '");
                    reveal_strlit("' declares parameters not provided in `params(...)`: ");
                }
            },
            ParamsMismatch::Undeclared(u) => {
                push_str(&mut v, "param `");
                push_str(&mut v, u.as_str());
                push_str(&mut v, "` is not declared in template '");
                push_str(&mut v, rel_path);
                push_str(&mut v, "'. Declared params: ");
                push_joined(&mut v, declared);
                proof {
                    reveal_strlit("param `");
                    reveal_strlit("` is not declared in template '");
                    reveal_strlit("'. Declared params: ");
                }
            },
        }
        string_from_chars(v)
    }
}

/// Where a tool's description comes from.
#[derive(Debug, Clone, Copy, PartialEq, Eq, Structural)]
pub enum DescriptionSource {
    /// The attribute's inline `description = "..."`.
    Inline,
    /// The template file of `description_file = "..."`.
    TemplateFile,
    /// The function's doc comment.
    DocComment,
}

/// The source of the description of a tool whose attribute gives `f` and
/// whose doc comment reads `doc`, or why there is none: an inline
/// description comes first, then a template file, then the doc comment,
/// which must not be empty; dynamic descriptions need template support.
pub open spec fn description_source_of(f: ToolAttrFlags, doc: Seq<char>) -> Result<DescriptionSource, Seq<char>> {
    if f.description_inline {
        if !f.md_tmpl && (f.inline_params || f.context_fn) {
            Err("the `md-tmpl` feature must be enabled to use dynamic inline prompts"@)
        } else {
            Ok(DescriptionSource::Inline)
        }
    } else if f.description_file {
        if !f.md_tmpl {
            Err(
                "the `md-tmpl` feature must be enabled to use `#[llm_tool(prompt_file = \"...\")]`. Add `features = [\"md-tmpl\"]` to your llm-tool dependency."@,
            )
        } else {
            Ok(DescriptionSource::TemplateFile)
        }
    } else if doc.len() == 0 {
        Err(
            "#[llm_tool] functions must have a doc comment (used as the tool description), or use #[llm_tool(prompt = \"...\")]"@,
        )
    } else {
        Ok(DescriptionSource::DocComment)
    }
}

/// The source of a tool's description.
pub fn description_source(f: &ToolAttrFlags, doc: &str) -> (r: Result<DescriptionSource, String>)
    ensures
        match description_source_of(*f, doc@) {
            Ok(src) => r == Ok::<DescriptionSource, String>(src),
            Err(m) => r matches Err(e) && e@ == m,
        },
{
    if f.description_inline {
        if !f.md_tmpl && (f.inline_params || f.context_fn) {
            Err(String::from_str("the `md-tmpl` feature must be enabled to use dynamic inline prompts"))
        } else {
            Ok(DescriptionSource::Inline)
        }
    } else if f.description_file {
        if !f.md_tmpl {
            Err(
                String::from_str(
                    "the `md-tmpl` feature must be enabled to use `#[llm_tool(prompt_file = \"...\")]`. Add `features = [\"md-tmpl\"]` to your llm-tool dependency.",
                ),
            )
        } else {
            Ok(DescriptionSource::TemplateFile)
        }
    } else if doc.unicode_len() == 0 {
        Err(
            String::from_str(
                "#[llm_tool] functions must have a doc comment (used as the tool description), or use #[llm_tool(prompt = \"...\")]",
            ),
        )
    } else {
        Ok(DescriptionSource::DocComment)
    }
}

/// Where a tool's response template comes from.
#[derive(Debug, Clone, Copy, PartialEq, Eq, Structural)]
pub enum ResponseSource {
    /// The template file of `response_file = "..."`.
    TemplateFile,
    /// The attribute's inline `response = "..."`.
    Inline,
}

/// The response template of a tool whose attribute gives `f`: none, the
/// file (which wins over an inline template) or the inline template, each
/// needing template support.
pub open spec fn response_source_of(f: ToolAttrFlags) -> Result<Option<ResponseSource>, Seq<char>> {
    if f.response_file {
        if f.md_tmpl {
            Ok(Some(ResponseSource::TemplateFile))
        } else {
            Err("the `md-tmpl` feature must be enabled to use `response_file`"@)
        }
    } else if f.response_inline {
        if f.md_tmpl {
            Ok(Some(ResponseSource::Inline))
        } else {
            Err("the `md-tmpl` feature must be enabled to use `response`"@)
        }
    } else {
        Ok(None)
    }
}

/// The response template source of a tool.
pub fn response_source(f: &ToolAttrFlags) -> (r: Result<Option<ResponseSource>, String>)
    ensures
        match response_source_of(*f) {
            Ok(src) => r == Ok::<Option<ResponseSource>, String>(src),
            Err(m) => r matches Err(e) && e@ == m,
        },
{
    if f.response_file {
        if f.md_tmpl {
            Ok(Some(ResponseSource::TemplateFile))
        } else {
            Err(String::from_str("the `md-tmpl` feature must be enabled to use `response_file`"))
        }
    } else if f.response_inline {
        if f.md_tmpl {
            Ok(Some(ResponseSource::Inline))
        } else {
            Err(String::from_str("the `md-tmpl` feature must be enabled to use `response`"))
        }
    } else {
        Ok(None)
    }
}

} // verus!
