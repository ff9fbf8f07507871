//! Attribute keys of the `#[llm_tool]` and `#[llm_resource]` macros and the
//! consistency rules of a tool attribute.
use vstd::prelude::*;
use crate::text::{push_str, str_eq, string_from_chars};

verus! {

/// `description = "..."`.
pub const ATTR_DESCRIPTION: &'static str = "description";
/// `description_file = "..."`.
pub const ATTR_DESCRIPTION_FILE: &'static str = "description_file";
/// `response_file = "..."`.
pub const ATTR_RESPONSE_FILE: &'static str = "response_file";
/// `response = "..."`.
pub const ATTR_RESPONSE: &'static str = "response";
/// `params(...)`.
pub const ATTR_PARAMS: &'static str = "params";
/// `context = ...`.
pub const ATTR_CONTEXT: &'static str = "context";
/// `env(...)`.
pub const ATTR_ENV: &'static str = "env";
/// `uri = "..."`.
pub const ATTR_URI: &'static str = "uri";
/// `uri_template = "..."`, an alias of `uri`.
pub const ATTR_URI_TEMPLATE: &'static str = "uri_template";
/// `name = "..."`.
pub const ATTR_NAME: &'static str = "name";
/// `mime_type = "..."`.
pub const ATTR_MIME_TYPE: &'static str = "mime_type";
/// `mime = "..."`, an alias of `mime_type`.
pub const ATTR_MIME: &'static str = "mime";

/// A key of the `#[llm_tool(...)]` attribute.
#[derive(Copy, Clone, PartialEq, Eq, Structural, Debug)]
pub enum ToolAttrKey {
    /// `description`.
    Description,
    /// `description_file`.
    DescriptionFile,
    /// `response_file`.
    ResponseFile,
    /// `response`.
    Response,
    /// `params`.
    Params,
    /// `env`.
    Env,
    /// `context`.
    Context,
}

/// The written name of a tool attribute key.
pub open spec fn tool_key_name(k: ToolAttrKey) -> Seq<char> {
    match k {
        ToolAttrKey::Description => ATTR_DESCRIPTION@,
        ToolAttrKey::DescriptionFile => ATTR_DESCRIPTION_FILE@,
        ToolAttrKey::ResponseFile => ATTR_RESPONSE_FILE@,
        ToolAttrKey::Response => ATTR_RESPONSE@,
        ToolAttrKey::Params => ATTR_PARAMS@,
        ToolAttrKey::Env => ATTR_ENV@,
        ToolAttrKey::Context => ATTR_CONTEXT@,
    }
}

/// The message listing the expected tool attribute keys.
pub open spec fn tool_keys_message() -> Seq<char> {
    "expected `description`, `description_file`, `response`, `response_file`, `params`, `env`, or `context`"@
}

impl ToolAttrKey {
    /// The written name of the key.
    pub fn as_str(self) -> (r: &'static str)
        ensures
            r@ == tool_key_name(self),
    {
        match self {
            ToolAttrKey::Description => ATTR_DESCRIPTION,
            ToolAttrKey::DescriptionFile => ATTR_DESCRIPTION_FILE,
            ToolAttrKey::ResponseFile => ATTR_RESPONSE_FILE,
            ToolAttrKey::Response => ATTR_RESPONSE,
            ToolAttrKey::Params => ATTR_PARAMS,
            ToolAttrKey::Env => ATTR_ENV,
            ToolAttrKey::Context => ATTR_CONTEXT,
        }
    }

    /// The key written `name`, or the message listing the expected keys.
    pub fn from_name(name: &str) -> (r: Result<ToolAttrKey, String>)
        ensures
            match r {
                Ok(k) => tool_key_name(k) == name@,
                Err(msg) => (forall|k: ToolAttrKey| tool_key_name(k) != name@) && msg@ == tool_keys_message(),
            },
    {
        if str_eq(name, ATTR_DESCRIPTION) {
            Ok(ToolAttrKey::Description)
        } else if str_eq(name, ATTR_DESCRIPTION_FILE) {
            Ok(ToolAttrKey::DescriptionFile)
        } else if str_eq(name, ATTR_RESPONSE) {
            Ok(ToolAttrKey::Response)
        } else if str_eq(name, ATTR_RESPONSE_FILE) {
            Ok(ToolAttrKey::ResponseFile)
        } else if str_eq(name, ATTR_PARAMS) {
            Ok(ToolAttrKey::Params)
        } else if str_eq(name, ATTR_ENV) {
            Ok(ToolAttrKey::Env)
        } else if str_eq(name, ATTR_CONTEXT) {
            Ok(ToolAttrKey::Context)
        } else {
            assert forall|k: ToolAttrKey| tool_key_name(k) != name@ by {
                match k {
                    ToolAttrKey::Description => {},
                    ToolAttrKey::DescriptionFile => {},
                    ToolAttrKey::ResponseFile => {},
                    ToolAttrKey::Response => {},
                    ToolAttrKey::Params => {},
                    ToolAttrKey::Env => {},
                    ToolAttrKey::Context => {},
                }
            }
            Err(Self::expected_keys_message())
        }
    }

    /// The message listing the expected keys: each key in backquotes, in
    /// listing order, the last one after `or`.
    pub fn expected_keys_message() -> (r: String)
        ensures
            r@ == tool_keys_message(),
    {
        let mut v: Vec<char> = Vec::new();
        push_str(&mut v, "expected `");
        push_str(&mut v, ToolAttrKey::Description.as_str());
        push_str(&mut v, "`, `");
        push_str(&mut v, ToolAttrKey::DescriptionFile.as_str());
        push_str(&mut v, "`, `");
        push_str(&mut v, ToolAttrKey::Response.as_str());
        push_str(&mut v, "`, `");
        push_str(&mut v, ToolAttrKey::ResponseFile.as_str());
        push_str(&mut v, "`, `");
        push_str(&mut v, ToolAttrKey::Params.as_str());
        push_str(&mut v, "`, `");
        push_str(&mut v, ToolAttrKey::Env.as_str());
        push_str(&mut v, "`, or `");
        push_str(&mut v, ToolAttrKey::Context.as_str());
        push_str(&mut v, "`");
        proof {
            reveal_strlit("expected `description`, `description_file`, `response`, `response_file`, `params`, `env`, or `context`");
            reveal_strlit("expected `");
            reveal_strlit("`, `");
            reveal_strlit("`, or `");
            reveal_strlit("`");
            reveal_strlit("description");
            reveal_strlit("description_file");
            reveal_strlit("response");
            reveal_strlit("response_file");
            reveal_strlit("params");
            reveal_strlit("env");
            reveal_strlit("context");
        }
        assert(v@ =~= tool_keys_message());
        string_from_chars(v)
    }
}

/// A key of the `#[llm_resource(...)]` attribute.
#[derive(Copy, Clone, PartialEq, Eq, Structural, Debug)]
pub enum ResourceAttrKey {
    /// `uri` (alias `uri_template`).
    Uri,
    /// `name`.
    Name,
    /// `description`.
    Description,
    /// `description_file`.
    DescriptionFile,
    /// `mime_type` (alias `mime`).
    MimeType,
    /// `params`.
    Params,
    /// `env`.
    Env,
    /// `context`.
    Context,
}

/// The canonical written name of a resource attribute key.
pub open spec fn resource_key_name(k: ResourceAttrKey) -> Seq<char> {
    match k {
        ResourceAttrKey::Uri => ATTR_URI@,
        ResourceAttrKey::Name => ATTR_NAME@,
        ResourceAttrKey::Description => ATTR_DESCRIPTION@,
        ResourceAttrKey::DescriptionFile => ATTR_DESCRIPTION_FILE@,
        ResourceAttrKey::MimeType => ATTR_MIME_TYPE@,
        ResourceAttrKey::Params => ATTR_PARAMS@,
        ResourceAttrKey::Env => ATTR_ENV@,
        ResourceAttrKey::Context => ATTR_CONTEXT@,
    }
}

/// Every name a resource attribute key may be written as.
pub open spec fn resource_key_aliases(k: ResourceAttrKey) -> Seq<Seq<char>> {
    match k {
        ResourceAttrKey::Uri => seq![ATTR_URI@, ATTR_URI_TEMPLATE@],
        ResourceAttrKey::MimeType => seq![ATTR_MIME_TYPE@, ATTR_MIME@],
        _ => seq![resource_key_name(k)],
    }
}

/// The message for an unknown resource attribute key `s`.
pub open spec fn resource_keys_message(s: Seq<char>) -> Seq<char> {
    "unknown attribute key `"@ + s
        + "`, expected one of: `uri`, `name`, `description`, `description_file`, `mime_type`, `params`, `env`, `context`"@
}

impl ResourceAttrKey {
    /// The canonical written name of the key.
    pub fn as_str(self) -> (r: &'static str)
        ensures
            r@ == resource_key_name(self),
    {
        match self {
            ResourceAttrKey::Uri => ATTR_URI,
            ResourceAttrKey::Name => ATTR_NAME,
            ResourceAttrKey::Description => ATTR_DESCRIPTION,
            ResourceAttrKey::DescriptionFile => ATTR_DESCRIPTION_FILE,
            ResourceAttrKey::MimeType => ATTR_MIME_TYPE,
            ResourceAttrKey::Params => ATTR_PARAMS,
            ResourceAttrKey::Env => ATTR_ENV,
            ResourceAttrKey::Context => ATTR_CONTEXT,
        }
    }

    /// Every name the key may be written as, the canonical one first.
    pub fn aliases(self) -> (r: Vec<&'static str>)
        ensures
            r@.len() == resource_key_aliases(self).len(),
            forall|i: int| 0 <= i < r@.len() ==> #[trigger] r@[i]@ == resource_key_aliases(self)[i],
    {
        let mut v: Vec<&'static str> = Vec::new();
        match self {
            ResourceAttrKey::Uri => {
                v.push(ATTR_URI);
                v.push(ATTR_URI_TEMPLATE);
            },
            ResourceAttrKey::MimeType => {
                v.push(ATTR_MIME_TYPE);
                v.push(ATTR_MIME);
            },
            _ => {
                v.push(self.as_str());
            },
        }
        v
    }

    /// The key written `name` (under any of its aliases), or the message
    /// naming the unknown key and listing the expected ones.
    pub fn from_name(name: &str) -> (r: Result<ResourceAttrKey, String>)
        ensures
            match r {
                Ok(k) => resource_key_aliases(k).contains(name@),
                Err(msg) => (forall|k: ResourceAttrKey| !resource_key_aliases(k).contains(name@)) && msg@
                    == resource_keys_message(name@),
            },
    {
        let r = if str_eq(name, ATTR_URI) || str_eq(name, ATTR_URI_TEMPLATE) {
            Some(ResourceAttrKey::Uri)
        } else if str_eq(name, ATTR_NAME) {
            Some(ResourceAttrKey::Name)
        } else if str_eq(name, ATTR_DESCRIPTION) {
            Some(ResourceAttrKey::Description)
        } else if str_eq(name, ATTR_DESCRIPTION_FILE) {
            Some(ResourceAttrKey::DescriptionFile)
        } else if str_eq(name, ATTR_MIME_TYPE) || str_eq(name, ATTR_MIME) {
            Some(ResourceAttrKey::MimeType)
        } else if str_eq(name, ATTR_PARAMS) {
            Some(ResourceAttrKey::Params)
        } else if str_eq(name, ATTR_ENV) {
            Some(ResourceAttrKey::Env)
        } else if str_eq(name, ATTR_CONTEXT) {
            Some(ResourceAttrKey::Context)
        } else {
            None
        };
        match r {
            Some(k) => {
                assert(resource_key_aliases(k).contains(name@)) by {
                    if name@ == resource_key_aliases(k)[0] {
                    } else {
                        assert(name@ == resource_key_aliases(k)[1]);
                    }
                }
                Ok(k)
            },
            None => {
                assert forall|k: ResourceAttrKey| !resource_key_aliases(k).contains(name@) by {
                    let a = resource_key_aliases(k);
                    assert forall|i: int| 0 <= i < a.len() implies a[i] != name@ by {
                    }
                }
                let mut v: Vec<char> = Vec::new();
                push_str(&mut v, "unknown attribute key `");
                push_str(&mut v, name);
                push_str(&mut v, "`, expected one of: `uri`, `name`, `description`, `description_file`, `mime_type`, `params`, `env`, `context`");
                Err(string_from_chars(v))
            },
        }
    }
}

/// Which parts a `#[llm_tool(...)]` attribute gave, and whether template
/// support (`md-tmpl`) is built in.
#[derive(Copy, Clone, Debug, Default)]
pub struct ToolAttrFlags {
    /// `description = "..."` was given.
    pub description_inline: bool,
    /// `description_file = "..."` was given.
    pub description_file: bool,
    /// `response_file = "..."` was given.
    pub response_file: bool,
    /// `response = "..."` was given.
    pub response_inline: bool,
    /// `params(...)` was given with at least one entry.
    pub inline_params: bool,
    /// `context = ...` was given.
    pub context_fn: bool,
    /// `env(...)` was given with at least one entry.
    pub env: bool,
    /// Template support (`md-tmpl`) is built in.
    pub md_tmpl: bool,
}

/// The first rule a tool attribute breaks, as its message, checked in
/// order: the two mutual exclusions of description and response forms,
/// `params` against `context`, `params`, `context` and `env` each needing a
/// description, and without template support no `description_file`,
/// `response_file` or `response`.
pub open spec fn tool_attr_error(f: ToolAttrFlags) -> Option<Seq<char>> {
    let has_description = f.description_inline || f.description_file;
    if f.description_inline && f.description_file {
        Some("`description` and `description_file` are mutually exclusive"@)
    } else if f.response_file && f.response_inline {
        Some("`response` and `response_file` are mutually exclusive"@)
    } else if f.inline_params && f.context_fn {
        Some("`params(...)` and `context = ...` are mutually exclusive; use `params` for compile-time values or `context` for runtime values"@)
    } else if f.inline_params && !has_description {
        Some("`params(...)` requires `description_file = \"...\"` or `description = \"...\"`"@)
    } else if f.context_fn && !has_description {
        Some("`context = ...` requires `description_file = \"...\"` or `description = \"...\"`"@)
    } else if f.env && !has_description {
        Some("`env(...)` requires `description_file = \"...\"` or `description = \"...\"`"@)
    } else if !f.md_tmpl && f.description_file {
        Some("`description_file` requires the `md-tmpl` feature of `llm-tool`"@)
    } else if !f.md_tmpl && f.response_file {
        Some("`response_file` requires the `md-tmpl` feature of `llm-tool`"@)
    } else if !f.md_tmpl && f.response_inline {
        Some("`response` requires the `md-tmpl` feature of `llm-tool`"@)
    } else {
        None
    }
}

/// Check the consistency rules of a tool attribute, reporting the first
/// broken rule.
pub fn validate_tool_attr(f: &ToolAttrFlags) -> (r: Result<(), String>)
    ensures
        match tool_attr_error(*f) {
            Some(msg) => r matches Err(m) && m@ == msg,
            None => r is Ok,
        },
{
    let has_description = f.description_inline || f.description_file;
    if f.description_inline && f.description_file {
        return Err(String::from_str("`description` and `description_file` are mutually exclusive"));
    }
    if f.response_file && f.response_inline {
        return Err(String::from_str("`response` and `response_file` are mutually exclusive"));
    }
    if f.inline_params && f.context_fn {
        return Err(String::from_str("`params(...)` and `context = ...` are mutually exclusive; use `params` for compile-time values or `context` for runtime values"));
    }
    if f.inline_params && !has_description {
        return Err(String::from_str("`params(...)` requires `description_file = \"...\"` or `description = \"...\"`"));
    }
    if f.context_fn && !has_description {
        return Err(String::from_str("`context = ...` requires `description_file = \"...\"` or `description = \"...\"`"));
    }
    if f.env && !has_description {
        return Err(String::from_str("`env(...)` requires `description_file = \"...\"` or `description = \"...\"`"));
    }
    if !f.md_tmpl && f.description_file {
        return Err(String::from_str("`description_file` requires the `md-tmpl` feature of `llm-tool`"));
    }
    if !f.md_tmpl && f.response_file {
        return Err(String::from_str("`response_file` requires the `md-tmpl` feature of `llm-tool`"));
    }
    if !f.md_tmpl && f.response_inline {
        return Err(String::from_str("`response` requires the `md-tmpl` feature of `llm-tool`"));
    }
    Ok(())
}

/// Every tool attribute key is read back from its written name.
pub proof fn law_tool_key_round_trip(k: ToolAttrKey)
    ensures
        forall|j: ToolAttrKey| tool_key_name(j) == tool_key_name(k) ==> j == k,
{
    reveal_strlit("description");
    reveal_strlit("description_file");
    reveal_strlit("response_file");
    reveal_strlit("response");
    reveal_strlit("params");
    reveal_strlit("env");
    reveal_strlit("context");
    assert(ATTR_DESCRIPTION@.len() == 11);
    assert(ATTR_DESCRIPTION_FILE@.len() == 16);
    assert(ATTR_RESPONSE_FILE@.len() == 13);
    assert(ATTR_RESPONSE@.len() == 8);
    assert(ATTR_PARAMS@.len() == 6);
    assert(ATTR_ENV@.len() == 3);
    assert(ATTR_CONTEXT@.len() == 7);
    assert(ATTR_RESPONSE@[0] != ATTR_CONTEXT@[0]);
}

/// A valid attribute gives at most one form of description and of response,
/// and gives template inputs only beside a description.
pub proof fn law_valid_tool_attr(f: ToolAttrFlags)
    requires
        tool_attr_error(f) is None,
    ensures
        !(f.description_inline && f.description_file),
        !(f.response_file && f.response_inline),
        !(f.inline_params && f.context_fn),
        (f.inline_params || f.context_fn || f.env) ==> (f.description_inline || f.description_file),
        !f.md_tmpl ==> !f.description_file && !f.response_file && !f.response_inline,
{
}

/// The converse of [`law_valid_tool_attr`]: a tool attribute that breaks
/// none of the rules is accepted, and each message names a rule that the
/// attribute breaks.
pub proof fn law_tool_attr_complete(f: ToolAttrFlags)
    ensures
        (!(f.description_inline && f.description_file) && !(f.response_file && f.response_inline) && !(f.inline_params
            && f.context_fn) && ((f.inline_params || f.context_fn || f.env) ==> (f.description_inline
            || f.description_file)) && (!f.md_tmpl ==> !f.description_file && !f.response_file && !f.response_inline))
            ==> tool_attr_error(f) is None,
        tool_attr_error(f) == Some("`description` and `description_file` are mutually exclusive"@) ==> f.description_inline
            && f.description_file,
        tool_attr_error(f) == Some("`response` and `response_file` are mutually exclusive"@) ==> f.response_file
            && f.response_inline,
        tool_attr_error(f) == Some(
            "`params(...)` and `context = ...` are mutually exclusive; use `params` for compile-time values or `context` for runtime values"@,
        ) ==> f.inline_params && f.context_fn,
        tool_attr_error(f) == Some("`params(...)` requires `description_file = \"...\"` or `description = \"...\"`"@)
            ==> f.inline_params && !f.description_inline && !f.description_file,
        tool_attr_error(f) == Some("`context = ...` requires `description_file = \"...\"` or `description = \"...\"`"@)
            ==> f.context_fn && !f.description_inline && !f.description_file,
        tool_attr_error(f) == Some("`env(...)` requires `description_file = \"...\"` or `description = \"...\"`"@)
            ==> f.env && !f.description_inline && !f.description_file,
        tool_attr_error(f) == Some("`description_file` requires the `md-tmpl` feature of `llm-tool`"@) ==> !f.md_tmpl
            && f.description_file,
        tool_attr_error(f) == Some("`response_file` requires the `md-tmpl` feature of `llm-tool`"@) ==> !f.md_tmpl
            && f.response_file,
        tool_attr_error(f) == Some("`response` requires the `md-tmpl` feature of `llm-tool`"@) ==> !f.md_tmpl
            && f.response_inline,
{
    reveal_strlit("`description` and `description_file` are mutually exclusive");
    reveal_strlit("`response` and `response_file` are mutually exclusive");
    reveal_strlit("`params(...)` and `context = ...` are mutually exclusive; use `params` for compile-time values or `context` for runtime values");
    reveal_strlit("`params(...)` requires `description_file = \"...\"` or `description = \"...\"`");
    reveal_strlit("`context = ...` requires `description_file = \"...\"` or `description = \"...\"`");
    reveal_strlit("`env(...)` requires `description_file = \"...\"` or `description = \"...\"`");
    reveal_strlit("`description_file` requires the `md-tmpl` feature of `llm-tool`");
    reveal_strlit("`response_file` requires the `md-tmpl` feature of `llm-tool`");
    reveal_strlit("`response` requires the `md-tmpl` feature of `llm-tool`");
    assert("`description` and `description_file` are mutually exclusive"@.len() == 59);
    assert("`response` and `response_file` are mutually exclusive"@.len() == 53);
    assert("`params(...)` and `context = ...` are mutually exclusive; use `params` for compile-time values or `context` for runtime values"@.len() == 126);
    assert("`params(...)` requires `description_file = \"...\"` or `description = \"...\"`"@.len() == 74);
    assert("`context = ...` requires `description_file = \"...\"` or `description = \"...\"`"@.len() == 76);
    assert("`env(...)` requires `description_file = \"...\"` or `description = \"...\"`"@.len() == 71);
    assert("`description_file` requires the `md-tmpl` feature of `llm-tool`"@.len() == 63);
    assert("`response_file` requires the `md-tmpl` feature of `llm-tool`"@.len() == 60);
    assert("`response` requires the `md-tmpl` feature of `llm-tool`"@.len() == 55);
}

/// No name is an alias of two resource attribute keys, so every alias reads
/// back as its own key.
pub proof fn law_resource_aliases_distinct(j: ResourceAttrKey, k: ResourceAttrKey, a: Seq<char>)
    requires
        resource_key_aliases(j).contains(a),
        resource_key_aliases(k).contains(a),
    ensures
        j == k,
{
    reveal_strlit("uri");
    reveal_strlit("uri_template");
    reveal_strlit("name");
    reveal_strlit("description");
    reveal_strlit("description_file");
    reveal_strlit("mime_type");
    reveal_strlit("mime");
    reveal_strlit("params");
    reveal_strlit("env");
    reveal_strlit("context");
    assert(ATTR_URI@.len() == 3 && ATTR_URI@[0] == 'u');
    assert(ATTR_URI_TEMPLATE@.len() == 12);
    assert(ATTR_NAME@.len() == 4 && ATTR_NAME@[0] == 'n');
    assert(ATTR_DESCRIPTION@.len() == 11);
    assert(ATTR_DESCRIPTION_FILE@.len() == 16);
    assert(ATTR_MIME_TYPE@.len() == 9);
    assert(ATTR_MIME@.len() == 4 && ATTR_MIME@[0] == 'm');
    assert(ATTR_PARAMS@.len() == 6);
    assert(ATTR_ENV@.len() == 3 && ATTR_ENV@[0] == 'e');
    assert(ATTR_CONTEXT@.len() == 7);
    let aj = resource_key_aliases(j);
    let ak = resource_key_aliases(k);
    let x = choose|x: int| 0 <= x < aj.len() && aj[x] == a;
    let y = choose|y: int| 0 <= y < ak.len() && ak[y] == a;
}

/// One item of an attribute as its tokens give it: the key as written and,
/// for `params(...)` and `env(...)`, how many entries its list holds.
#[derive(Copy, Clone, Debug)]
pub struct AttrItem<'a> {
    /// The key as written.
    pub key: &'a str,
    /// How many entries the item's list holds (0 for a `key = value` item).
    pub entries: usize,
}

/// The flags of an attribute that gave nothing yet.
pub open spec fn empty_flags(md_tmpl: bool) -> ToolAttrFlags {
    ToolAttrFlags {
        description_inline: false,
        description_file: false,
        response_file: false,
        response_inline: false,
        inline_params: false,
        context_fn: false,
        env: false,
        md_tmpl,
    }
}

/// Whether the single-valued key `k` was already given; `params` and `env`
/// may repeat.
pub open spec fn already_given(f: ToolAttrFlags, k: ToolAttrKey) -> bool {
    match k {
        ToolAttrKey::Description => f.description_inline,
        ToolAttrKey::DescriptionFile => f.description_file,
        ToolAttrKey::ResponseFile => f.response_file,
        ToolAttrKey::Response => f.response_inline,
        ToolAttrKey::Context => f.context_fn,
        ToolAttrKey::Params => false,
        ToolAttrKey::Env => false,
    }
}

/// Whether a list of `entries` entries counts as given: with template
/// support only a non-empty list does.
pub open spec fn list_counts(f: ToolAttrFlags, entries: usize) -> bool {
    !f.md_tmpl || entries > 0
}

/// `f` after the key `k` with a list of `entries` entries.
pub open spec fn with_key(f: ToolAttrFlags, k: ToolAttrKey, entries: usize) -> ToolAttrFlags {
    match k {
        ToolAttrKey::Description => ToolAttrFlags { description_inline: true, ..f },
        ToolAttrKey::DescriptionFile => ToolAttrFlags { description_file: true, ..f },
        ToolAttrKey::ResponseFile => ToolAttrFlags { response_file: true, ..f },
        ToolAttrKey::Response => ToolAttrFlags { response_inline: true, ..f },
        ToolAttrKey::Context => ToolAttrFlags { context_fn: true, ..f },
        ToolAttrKey::Params => ToolAttrFlags { inline_params: f.inline_params || list_counts(f, entries), ..f },
        ToolAttrKey::Env => ToolAttrFlags { env: f.env || list_counts(f, entries), ..f },
    }
}

/// The message for a single-valued key given twice.
pub open spec fn duplicate_message(name: Seq<char>) -> Seq<char> {
    "duplicate `"@ + name + "` attribute"@
}

/// Giving the key `k`: refused when it is single-valued and already given.
pub open spec fn give_key(f: ToolAttrFlags, k: ToolAttrKey, entries: usize) -> Result<ToolAttrFlags, Seq<char>> {
    if already_given(f, k) {
        Err(duplicate_message(tool_key_name(k)))
    } else {
        Ok(with_key(f, k, entries))
    }
}

/// The tool attribute key written `name`, if any.
pub open spec fn tool_key_of(name: Seq<char>) -> Option<ToolAttrKey> {
    if exists|k: ToolAttrKey| tool_key_name(k) == name {
        Some(choose|k: ToolAttrKey| tool_key_name(k) == name)
    } else {
        None
    }
}

/// Reading the items of a tool attribute in order from the flags `f`: the
/// first unknown key or repeated single-valued key stops it.
pub open spec fn read_tool_items(items: Seq<AttrItem>, f: ToolAttrFlags) -> Result<ToolAttrFlags, Seq<char>>
    decreases items.len(),
{
    if items.len() == 0 {
        Ok(f)
    } else {
        match tool_key_of(items[0].key@) {
            None => Err(tool_keys_message()),
            Some(k) => match give_key(f, k, items[0].entries) {
                Ok(g) => read_tool_items(items.skip(1), g),
                Err(m) => Err(m),
            },
        }
    }
}

/// What a `#[llm_tool(...)]` attribute made of `items` reads as: its flags,
/// or the message of the first error, the consistency rules checked last.
pub open spec fn tool_attr_result(items: Seq<AttrItem>, md_tmpl: bool) -> Result<ToolAttrFlags, Seq<char>> {
    match read_tool_items(items, empty_flags(md_tmpl)) {
        Ok(f) => match tool_attr_error(f) {
            Some(m) => Err(m),
            None => Ok(f),
        },
        Err(m) => Err(m),
    }
}

fn duplicate_error(name: &str) -> (r: String)
    ensures
        r@ == duplicate_message(name@),
{
    let mut v: Vec<char> = Vec::new();
    push_str(&mut v, "duplicate `");
    push_str(&mut v, name);
    push_str(&mut v, "` attribute");
    proof {
        reveal_strlit("duplicate `");
        reveal_strlit("` attribute");
    }
    assert(v@ =~= duplicate_message(name@));
    string_from_chars(v)
}

impl ToolAttrFlags {
    /// Record the key `key` with a list of `entries` entries; a single-valued
    /// key given twice is refused and leaves the flags unchanged.
    pub fn give(&mut self, key: ToolAttrKey, entries: usize) -> (r: Result<(), String>)
        ensures
            match give_key(*old(self), key, entries) {
                Ok(g) => r is Ok && *final(self) == g,
                Err(m) => (r matches Err(e) && e@ == m) && *final(self) == *old(self),
            },
    {
        let given = match key {
            ToolAttrKey::Description => self.description_inline,
            ToolAttrKey::DescriptionFile => self.description_file,
            ToolAttrKey::ResponseFile => self.response_file,
            ToolAttrKey::Response => self.response_inline,
            ToolAttrKey::Context => self.context_fn,
            ToolAttrKey::Params => false,
            ToolAttrKey::Env => false,
        };
        if given {
            return Err(duplicate_error(key.as_str()));
        }
        let counts = !self.md_tmpl || entries > 0;
        match key {
            ToolAttrKey::Description => self.description_inline = true,
            ToolAttrKey::DescriptionFile => self.description_file = true,
            ToolAttrKey::ResponseFile => self.response_file = true,
            ToolAttrKey::Response => self.response_inline = true,
            ToolAttrKey::Context => self.context_fn = true,
            ToolAttrKey::Params => self.inline_params = self.inline_params || counts,
            ToolAttrKey::Env => self.env = self.env || counts,
        }
        Ok(())
    }

    /// Read a `#[llm_tool(...)]` attribute made of `items`, then check its
    /// consistency rules.
    pub fn read(items: &[AttrItem], md_tmpl: bool) -> (r: Result<ToolAttrFlags, String>)
        ensures
            match tool_attr_result(items@, md_tmpl) {
                Ok(f) => r matches Ok(g) && g == f,
                Err(m) => r matches Err(e) && e@ == m,
            },
    {
        let mut f = ToolAttrFlags {
            description_inline: false,
            description_file: false,
            response_file: false,
            response_inline: false,
            inline_params: false,
            context_fn: false,
            env: false,
            md_tmpl,
        };
        let mut i: usize = 0;
        assert(items@.skip(0) =~= items@);
        while i < items.len()
            invariant
                i <= items.len(),
                f.md_tmpl == md_tmpl,
                read_tool_items(items@, empty_flags(md_tmpl)) == read_tool_items(items@.skip(i as int), f),
            decreases items.len() - i,
        {
            let item = items[i];
            let ghost rest = items@.skip(i as int);
            assert(rest[0] == item);
            assert(rest.skip(1) =~= items@.skip(i + 1));
            match ToolAttrKey::from_name(item.key) {
                Err(msg) => {
                    assert(tool_key_of(item.key@) is None);
                    return Err(msg);
                },
                Ok(k) => {
                    proof {
                        law_tool_key_round_trip(k);
                        assert(tool_key_of(item.key@) == Some(k));
                    }
                    match f.give(k, item.entries) {
                        Err(msg) => return Err(msg),
                        Ok(()) => {},
                    }
                },
            }
            i = i + 1;
        }
        assert(items@.skip(i as int).len() == 0);
        match validate_tool_attr(&f) {
            Ok(()) => Ok(f),
            Err(msg) => Err(msg),
        }
    }
}

/// Which parts a `#[llm_resource(...)]` attribute gave.
#[derive(Copy, Clone, Debug)]
pub struct ResourceAttrFlags {
    /// `uri = "..."` (or `uri_template`) was given.
    pub uri: bool,
    /// `name = "..."` was given.
    pub name: bool,
    /// `mime_type = "..."` (or `mime`) was given.
    pub mime_type: bool,
    /// The parts shared with a tool attribute.
    pub tool: ToolAttrFlags,
}

/// The tool attribute key a resource attribute key stands for, if any.
pub open spec fn shared_tool_key(k: ResourceAttrKey) -> Option<ToolAttrKey> {
    match k {
        ResourceAttrKey::Description => Some(ToolAttrKey::Description),
        ResourceAttrKey::DescriptionFile => Some(ToolAttrKey::DescriptionFile),
        ResourceAttrKey::Params => Some(ToolAttrKey::Params),
        ResourceAttrKey::Env => Some(ToolAttrKey::Env),
        ResourceAttrKey::Context => Some(ToolAttrKey::Context),
        _ => None,
    }
}

/// Giving the resource key `k`: `uri`, `name` and `mime_type` are refused
/// when given twice (named by their canonical name); the other keys are
/// given to the shared tool flags.
pub open spec fn give_resource_key(f: ResourceAttrFlags, k: ResourceAttrKey, entries: usize) -> Result<
    ResourceAttrFlags,
    Seq<char>,
> {
    match shared_tool_key(k) {
        Some(tk) => match give_key(f.tool, tk, entries) {
            Ok(t) => Ok(ResourceAttrFlags { tool: t, ..f }),
            Err(m) => Err(m),
        },
        None => {
            let given = match k {
                ResourceAttrKey::Uri => f.uri,
                ResourceAttrKey::Name => f.name,
                _ => f.mime_type,
            };
            if given {
                Err(duplicate_message(resource_key_name(k)))
            } else {
                Ok(
                    match k {
                        ResourceAttrKey::Uri => ResourceAttrFlags { uri: true, ..f },
                        ResourceAttrKey::Name => ResourceAttrFlags { name: true, ..f },
                        _ => ResourceAttrFlags { mime_type: true, ..f },
                    },
                )
            }
        },
    }
}

/// The resource attribute key written `name` under any alias, if any.
pub open spec fn resource_key_of(name: Seq<char>) -> Option<ResourceAttrKey> {
    if exists|k: ResourceAttrKey| resource_key_aliases(k).contains(name) {
        Some(choose|k: ResourceAttrKey| resource_key_aliases(k).contains(name))
    } else {
        None
    }
}

/// Reading the items of a resource attribute in order from the flags `f`.
pub open spec fn read_resource_items(items: Seq<AttrItem>, f: ResourceAttrFlags) -> Result<ResourceAttrFlags, Seq<char>>
    decreases items.len(),
{
    if items.len() == 0 {
        Ok(f)
    } else {
        match resource_key_of(items[0].key@) {
            None => Err(resource_keys_message(items[0].key@)),
            Some(k) => match give_resource_key(f, k, items[0].entries) {
                Ok(g) => read_resource_items(items.skip(1), g),
                Err(m) => Err(m),
            },
        }
    }
}

/// The message for a resource attribute without a URI.
pub open spec fn uri_required_message() -> Seq<char> {
    "`uri` is required in #[llm_resource(uri = \"...\")]"@
}

/// What a `#[llm_resource(...)]` attribute made of `items` reads as: its
/// flags, or the message of the first error; a missing URI is reported
/// before the consistency rules of the shared tool flags.
pub open spec fn resource_attr_result(items: Seq<AttrItem>, md_tmpl: bool) -> Result<ResourceAttrFlags, Seq<char>> {
    let start = ResourceAttrFlags { uri: false, name: false, mime_type: false, tool: empty_flags(md_tmpl) };
    match read_resource_items(items, start) {
        Ok(f) => if !f.uri {
            Err(uri_required_message())
        } else {
            match tool_attr_error(f.tool) {
                Some(m) => Err(m),
                None => Ok(f),
            }
        },
        Err(m) => Err(m),
    }
}

impl ResourceAttrFlags {
    /// Record the key `key` with a list of `entries` entries; a refused key
    /// leaves the flags unchanged.
    pub fn give(&mut self, key: ResourceAttrKey, entries: usize) -> (r: Result<(), String>)
        ensures
            match give_resource_key(*old(self), key, entries) {
                Ok(g) => r is Ok && *final(self) == g,
                Err(m) => (r matches Err(e) && e@ == m) && *final(self) == *old(self),
            },
    {
        let shared = match key {
            ResourceAttrKey::Description => Some(ToolAttrKey::Description),
            ResourceAttrKey::DescriptionFile => Some(ToolAttrKey::DescriptionFile),
            ResourceAttrKey::Params => Some(ToolAttrKey::Params),
            ResourceAttrKey::Env => Some(ToolAttrKey::Env),
            ResourceAttrKey::Context => Some(ToolAttrKey::Context),
            _ => None,
        };
        match shared {
            Some(tk) => self.tool.give(tk, entries),
            None => {
                let given = match key {
                    ResourceAttrKey::Uri => self.uri,
                    ResourceAttrKey::Name => self.name,
                    _ => self.mime_type,
                };
                if given {
                    return Err(duplicate_error(key.as_str()));
                }
                match key {
                    ResourceAttrKey::Uri => self.uri = true,
                    ResourceAttrKey::Name => self.name = true,
                    _ => self.mime_type = true,
                }
                Ok(())
            },
        }
    }

    /// Read a `#[llm_resource(...)]` attribute made of `items`: the URI is
    /// required, then the shared tool flags must be consistent.
    pub fn read(items: &[AttrItem], md_tmpl: bool) -> (r: Result<ResourceAttrFlags, String>)
        ensures
            match resource_attr_result(items@, md_tmpl) {
                Ok(f) => r matches Ok(g) && g == f,
                Err(m) => r matches Err(e) && e@ == m,
            },
    {
        let mut f = ResourceAttrFlags {
            uri: false,
            name: false,
            mime_type: false,
            tool: ToolAttrFlags {
                description_inline: false,
                description_file: false,
                response_file: false,
                response_inline: false,
                inline_params: false,
                context_fn: false,
                env: false,
                md_tmpl,
            },
        };
        let ghost start = f;
        assert(start == ResourceAttrFlags { uri: false, name: false, mime_type: false, tool: empty_flags(md_tmpl) });
        let mut i: usize = 0;
        assert(items@.skip(0) =~= items@);
        while i < items.len()
            invariant
                i <= items.len(),
                start == (ResourceAttrFlags { uri: false, name: false, mime_type: false, tool: empty_flags(md_tmpl) }),
                read_resource_items(items@, start) == read_resource_items(items@.skip(i as int), f),
            decreases items.len() - i,
        {
            let item = items[i];
            let ghost rest = items@.skip(i as int);
            assert(rest[0] == item);
            assert(rest.skip(1) =~= items@.skip(i + 1));
            match ResourceAttrKey::from_name(item.key) {
                Err(msg) => {
                    assert(resource_key_of(item.key@) is None);
                    return Err(msg);
                },
                Ok(k) => {
                    proof {
                        let c = choose|c: ResourceAttrKey| resource_key_aliases(c).contains(item.key@);
                        law_resource_aliases_distinct(c, k, item.key@);
                        assert(resource_key_of(item.key@) == Some(k));
                    }
                    match f.give(k, item.entries) {
                        Err(msg) => return Err(msg),
                        Ok(()) => {},
                    }
                },
            }
            i = i + 1;
        }
        assert(items@.skip(i as int).len() == 0);
        if !f.uri {
            return Err(String::from_str("`uri` is required in #[llm_resource(uri = \"...\")]"));
        }
        match validate_tool_attr(&f.tool) {
            Ok(()) => Ok(f),
            Err(msg) => Err(msg),
        }
    }
}

} // verus!
