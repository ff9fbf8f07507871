//! Tool output and tool errors: the text sent to the model plus structured
//! metadata that is never sent to it.
use vstd::prelude::*;
use crate::json::{JsonFields, JsonKind, other_type_name, kind_name, json_fields_of, json_kind_of, json_kind, json_string, is_string_kind};
use crate::text::str_eq;
use crate::types::{RegistryItem, item_name};
use crate::quarantine::{quarantine, quarantined, quarantine_tool_output, is_quarantined_output};
use crate::text::{push_str, string_from_chars};
use crate::types::metadata::{Metadata, fields_into};
use crate::types::prompt::{PromptOutput, single_message, PromptRole};
use crate::types::resource::{ResourceOutput, ResourceOutputContent, same_opt};

verus! {

/// The return value of a Rust tool execution: the text content returned to
/// the model and metadata for hooks, policies and logging.
#[derive(Debug)]
pub struct ToolOutput {
    content: String,
    metadata: Metadata,
}

/// An error returned from a tool execution; the message is sent back to the
/// model, the metadata is not.
#[derive(Debug)]
pub struct ToolError {
    /// Human-readable error message sent to the model.
    pub message: String,
    metadata: Metadata,
}

/// The compact JSON text of a value, as `json_text` writes it.
pub uninterp spec fn json_text_of(v: serde_json::Value) -> Seq<char>;

/// The compact JSON text of `v` (`serde_json::Value`'s `Display`).
///
/// Trusted: the text is a function of `v` alone, named `json_text_of`.
#[verifier::external_body]
fn json_text(v: &serde_json::Value) -> (r: String)
    ensures
        r@ == json_text_of(*v),
{
    v.to_string()
}

/// The message of a lookup of `name` among the registered items of kind
/// `item` that found nothing.
pub open spec fn not_found_message(item: RegistryItem, name: Seq<char>) -> Seq<char> {
    "Unknown "@ + item_name(item) + ": "@ + name
}

/// Whether metadata record the not-registered error kind.
pub open spec fn records_not_registered(m: Map<Seq<char>, serde_json::Value>) -> bool {
    m.contains_key("error_kind"@) && is_string_kind(json_kind_of(m["error_kind"@]), "not_registered"@)
}

/// The message of a destructive tool refused in a parallel batch.
pub open spec fn destructive_in_parallel_message(name: Seq<char>) -> Seq<char> {
    "destructive tool `"@ + name + "` needs explicit confirmation to run in a parallel batch"@
}

/// The message of a metadata value that is not a JSON object.
pub open spec fn not_object_message(k: JsonKind) -> Seq<char> {
    "metadata must serialize to a JSON object, got "@ + kind_name(k)
}

impl ToolOutput {
    /// The well-formedness of the metadata.
    pub closed spec fn wf(&self) -> bool {
        self.metadata.wf()
    }

    /// The text content.
    pub closed spec fn text(&self) -> Seq<char> {
        self.content@
    }

    /// The metadata, by key.
    pub closed spec fn meta(&self) -> Map<Seq<char>, serde_json::Value> {
        self.metadata@
    }

    /// Output with the given content and no metadata.
    pub fn new(content: String) -> (r: Self)
        ensures
            r.wf(),
            r.text() == content@,
            r.meta() == Map::<Seq<char>, serde_json::Value>::empty(),
    {
        ToolOutput { content, metadata: Metadata::new() }
    }

    /// Output with the given content and no metadata.
    pub fn from_str(content: &str) -> (r: Self)
        ensures
            r.wf(),
            r.text() == content@,
            r.meta() == Map::<Seq<char>, serde_json::Value>::empty(),
    {
        Self::new(String::from_str(content))
    }

    /// Attach a single metadata key-value pair.
    pub fn with_meta(self, key: String, value: serde_json::Value) -> (r: Self)
        requires
            self.wf(),
        ensures
            r.wf(),
            r.text() == self.text(),
            r.meta() == self.meta().insert(key@, value),
    {
        let mut out = self;
        out.metadata.insert(key, value);
        out
    }

    /// Merge the fields of an already serialized value into the metadata,
    /// the value's fields replacing equal keys; fails unless the value is a
    /// JSON object.
    pub fn with_metadata_value(self, value: JsonFields) -> (r: Result<Self, ToolError>)
        requires
            self.wf(),
        ensures
            match value {
                JsonFields::Object(fields) => r matches Ok(o) && o.wf() && o.text() == self.text() && o.meta()
                    == fields_into(self.meta(), fields@),
                JsonFields::Other(k) => r matches Err(e) && e.wf() && e.msg() == not_object_message(k) && e.meta()
                    == Map::<Seq<char>, serde_json::Value>::empty(),
            },
    {
        match value {
            JsonFields::Object(fields) => {
                let mut out = self;
                out.metadata.extend(fields);
                Ok(out)
            },
            JsonFields::Other(kind) => {
                let e = ToolError::not_an_object(&kind, "");
                proof {
                    reveal_strlit("");
                }
                Err(e)
            },
        }
    }

    /// Output whose content is `text`, the JSON text of an already serialized
    /// value, and whose metadata are that value's fields; fails unless the
    /// value is a JSON object.
    pub fn from_metadata_value(text: String, value: JsonFields) -> (r: Result<Self, ToolError>)
        ensures
            match value {
                JsonFields::Object(fields) => r matches Ok(o) && o.wf() && o.text() == text@ && o.meta()
                    == fields_into(Map::<Seq<char>, serde_json::Value>::empty(), fields@),
                JsonFields::Other(k) => r matches Err(e) && e.wf() && e.msg() == not_object_message(k) && e.meta()
                    == Map::<Seq<char>, serde_json::Value>::empty(),
            },
    {
        match value {
            JsonFields::Object(fields) => {
                let mut metadata = Metadata::new();
                metadata.extend(fields);
                Ok(ToolOutput { content: text, metadata })
            },
            JsonFields::Other(kind) => {
                let e = ToolError::not_an_object(&kind, "");
                proof {
                    reveal_strlit("");
                }
                Err(e)
            },
        }
    }

    /// Output whose content is the JSON text of the already serialized
    /// `value` and whose metadata are its fields; fails unless `value` is a
    /// JSON object. The text and the fields come from `serde_json`; what
    /// follows is [`ToolOutput::from_metadata_value`].
    pub fn from_json_value(value: serde_json::Value) -> (r: Result<Self, ToolError>)
        ensures
            match json_fields_of(value) {
                JsonFields::Object(fields) => r matches Ok(o) && o.wf() && o.text() == json_text_of(value)
                    && o.meta() == fields_into(Map::<Seq<char>, serde_json::Value>::empty(), fields@),
                JsonFields::Other(k) => r matches Err(e) && e.wf() && e.msg() == not_object_message(k) && e.meta()
                    == Map::<Seq<char>, serde_json::Value>::empty(),
            },
            r is Ok <==> json_kind_of(value) is Object,
            r matches Err(e) ==> e.msg() == not_object_message(json_kind_of(value)),
    {
        let text = json_text(&value);
        let fields = JsonFields::from_json(value);
        Self::from_metadata_value(text, fields)
    }

    /// The text content sent back to the model.
    pub fn content(&self) -> (r: &str)
        ensures
            r@ == self.text(),
    {
        self.content.as_str()
    }

    /// The owned content string.
    pub fn into_content(self) -> (r: String)
        ensures
            r@ == self.text(),
    {
        self.content
    }

    /// The structured metadata.
    pub fn metadata(&self) -> (r: &Metadata)
        ensures
            r@ == self.meta(),
            self.wf() ==> r.wf(),
    {
        &self.metadata
    }

    /// Replace the content, keeping the metadata.
    pub fn set_content(&mut self, content: String)
        ensures
            final(self).text() == content@,
            final(self).meta() == old(self).meta(),
            final(self).wf() == old(self).wf(),
    {
        self.content = content;
    }

    /// A quarantined copy: control delimiters neutralized and the content
    /// wrapped in `<tool_output_quarantine>` tags (unchanged when already
    /// quarantined).
    pub fn quarantined(self) -> (r: Self)
        ensures
            r.text() == quarantine(self.text()),
            r.meta() == self.meta(),
            r.wf() == self.wf(),
    {
        let mut out = self;
        let q = quarantine_tool_output(out.content.as_str());
        out.content = q;
        out
    }

    /// Whether the content is a quarantine envelope with no un-neutralized delimiters.
    pub fn is_quarantined(&self) -> (r: bool)
        ensures
            r == quarantined(self.text()),
    {
        is_quarantined_output(self.content.as_str())
    }
}

impl ToolError {
    /// The well-formedness of the metadata.
    pub closed spec fn wf(&self) -> bool {
        self.metadata.wf()
    }

    /// The metadata, by key.
    pub closed spec fn meta(&self) -> Map<Seq<char>, serde_json::Value> {
        self.metadata@
    }

    /// The message text.
    pub closed spec fn msg(&self) -> Seq<char> {
        self.message@
    }

    /// An error with the given message and no metadata.
    pub fn new(message: &str) -> (r: Self)
        ensures
            r.wf(),
            r.msg() == message@,
            r.meta() == Map::<Seq<char>, serde_json::Value>::empty(),
    {
        ToolError { message: String::from_str(message), metadata: Metadata::new() }
    }

    /// An error with the given owned message and no metadata.
    pub fn from_message(message: String) -> (r: Self)
        ensures
            r.wf(),
            r.msg() == message@,
            r.meta() == Map::<Seq<char>, serde_json::Value>::empty(),
    {
        ToolError { message, metadata: Metadata::new() }
    }

    /// The metadata key under which an error records its kind.
    pub const ERROR_KIND_KEY: &'static str = "error_kind";

    /// The error kind of a lookup of a name nothing is registered under.
    pub const KIND_NOT_REGISTERED: &'static str = "not_registered";

    /// The error of a lookup of `name` among the registered items of kind
    /// `item` that found nothing, its kind recorded in the metadata.
    pub fn not_found(item: RegistryItem, name: &str) -> (r: Self)
        ensures
            r.wf(),
            r.msg() == not_found_message(item, name@),
            r.meta().dom() == set!["error_kind"@],
            records_not_registered(r.meta()),
    {
        let mut v: Vec<char> = Vec::new();
        push_str(&mut v, "Unknown ");
        push_str(&mut v, item.as_str());
        push_str(&mut v, ": ");
        push_str(&mut v, name);
        let kind = json_string(String::from_str(Self::KIND_NOT_REGISTERED));
        proof {
            reveal_strlit("error_kind");
            reveal_strlit("not_registered");
        }
        let r = Self::from_message(string_from_chars(v)).with_meta(String::from_str(Self::ERROR_KIND_KEY), kind);
        assert(r.meta().dom() =~= set!["error_kind"@]);
        r
    }

    /// Whether this error is a lookup that found nothing registered (its
    /// metadata record the not-registered kind).
    pub fn is_not_found(&self) -> (r: bool)
        requires
            self.wf(),
        ensures
            r == records_not_registered(self.meta()),
    {
        proof {
            reveal_strlit("error_kind");
            reveal_strlit("not_registered");
        }
        match self.metadata.get(Self::ERROR_KIND_KEY) {
            Some(v) => match json_kind(v) {
                JsonKind::String(t) => str_eq(t.as_str(), Self::KIND_NOT_REGISTERED),
                _ => false,
            },
            None => false,
        }
    }

    /// The error of destructive tool `name` refused in a parallel batch
    /// that did not confirm destructive tools.
    pub fn destructive_in_parallel_batch(name: &str) -> (r: Self)
        ensures
            r.wf(),
            r.msg() == destructive_in_parallel_message(name@),
            r.meta() == Map::<Seq<char>, serde_json::Value>::empty(),
    {
        let mut v: Vec<char> = Vec::new();
        push_str(&mut v, "destructive tool `");
        push_str(&mut v, name);
        push_str(&mut v, "` needs explicit confirmation to run in a parallel batch");
        Self::from_message(string_from_chars(v))
    }

    /// The error for a metadata value of kind `kind` that is not an object,
    /// after `lead` (empty for tool output).
    fn not_an_object(kind: &JsonKind, lead: &str) -> (r: Self)
        ensures
            r.wf(),
            lead@.len() == 0 ==> r.msg() == not_object_message(*kind),
            lead@.len() > 0 ==> r.msg() == lead@ + " (metadata must serialize to a JSON object, got "@
                + kind_name(*kind) + ")"@,
            r.meta() == Map::<Seq<char>, serde_json::Value>::empty(),
    {
        let mut v: Vec<char> = Vec::new();
        if lead.unicode_len() == 0 {
            push_str(&mut v, "metadata must serialize to a JSON object, got ");
            push_str(&mut v, other_type_name(kind));
        } else {
            push_str(&mut v, lead);
            push_str(&mut v, " (metadata must serialize to a JSON object, got ");
            push_str(&mut v, other_type_name(kind));
            push_str(&mut v, ")");
        }
        Self::from_message(string_from_chars(v))
    }

    /// Attach a single metadata key-value pair.
    pub fn with_meta(self, key: String, value: serde_json::Value) -> (r: Self)
        requires
            self.wf(),
        ensures
            r.wf(),
            r.msg() == self.msg(),
            r.meta() == self.meta().insert(key@, value),
    {
        let mut out = self;
        out.metadata.insert(key, value);
        out
    }

    /// Merge the fields of an already serialized value into the metadata,
    /// the value's fields replacing equal keys; unless the value is a JSON
    /// object, an error whose message names the value's type after this
    /// error's message.
    pub fn with_metadata_value(self, value: JsonFields) -> (r: Result<Self, Self>)
        requires
            self.wf(),
        ensures
            match value {
                JsonFields::Object(fields) => r matches Ok(o) && o.wf() && o.msg() == self.msg() && o.meta()
                    == fields_into(self.meta(), fields@),
                JsonFields::Other(k) => r matches Err(e) && e.wf() && e.msg() == self.msg()
                    + " (metadata must serialize to a JSON object, got "@ + kind_name(k) + ")"@ && e.meta()
                    == Map::<Seq<char>, serde_json::Value>::empty(),
            },
    {
        match value {
            JsonFields::Object(fields) => {
                let mut out = self;
                out.metadata.extend(fields);
                Ok(out)
            },
            JsonFields::Other(kind) => {
                let mut v: Vec<char> = Vec::new();
                push_str(&mut v, self.message.as_str());
                push_str(&mut v, " (metadata must serialize to a JSON object, got ");
                push_str(&mut v, other_type_name(&kind));
                push_str(&mut v, ")");
                Err(Self::from_message(string_from_chars(v)))
            },
        }
    }

    /// The structured metadata.
    pub fn metadata(&self) -> (r: &Metadata)
        ensures
            r@ == self.meta(),
            self.wf() ==> r.wf(),
    {
        &self.metadata
    }

    /// The error's display form: its message.
    pub fn to_string(&self) -> (r: String)
        ensures
            r@ == self.msg(),
    {
        String::from_str(self.message.as_str())
    }
}

/// Wrapper for returning serializable values as JSON tool output.
pub struct Json<T>(pub T);

/// Wrapper enabling compile-time method dispatch for tool, prompt and
/// resource output conversion.
pub struct Wrap<T>(pub T);

impl Wrap<ToolOutput> {
    /// `ToolOutput` passes through unchanged.
    pub fn __convert(self) -> (r: Result<ToolOutput, ToolError>)
        ensures
            r matches Ok(o) && o == self.0,
    {
        Ok(self.0)
    }
}

impl Wrap<String> {
    /// `String` becomes plain text output (no JSON encoding).
    pub fn __convert(self) -> (r: Result<ToolOutput, ToolError>)
        ensures
            r matches Ok(o) && o.wf() && o.text() == self.0@ && o.meta() == Map::<Seq<char>, serde_json::Value>::empty(),
    {
        Ok(ToolOutput::new(self.0))
    }

    /// `String` becomes a single user message.
    pub fn __convert_prompt(self) -> (r: Result<PromptOutput, ToolError>)
        ensures
            r matches Ok(p) && single_message(p, PromptRole::User, self.0@),
    {
        Ok(PromptOutput::user(self.0.as_str()))
    }

    /// `String` becomes a text resource for `uri`.
    pub fn __convert_resource(self, uri: &str, mime_type: Option<&str>) -> (r: Result<ResourceOutput, ToolError>)
        ensures
            r matches Ok(o) && o.contents@.len() == 1 && (o.contents@[0] matches ResourceOutputContent::Text { uri: u, mime_type: m, text: t }
                && u@ == uri@ && same_opt(m, mime_type) && t@ == self.0@),
    {
        Ok(ResourceOutput::text(uri, mime_type, self.0.as_str()))
    }
}

impl<'a> Wrap<&'a str> {
    /// `&str` becomes a single user message.
    pub fn __convert_prompt(self) -> (r: Result<PromptOutput, ToolError>)
        ensures
            r matches Ok(p) && single_message(p, PromptRole::User, self.0@),
    {
        Ok(PromptOutput::user(self.0))
    }

    /// `&str` becomes a text resource for `uri`.
    pub fn __convert_resource(self, uri: &str, mime_type: Option<&str>) -> (r: Result<ResourceOutput, ToolError>)
        ensures
            r matches Ok(o) && o.contents@.len() == 1 && (o.contents@[0] matches ResourceOutputContent::Text { uri: u, mime_type: m, text: t }
                && u@ == uri@ && same_opt(m, mime_type) && t@ == self.0@),
    {
        Ok(ResourceOutput::text(uri, mime_type, self.0))
    }
}

impl Wrap<PromptOutput> {
    /// `PromptOutput` passes through unchanged.
    pub fn __convert_prompt(self) -> (r: Result<PromptOutput, ToolError>)
        ensures
            r matches Ok(p) && p == self.0,
    {
        Ok(self.0)
    }
}

impl Wrap<ResourceOutput> {
    /// `ResourceOutput` passes through unchanged, whatever the URI.
    pub fn __convert_resource(self, _uri: &str, _mime_type: Option<&str>) -> (r: Result<ResourceOutput, ToolError>)
        ensures
            r matches Ok(o) && o == self.0,
    {
        Ok(self.0)
    }
}

impl From<String> for ToolOutput {
    /// Output with the given content and no metadata (see [`ToolOutput::new`]).
    fn from(content: String) -> (r: Self)
        ensures
            r.wf(),
            r.text() == content@,
            r.meta() == Map::<Seq<char>, serde_json::Value>::empty(),
    {
        ToolOutput::new(content)
    }
}

impl vstd::std_specs::convert::FromSpecImpl<String> for ToolOutput {
    open spec fn obeys_from_spec() -> bool {
        false
    }

    open spec fn from_spec(v: String) -> Self {
        vstd::pervasive::arbitrary()
    }
}

} // verus!
