//! Prompt definitions and rendered prompt output.
use vstd::prelude::*;

verus! {

/// Describes a prompt template available in the registry.
#[derive(Debug, Clone, PartialEq, Eq)]
pub struct PromptDefinition {
    /// Prompt name.
    pub name: String,
    /// Human-readable description.
    pub description: String,
    /// Arguments accepted by this prompt.
    pub arguments: Vec<PromptArgumentDefinition>,
}

/// An argument accepted by a prompt template.
#[derive(Debug, Clone, PartialEq, Eq)]
pub struct PromptArgumentDefinition {
    /// Argument name.
    pub name: String,
    /// Argument description.
    pub description: String,
    /// Whether this argument is required.
    pub required: bool,
}

/// The role of a message in a prompt output (`user`, `assistant`, or `system`).
#[derive(Debug, Clone, Copy, PartialEq, Eq, Structural, Hash)]
pub enum PromptRole {
    /// User message.
    User,
    /// Assistant message.
    Assistant,
    /// System message.
    System,
}

/// The wire name of a role.
pub open spec fn role_name(r: PromptRole) -> Seq<char> {
    match r {
        PromptRole::User => "user"@,
        PromptRole::Assistant => "assistant"@,
        PromptRole::System => "system"@,
    }
}

impl PromptRole {
    /// The string slice representation of the role (`"user"`, `"assistant"`, or `"system"`).
    pub fn as_str(self) -> (r: &'static str)
        ensures
            r@ == role_name(self),
    {
        match self {
            PromptRole::User => "user",
            PromptRole::Assistant => "assistant",
            PromptRole::System => "system",
        }
    }

    /// The role's display form (its wire name).
    pub fn to_string(&self) -> (r: String)
        ensures
            r@ == role_name(*self),
    {
        String::from_str(self.as_str())
    }
}

/// A rendered message inside a prompt output.
#[derive(Debug, Clone, PartialEq, Eq)]
pub struct PromptOutputMessage {
    /// Message role.
    pub role: PromptRole,
    /// Text content.
    pub content: String,
}

impl PromptOutputMessage {
    /// Create a user role message.
    pub fn user(content: &str) -> (r: Self)
        ensures
            r.role == PromptRole::User,
            r.content@ == content@,
    {
        PromptOutputMessage { role: PromptRole::User, content: String::from_str(content) }
    }

    /// Create an assistant role message.
    pub fn assistant(content: &str) -> (r: Self)
        ensures
            r.role == PromptRole::Assistant,
            r.content@ == content@,
    {
        PromptOutputMessage { role: PromptRole::Assistant, content: String::from_str(content) }
    }

    /// Create a system role message.
    pub fn system(content: &str) -> (r: Self)
        ensures
            r.role == PromptRole::System,
            r.content@ == content@,
    {
        PromptOutputMessage { role: PromptRole::System, content: String::from_str(content) }
    }
}

/// The output returned by rendering a prompt template.
#[derive(Debug, Clone, PartialEq, Eq)]
pub struct PromptOutput {
    /// Rendered messages.
    pub messages: Vec<PromptOutputMessage>,
}

/// Whether `o` is the single message `content` in role `role`.
pub open spec fn single_message(o: PromptOutput, role: PromptRole, content: Seq<char>) -> bool {
    o.messages@.len() == 1 && o.messages@[0].role == role && o.messages@[0].content@ == content
}

impl PromptOutput {
    /// A prompt output with a single user message.
    pub fn user(content: &str) -> (r: Self)
        ensures
            single_message(r, PromptRole::User, content@),
    {
        let mut messages = Vec::new();
        messages.push(PromptOutputMessage::user(content));
        PromptOutput { messages }
    }

    /// A prompt output with a single assistant message.
    pub fn assistant(content: &str) -> (r: Self)
        ensures
            single_message(r, PromptRole::Assistant, content@),
    {
        let mut messages = Vec::new();
        messages.push(PromptOutputMessage::assistant(content));
        PromptOutput { messages }
    }

    /// A prompt output with a single system message.
    pub fn system(content: &str) -> (r: Self)
        ensures
            single_message(r, PromptRole::System, content@),
    {
        let mut messages = Vec::new();
        messages.push(PromptOutputMessage::system(content));
        PromptOutput { messages }
    }
}

impl From<String> for PromptOutput {
    /// A single user message (see [`PromptOutput::user`]).
    fn from(content: String) -> (r: Self)
        ensures
            single_message(r, PromptRole::User, content@),
    {
        PromptOutput::user(content.as_str())
    }
}

impl vstd::std_specs::convert::FromSpecImpl<String> for PromptOutput {
    open spec fn obeys_from_spec() -> bool {
        false
    }

    open spec fn from_spec(v: String) -> Self {
        vstd::pervasive::arbitrary()
    }
}

impl<'a> From<&'a str> for PromptOutput {
    /// A single user message (see [`PromptOutput::user`]).
    fn from(content: &'a str) -> (r: Self)
        ensures
            single_message(r, PromptRole::User, content@),
    {
        PromptOutput::user(content)
    }
}

impl<'a> vstd::std_specs::convert::FromSpecImpl<&'a str> for PromptOutput {
    open spec fn obeys_from_spec() -> bool {
        false
    }

    open spec fn from_spec(v: &'a str) -> Self {
        vstd::pervasive::arbitrary()
    }
}

/// Whether `name` is among the `required` names.
pub open spec fn is_required(required: Seq<&str>, name: Seq<char>) -> bool {
    exists|j: int| 0 <= j < required.len() && #[trigger] required[j]@ == name
}

/// The argument definitions of a prompt whose parameter schema has the
/// `properties` (name and description, in schema order) and lists the
/// `required` names: one argument per property, required exactly when
/// listed.
pub fn prompt_arguments(properties: &[(&str, &str)], required: &[&str]) -> (r: Vec<PromptArgumentDefinition>)
    ensures
        r@.len() == properties@.len(),
        forall|i: int|
            0 <= i < r@.len() ==> {
                &&& #[trigger] r@[i].name@ == properties@[i].0@
                &&& r@[i].description@ == properties@[i].1@
                &&& r@[i].required == is_required(required@, properties@[i].0@)
            },
{
    let mut out: Vec<PromptArgumentDefinition> = Vec::new();
    let mut i: usize = 0;
    while i < properties.len()
        invariant
            i <= properties@.len(),
            out@.len() == i,
            forall|k: int|
                0 <= k < i ==> {
                    &&& #[trigger] out@[k].name@ == properties@[k].0@
                    &&& out@[k].description@ == properties@[k].1@
                    &&& out@[k].required == is_required(required@, properties@[k].0@)
                },
        decreases properties.len() - i,
    {
        let (name, description) = properties[i];
        let mut listed = false;
        let mut j: usize = 0;
        while j < required.len()
            invariant
                j <= required@.len(),
                name@ == properties@[i as int].0@,
                listed <==> exists|t: int| 0 <= t < j && #[trigger] required@[t]@ == name@,
            decreases required.len() - j,
        {
            if crate::text::str_eq(required[j], name) {
                listed = true;
            }
            j = j + 1;
        }
        out.push(
            PromptArgumentDefinition {
                name: String::from_str(name),
                description: String::from_str(description),
                required: listed,
            },
        );
        i = i + 1;
    }
    out
}

} // verus!
