//! Core value types: prompts, resources, tool output and errors, and the
//! kinds of registry items.
use vstd::prelude::*;

pub mod prompt;
pub mod resource;
pub mod metadata;
pub mod output;

verus! {

/// The kind of item a registry holds.
#[derive(Debug, Clone, Copy, PartialEq, Eq, Structural, Hash)]
pub enum RegistryItem {
    /// A tool.
    Tool,
    /// A prompt.
    Prompt,
    /// A resource.
    Resource,
}

/// The display name of a registry item kind.
pub open spec fn item_name(i: RegistryItem) -> Seq<char> {
    match i {
        RegistryItem::Tool => "tool"@,
        RegistryItem::Prompt => "prompt"@,
        RegistryItem::Resource => "resource"@,
    }
}

impl RegistryItem {
    /// The lower-case name of the kind (`"tool"`, `"prompt"` or `"resource"`).
    pub fn as_str(self) -> (r: &'static str)
        ensures
            r@ == item_name(self),
    {
        match self {
            RegistryItem::Tool => "tool",
            RegistryItem::Prompt => "prompt",
            RegistryItem::Resource => "resource",
        }
    }

    /// The kind's display form (its lower-case name).
    pub fn to_string(&self) -> (r: String)
        ensures
            r@ == item_name(*self),
    {
        String::from_str(self.as_str())
    }
}

} // verus!
