//! The ways in which a query on the registry can fail.

use vstd::prelude::*;

verus! {

/// Why a query could not be answered.
#[derive(Clone, Copy, Debug, PartialEq, Eq, Structural)]
pub enum RegistryError {
    /// The short name has no entry in the registry.
    ToolNotFound,
    /// The text is no URL, or it is a URL without a host.
    MalformedUrl,
}

impl RegistryError {
    /// The text that a user is shown for this error.
    pub open spec fn message_text(self) -> Seq<char> {
        match self {
            RegistryError::ToolNotFound => "tool not found in registry"@,
            RegistryError::MalformedUrl => "malformed url"@,
        }
    }

    /// The text that a user is shown for this error.
    pub fn message(&self) -> (text: &'static str)
        ensures
            text@ == self.message_text(),
    {
        match self {
            RegistryError::ToolNotFound => "tool not found in registry",
            RegistryError::MalformedUrl => "malformed url",
        }
    }
}

} // verus!
