//! The runtime configuration that decides which backend kinds may be used.

use vstd::prelude::*;
use crate::backend_type::BackendType;
use crate::text::str_eq;

verus! {

/// The family of the host operating system.
#[derive(Clone, Copy, Debug, PartialEq, Eq, Structural)]
pub enum OsFamily {
    Unix,
    Windows,
    Other,
}

/// Settings as read from the configuration. They are inputs: nothing here
/// changes them.
#[derive(Clone, Debug)]
pub struct Settings {
    /// Names of the backend kinds that the user switched off.
    pub disable_backends: Vec<String>,
    /// Whether experimental features are switched on.
    pub experimental: bool,
    /// Identifier of the host operating system, such as `linux` or `macos`.
    pub os: String,
    /// Family of the host operating system.
    pub family: OsFamily,
}

/// What the settings say, as plain values.
pub struct SettingsView {
    pub disabled: Set<Seq<char>>,
    pub experimental: bool,
    pub os: Seq<char>,
    pub family: OsFamily,
}

/// Whether `name` stands somewhere in `names`.
pub open spec fn lists_name(names: Seq<String>, name: Seq<char>) -> bool {
    exists|i: int| 0 <= i < names.len() && (#[trigger] names[i])@ == name
}

impl View for Settings {
    type V = SettingsView;

    open spec fn view(&self) -> SettingsView {
        SettingsView {
            disabled: Set::new(|name: Seq<char>| lists_name(self.disable_backends@, name)),
            experimental: self.experimental,
            os: self.os@,
            family: self.family,
        }
    }
}

impl SettingsView {
    /// Whether the platform rules remove `kind`: `asdf` is not supported on
    /// Windows, and `aqua` on Unix is an experimental feature.
    pub open spec fn platform_excludes(self, kind: BackendType) -> bool {
        ||| self.family == OsFamily::Windows && kind == BackendType::Asdf
        ||| self.family == OsFamily::Unix && !self.experimental && kind == BackendType::Aqua
    }

    /// Whether backends of `kind` may be used under these settings.
    pub open spec fn allows(self, kind: BackendType) -> bool {
        !self.disabled.contains(kind.name()) && !self.platform_excludes(kind)
    }

    /// The backend kinds that may be used under these settings.
    pub open spec fn allowed_backend_types(self) -> Set<BackendType> {
        Set::new(|kind: BackendType| self.allows(kind))
    }
}

impl Settings {
    /// Whether the user switched off the backend kind called `name`.
    pub fn disables(&self, name: &str) -> (yes: bool)
        ensures
            yes == self@.disabled.contains(name@),
    {
        let mut i: usize = 0;
        while i < self.disable_backends.len()
            invariant
                0 <= i <= self.disable_backends@.len(),
                forall|j: int| 0 <= j < i ==> (#[trigger] self.disable_backends@[j])@ != name@,
            decreases self.disable_backends@.len() - i,
        {
            if str_eq(self.disable_backends[i].as_str(), name) {
                return true;
            }
            i = i + 1;
        }
        false
    }

    /// Whether the platform rules remove `kind`.
    pub fn platform_excludes(&self, kind: BackendType) -> (yes: bool)
        ensures
            yes == self@.platform_excludes(kind),
    {
        match (self.family, kind) {
            (OsFamily::Windows, BackendType::Asdf) => true,
            (OsFamily::Unix, BackendType::Aqua) => !self.experimental,
            _ => false,
        }
    }

    /// Whether backends of `kind` may be used under these settings.
    pub fn allows(&self, kind: BackendType) -> (yes: bool)
        ensures
            yes == self@.allows(kind),
    {
        !self.disables(kind.as_str()) && !self.platform_excludes(kind)
    }
}

} // verus!
