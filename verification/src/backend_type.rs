//! The closed set of backend kinds and their names.

use vstd::prelude::*;
use crate::text::str_eq;

verus! {

/// A backend kind: the installation mechanism that a backend reference
/// `<kind>:<locator>` is handled by.
#[derive(Clone, Copy, Debug, PartialEq, Eq, Structural, Hash)]
pub enum BackendType {
    Aqua,
    Asdf,
    Cargo,
    Core,
    Go,
    Npm,
    Pipx,
    Spm,
    Ubi,
    Vfox,
}

/// Every backend kind, in declaration order.
pub open spec fn all_backend_types() -> Seq<BackendType> {
    seq![
        BackendType::Aqua,
        BackendType::Asdf,
        BackendType::Cargo,
        BackendType::Core,
        BackendType::Go,
        BackendType::Npm,
        BackendType::Pipx,
        BackendType::Spm,
        BackendType::Ubi,
        BackendType::Vfox,
    ]
}

/// The kind that `name` is the name of, if any.
pub open spec fn backend_type_named(name: Seq<char>) -> Option<BackendType> {
    if name == "aqua"@ {
        Some(BackendType::Aqua)
    } else if name == "asdf"@ {
        Some(BackendType::Asdf)
    } else if name == "cargo"@ {
        Some(BackendType::Cargo)
    } else if name == "core"@ {
        Some(BackendType::Core)
    } else if name == "go"@ {
        Some(BackendType::Go)
    } else if name == "npm"@ {
        Some(BackendType::Npm)
    } else if name == "pipx"@ {
        Some(BackendType::Pipx)
    } else if name == "spm"@ {
        Some(BackendType::Spm)
    } else if name == "ubi"@ {
        Some(BackendType::Ubi)
    } else if name == "vfox"@ {
        Some(BackendType::Vfox)
    } else {
        None
    }
}

impl BackendType {
    /// The lower-case name that prefixes a backend reference of this kind.
    pub open spec fn name(self) -> Seq<char> {
        match self {
            BackendType::Aqua => "aqua"@,
            BackendType::Asdf => "asdf"@,
            BackendType::Cargo => "cargo"@,
            BackendType::Core => "core"@,
            BackendType::Go => "go"@,
            BackendType::Npm => "npm"@,
            BackendType::Pipx => "pipx"@,
            BackendType::Spm => "spm"@,
            BackendType::Ubi => "ubi"@,
            BackendType::Vfox => "vfox"@,
        }
    }

    /// The name of this kind.
    pub fn as_str(&self) -> (name: &'static str)
        ensures
            name@ == self.name(),
    {
        match self {
            BackendType::Aqua => "aqua",
            BackendType::Asdf => "asdf",
            BackendType::Cargo => "cargo",
            BackendType::Core => "core",
            BackendType::Go => "go",
            BackendType::Npm => "npm",
            BackendType::Pipx => "pipx",
            BackendType::Spm => "spm",
            BackendType::Ubi => "ubi",
            BackendType::Vfox => "vfox",
        }
    }

    /// Every backend kind, in declaration order.
    pub fn all() -> (kinds: Vec<BackendType>)
        ensures
            kinds@ == all_backend_types(),
    {
        vec![
            BackendType::Aqua,
            BackendType::Asdf,
            BackendType::Cargo,
            BackendType::Core,
            BackendType::Go,
            BackendType::Npm,
            BackendType::Pipx,
            BackendType::Spm,
            BackendType::Ubi,
            BackendType::Vfox,
        ]
    }

    /// Reads a kind from its name; `None` for every other string.
    pub fn from_name(name: &str) -> (kind: Option<BackendType>)
        ensures
            kind == backend_type_named(name@),
    {
        if str_eq(name, "aqua") {
            Some(BackendType::Aqua)
        } else if str_eq(name, "asdf") {
            Some(BackendType::Asdf)
        } else if str_eq(name, "cargo") {
            Some(BackendType::Cargo)
        } else if str_eq(name, "core") {
            Some(BackendType::Core)
        } else if str_eq(name, "go") {
            Some(BackendType::Go)
        } else if str_eq(name, "npm") {
            Some(BackendType::Npm)
        } else if str_eq(name, "pipx") {
            Some(BackendType::Pipx)
        } else if str_eq(name, "spm") {
            Some(BackendType::Spm)
        } else if str_eq(name, "ubi") {
            Some(BackendType::Ubi)
        } else if str_eq(name, "vfox") {
            Some(BackendType::Vfox)
        } else {
            None
        }
    }
}

/// Names identify kinds: reading a kind's name gives the kind back, and a
/// string that reads as a kind is that kind's name.
pub proof fn lemma_backend_type_names(kind: BackendType, name: Seq<char>)
    ensures
        backend_type_named(kind.name()) == Some(kind),
        backend_type_named(name) == Some(kind) <==> name == kind.name(),
{
    reveal_strlit("aqua");
    reveal_strlit("asdf");
    reveal_strlit("cargo");
    reveal_strlit("core");
    reveal_strlit("go");
    reveal_strlit("npm");
    reveal_strlit("pipx");
    reveal_strlit("spm");
    reveal_strlit("ubi");
    reveal_strlit("vfox");
    assert("aqua"@.len() == 4 && "aqua"@[0] == 'a' && "aqua"@[1] == 'q');
    assert("asdf"@.len() == 4 && "asdf"@[0] == 'a' && "asdf"@[1] == 's');
    assert("cargo"@.len() == 5);
    assert("core"@.len() == 4 && "core"@[0] == 'c');
    assert("go"@.len() == 2);
    assert("npm"@.len() == 3 && "npm"@[0] == 'n');
    assert("pipx"@.len() == 4 && "pipx"@[0] == 'p');
    assert("spm"@.len() == 3 && "spm"@[0] == 's');
    assert("ubi"@.len() == 3 && "ubi"@[0] == 'u');
    assert("vfox"@.len() == 4 && "vfox"@[0] == 'v');
}

/// Every kind occurs in `all_backend_types`.
pub proof fn lemma_all_backend_types_complete(kind: BackendType)
    ensures
        all_backend_types().contains(kind),
{
    let all = all_backend_types();
    match kind {
        BackendType::Aqua => assert(all[0] == kind),
        BackendType::Asdf => assert(all[1] == kind),
        BackendType::Cargo => assert(all[2] == kind),
        BackendType::Core => assert(all[3] == kind),
        BackendType::Go => assert(all[4] == kind),
        BackendType::Npm => assert(all[5] == kind),
        BackendType::Pipx => assert(all[6] == kind),
        BackendType::Spm => assert(all[7] == kind),
        BackendType::Ubi => assert(all[8] == kind),
        BackendType::Vfox => assert(all[9] == kind),
    }
}

} // verus!
