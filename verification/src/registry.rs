//! Registry entries, the store that holds them, and the check that decides
//! whether a plugin remote may be used without asking.

use vstd::prelude::*;
use vstd::string::StrSliceExecFns;
use vstd::string::StringExecFns;
use crate::backend_type::BackendType;
use crate::filter::{is_subsequence, permitted_backends, BackendFilter};
use crate::remote::{normalize_remote, normalized_remote};
use crate::settings::Settings;
use crate::text::{find_char, first_index_of, starts_with, str_eq};

verus! {

/// One tool of the registry: a short name and the backend references that it
/// stands for.
#[derive(Debug, Clone)]
pub struct RegistryTool {
    /// The name that the tool is looked up by.
    pub short: &'static str,
    /// Backend references `<kind>:<locator>`, the preferred one first.
    pub backends: Vec<&'static str>,
    /// Other names of the tool.
    pub aliases: &'static [&'static str],
    /// A command and a fragment of what it prints, for smoke tests.
    pub test: &'static Option<(&'static str, &'static str)>,
    /// The operating systems that the tool is for; empty means all of them.
    pub os: &'static [&'static str],
}

/// A reference to one backend of a tool.
#[derive(Debug, Clone)]
pub struct BackendArg {
    /// The short name of the tool.
    pub short: String,
    /// The full backend reference, where one is known.
    pub full: Option<String>,
}

impl BackendArg {
    /// A reference to the backend `full` of the tool `short`.
    pub fn new(short: String, full: Option<String>) -> (arg: BackendArg)
        ensures
            arg.short == short,
            arg.full == full,
    {
        BackendArg { short, full }
    }
}

/// Whether `host_os` is one of `os`, or `os` is empty.
pub open spec fn os_supported(os: Seq<&'static str>, host_os: Seq<char>) -> bool {
    os.len() == 0 || exists|i: int| 0 <= i < os.len() && (#[trigger] os[i])@ == host_os
}

/// The first of the backend references of `tool` that `allowed` permits.
pub open spec fn default_backend(
    tool: RegistryTool,
    allowed: Set<BackendType>,
) -> Option<&'static str> {
    let kept = permitted_backends(tool.backends@, allowed, None);
    if kept.len() > 0 {
        Some(kept[0])
    } else {
        None
    }
}

impl RegistryTool {
    /// The backend references of this tool that the filter permits, in their
    /// declared order.
    pub fn backends(&self, filter: &BackendFilter) -> (kept: Vec<&'static str>)
        ensures
            kept@ == permitted_backends(self.backends@, filter@, None),
            is_subsequence(kept@, self.backends@),
    {
        filter.select(&self.backends, None)
    }

    /// Whether this tool is for the host operating system that the settings
    /// name.
    pub fn is_supported_os(&self, settings: &Settings) -> (yes: bool)
        ensures
            yes == os_supported(self.os@, settings@.os),
    {
        let host_os = settings.os.as_str();
        if self.os.len() == 0 {
            return true;
        }
        let mut i: usize = 0;
        while i < self.os.len()
            invariant
                0 <= i <= self.os@.len(),
                host_os@ == settings@.os,
                forall|j: int| 0 <= j < i ==> (#[trigger] self.os@[j])@ != host_os@,
            decreases self.os@.len() - i,
        {
            if str_eq(self.os[i], host_os) {
                return true;
            }
            i = i + 1;
        }
        false
    }

    /// The default backend of this tool: the first backend reference that the
    /// filter permits, with the tool's short name. `None` where the filter
    /// permits none.
    pub fn ba(&self, filter: &BackendFilter) -> (arg: Option<BackendArg>)
        ensures
            match arg {
                Some(arg) => {
                    &&& arg.short@ == self.short@
                    &&& arg.full matches Some(full)
                    &&& default_backend(*self, filter@) matches Some(first)
                    &&& full@ == first@
                },
                None => default_backend(*self, filter@) is None,
            },
    {
        let kept = self.backends(filter);
        if kept.len() > 0 {
            Some(BackendArg::new(self.short.to_owned(), Some(kept[0].to_owned())))
        } else {
            None
        }
    }
}

/// The part of a backend reference after its first `:`; the whole reference
/// when it has none.
pub open spec fn locator_of(full: Seq<char>) -> Seq<char> {
    let colon = first_index_of(full, ':');
    if colon < full.len() {
        full.skip(colon + 1)
    } else {
        full
    }
}

/// The URL of the repository that a backend reference points to: its locator
/// where that is an `https` URL already, else the repository of that name on
/// GitHub.
pub open spec fn canonical_url(full: Seq<char>) -> Seq<char> {
    let locator = locator_of(full);
    if "https://"@.is_prefix_of(locator) {
        locator
    } else {
        "https://github.com/"@ + locator + ".git"@
    }
}

/// Expands a backend reference to the URL of its repository.
pub fn full_to_url(full: &str) -> (url: String)
    ensures
        url@ == canonical_url(full@),
{
    let len = full.unicode_len();
    let colon = find_char(full, ':');
    let locator = if colon < len {
        full.substring_char(colon + 1, len)
    } else {
        full
    };
    if starts_with(locator, "https://") {
        locator.to_owned()
    } else {
        let mut url = "https://github.com/".to_owned();
        url.append(locator);
        url.append(".git");
        url
    }
}

/// No two of `entries` have the same short name.
pub open spec fn distinct_shorts(entries: Seq<RegistryTool>) -> bool {
    forall|i: int, j: int|
        #![trigger entries[i], entries[j]]
        0 <= i < j < entries.len() ==> entries[i].short@ != entries[j].short@
}

/// Whether one of `entries` is called `short`.
pub open spec fn has_short(entries: Seq<RegistryTool>, short: Seq<char>) -> bool {
    exists|i: int| 0 <= i < entries.len() && (#[trigger] entries[i]).short@ == short
}

/// The position in `entries` of the entry called `short`.
pub open spec fn position_of(entries: Seq<RegistryTool>, short: Seq<char>) -> int {
    choose|i: int| 0 <= i < entries.len() && (#[trigger] entries[i]).short@ == short
}

/// The mapping from short names to entries that `entries` stands for.
pub open spec fn entries_by_short(entries: Seq<RegistryTool>) -> Map<Seq<char>, RegistryTool> {
    Map::new(
        |short: Seq<char>| has_short(entries, short),
        |short: Seq<char>| entries[position_of(entries, short)],
    )
}

/// The entry of `entries` at `i` is the one that its short name maps to.
pub proof fn lemma_entry_is_mapped(entries: Seq<RegistryTool>, i: int)
    requires
        distinct_shorts(entries),
        0 <= i < entries.len(),
    ensures
        entries_by_short(entries).contains_key(entries[i].short@),
        entries_by_short(entries)[entries[i].short@] == entries[i],
{
    let short = entries[i].short@;
    assert(has_short(entries, short));
    assert(position_of(entries, short) == i);
}

/// The registry: every tool under its short name. It is filled once and then
/// only read.
#[derive(Debug)]
pub struct RegistryStore {
    tools: Vec<RegistryTool>,
}

impl View for RegistryStore {
    type V = Map<Seq<char>, RegistryTool>;

    open spec fn view(&self) -> Map<Seq<char>, RegistryTool> {
        entries_by_short(self.entries())
    }
}

impl RegistryStore {
    /// The entries in the order in which `all` hands them out.
    pub closed spec fn entries(&self) -> Seq<RegistryTool> {
        self.tools@
    }

    /// Short names are unique within the store.
    #[verifier::type_invariant]
    pub open spec fn well_formed(&self) -> bool {
        distinct_shorts(self.entries())
    }

    /// A store without entries.
    pub fn new() -> (store: RegistryStore)
        ensures
            store.entries() == Seq::<RegistryTool>::empty(),
            store@ == Map::<Seq<char>, RegistryTool>::empty(),
    {
        RegistryStore { tools: Vec::new() }
    }

    /// The position of the entry called `short`, or the number of entries
    /// where there is none.
    fn find(&self, short: &str) -> (at: usize)
        ensures
            at <= self.entries().len(),
            at < self.entries().len() ==> self.entries()[at as int].short@ == short@,
            at == self.entries().len() ==> !has_short(self.entries(), short@),
    {
        let mut i: usize = 0;
        while i < self.tools.len()
            invariant
                0 <= i <= self.tools@.len(),
                forall|j: int| 0 <= j < i ==> (#[trigger] self.tools@[j]).short@ != short@,
            decreases self.tools@.len() - i,
        {
            if str_eq(self.tools[i].short, short) {
                return i;
            }
            i = i + 1;
        }
        i
    }

    /// The store with `tool` under its short name, in place of the entry
    /// that was there, if any.
    pub fn insert(self, tool: RegistryTool) -> (store: RegistryStore)
        ensures
            store@ == self@.insert(tool.short@, tool),
            store.entries().len() == self.entries().len() + if self@.contains_key(tool.short@) {
                0int
            } else {
                1int
            },
    {
        proof {
            use_type_invariant(&self);
        }
        let at = self.find(tool.short);
        let ghost before = self.tools@;
        let mut tools = self.tools;
        if at < tools.len() {
            tools.set(at, tool);
        } else {
            tools.push(tool);
        }
        proof {
            let after = tools@;
            let at = at as int;
            assert forall|short: Seq<char>| has_short(after, short) <==> (short == tool.short@
                || has_short(before, short)) by {
                if has_short(after, short) && short != tool.short@ {
                    let i = position_of(after, short);
                    assert(before[i].short@ == short);
                }
                if has_short(before, short) {
                    let i = position_of(before, short);
                    assert(after[i].short@ == short);
                }
                if short == tool.short@ {
                    assert(after[at].short@ == short);
                }
            }
            assert forall|short: Seq<char>| has_short(after, short) implies entries_by_short(
                after,
            )[short] == entries_by_short(before).insert(tool.short@, tool)[short] by {
                let i = position_of(after, short);
                lemma_entry_is_mapped(after, i);
                if short != tool.short@ {
                    lemma_entry_is_mapped(before, i);
                }
            }
        }
        RegistryStore { tools }
    }

    /// The entry called `short`, by exact match; `None` where there is none.
    pub fn lookup(&self, short: &str) -> (found: Option<&RegistryTool>)
        ensures
            match found {
                Some(tool) => self@.contains_key(short@) && *tool == self@[short@],
                None => !self@.contains_key(short@),
            },
    {
        proof {
            use_type_invariant(self);
        }
        let at = self.find(short);
        if at < self.tools.len() {
            proof {
                lemma_entry_is_mapped(self.tools@, at as int);
            }
            Some(&self.tools[at])
        } else {
            None
        }
    }

    /// Every entry of the store, each once. The order is that in which the
    /// entries came in; readers that need another sort for themselves.
    pub fn all(&self) -> (tools: &Vec<RegistryTool>)
        ensures
            tools@ == self.entries(),
            distinct_shorts(tools@),
            forall|i: int|
                0 <= i < tools@.len() ==> self@.contains_key((#[trigger] tools@[i]).short@)
                    && self@[tools@[i].short@] == tools@[i],
            forall|short: Seq<char>| self@.contains_key(short) ==> has_short(tools@, short),
    {
        proof {
            use_type_invariant(self);
            assert forall|i: int| 0 <= i < self.tools@.len() implies self@.contains_key(
                (#[trigger] self.tools@[i]).short@,
            ) && self@[self.tools@[i].short@] == self.tools@[i] by {
                lemma_entry_is_mapped(self.tools@, i);
            }
        }
        &self.tools
    }
}

/// The normal form of the remote that the registry maps `name` to: that of
/// the repository URL of the default backend of the entry called `name`.
/// `None` where there is no such entry, where the filter permits none of its
/// backends, and where that URL has no normal form.
pub open spec fn shorthand_remote(
    store: Map<Seq<char>, RegistryTool>,
    allowed: Set<BackendType>,
    name: Seq<char>,
) -> Option<Seq<char>> {
    if store.contains_key(name) {
        match default_backend(store[name], allowed) {
            Some(full) => normalized_remote(canonical_url(full@)),
            None => None,
        }
    } else {
        None
    }
}

/// Whether `candidate` is the remote that the registry maps the name to. A
/// remote without a normal form matches nothing.
pub open spec fn matches_shorthand(
    shorthand: Option<Seq<char>>,
    candidate: Option<Seq<char>>,
) -> bool {
    shorthand is Some && candidate == shorthand
}

/// Whether `candidate` lies in the vetted organisation.
pub open spec fn in_vetted_namespace(candidate: Option<Seq<char>>) -> bool {
    candidate matches Some(text) && "github.com/mise-plugins/"@.is_prefix_of(text)
}

/// The trust rule. A remote that is not what the registry maps the name to
/// is not held back here; one that is, is trusted only inside the vetted
/// organisation.
pub open spec fn trust_decision(
    shorthand: Option<Seq<char>>,
    candidate: Option<Seq<char>>,
) -> bool {
    !matches_shorthand(shorthand, candidate) || in_vetted_namespace(candidate)
}

/// The characters of an optional string.
pub open spec fn texts(text: Option<String>) -> Option<Seq<char>> {
    match text {
        Some(text) => Some(text@),
        None => None,
    }
}

/// Whether the normal form `candidate` is the registry's `shorthand`.
pub fn is_shorthand(shorthand: &Option<String>, candidate: &Option<String>) -> (yes: bool)
    ensures
        yes == matches_shorthand(texts(*shorthand), texts(*candidate)),
{
    match (shorthand, candidate) {
        (Some(ours), Some(theirs)) => str_eq(ours.as_str(), theirs.as_str()),
        _ => false,
    }
}

/// Applies the trust rule to two normal forms: that of the remote which the
/// registry maps the name to, and that of the remote which the user gave.
/// `None` stands for a remote without a normal form.
pub fn decide_trust(shorthand: &Option<String>, candidate: &Option<String>) -> (trusted: bool)
    ensures
        trusted == trust_decision(texts(*shorthand), texts(*candidate)),
{
    let is_mise_url = match candidate {
        Some(text) => starts_with(text.as_str(), "github.com/mise-plugins/"),
        None => false,
    };
    !is_shorthand(shorthand, candidate) || is_mise_url
}

/// The normal form of the remote that `store` maps `name` to.
pub fn shorthand_of(
    store: &RegistryStore,
    filter: &BackendFilter,
    name: &str,
) -> (shorthand: Option<String>)
    ensures
        texts(shorthand) == shorthand_remote(store@, filter@, name@),
{
    match store.lookup(name) {
        Some(tool) => {
            let kept = tool.backends(filter);
            if kept.len() > 0 {
                let url = full_to_url(kept[0]);
                match normalize_remote(url.as_str()) {
                    Ok(text) => Some(text),
                    Err(_) => None,
                }
            } else {
                None
            }
        },
        None => None,
    }
}

/// Whether the plugin `name` may be installed from `remote` without asking.
/// `true` unless `remote` is the very remote that the registry maps `name`
/// to and that remote lies outside the vetted organisation. A `remote` that
/// is no URL matches nothing, so it is not held back here.
pub fn is_trusted_plugin(
    store: &RegistryStore,
    filter: &BackendFilter,
    name: &str,
    remote: &str,
) -> (trusted: bool)
    ensures
        trusted == trust_decision(
            shorthand_remote(store@, filter@, name@),
            normalized_remote(remote@),
        ),
{
    let candidate = match normalize_remote(remote) {
        Ok(text) => Some(text),
        Err(_) => None,
    };
    let shorthand = shorthand_of(store, filter, name);
    decide_trust(&shorthand, &candidate)
}

} // verus!
