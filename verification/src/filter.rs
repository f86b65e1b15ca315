//! Narrowing the backend references of a registry entry to those that the
//! settings permit.

use vstd::prelude::*;
use vstd::string::StrSliceExecFns;
use vstd::string::StringExecFns;
use crate::backend_type::{
    backend_type_named, lemma_all_backend_types_complete,
    lemma_backend_type_names, BackendType,
};
use crate::settings::{OsFamily, Settings, SettingsView};
use crate::text::{find_char, first_index_of, lemma_first_index_of_unique, starts_with};

verus! {

/// The part of a backend reference before its first `:`; the whole reference
/// when it has none.
pub open spec fn kind_name(full: Seq<char>) -> Seq<char> {
    full.take(first_index_of(full, ':'))
}

/// The text that every backend reference of `kind` begins with: the kind's
/// name and a colon.
pub open spec fn kind_prefix(kind: BackendType) -> Seq<char> {
    kind.name() + ":"@
}

/// Whether the kind named in `full` is one of `allowed`.
pub open spec fn backend_permitted(allowed: Set<BackendType>, full: Seq<char>) -> bool {
    match backend_type_named(kind_name(full)) {
        Some(kind) => allowed.contains(kind),
        None => false,
    }
}

/// Whether `full` passes the filter: its kind is allowed and, where one kind
/// was asked for, it begins with that kind's prefix.
pub open spec fn backend_selected(
    allowed: Set<BackendType>,
    requested: Option<BackendType>,
    full: Seq<char>,
) -> bool {
    &&& backend_permitted(allowed, full)
    &&& match requested {
        Some(kind) => kind_prefix(kind).is_prefix_of(full),
        None => true,
    }
}

/// The test that a backend reference passes the filter.
pub open spec fn selection(allowed: Set<BackendType>, requested: Option<BackendType>) -> spec_fn(
    &'static str,
) -> bool {
    |full: &'static str| backend_selected(allowed, requested, full@)
}

/// The backend references among `backends` that pass the filter, in their
/// declared order.
pub open spec fn permitted_backends(
    backends: Seq<&'static str>,
    allowed: Set<BackendType>,
    requested: Option<BackendType>,
) -> Seq<&'static str> {
    backends.filter(selection(allowed, requested))
}

/// `sub` is made of the elements of `full` found at the positions `at`, which
/// increase strictly.
pub open spec fn is_subsequence_at<T>(sub: Seq<T>, full: Seq<T>, at: Seq<int>) -> bool {
    &&& at.len() == sub.len()
    &&& forall|i: int|
        0 <= i < at.len() ==> 0 <= #[trigger] at[i] < full.len() && sub[i] == full[at[i]]
    &&& forall|i: int, j: int| 0 <= i < j < at.len() ==> at[i] < at[j]
}

/// `sub` can be had from `full` by leaving elements out: nothing is
/// reordered and nothing is repeated.
pub open spec fn is_subsequence<T>(sub: Seq<T>, full: Seq<T>) -> bool {
    exists|at: Seq<int>| is_subsequence_at(sub, full, at)
}

/// Filtering a sequence leaves a subsequence of it.
pub proof fn lemma_filter_is_subsequence<T>(s: Seq<T>, pred: spec_fn(T) -> bool)
    ensures
        is_subsequence(s.filter(pred), s),
    decreases s.len(),
{
    reveal(Seq::filter);
    if s.len() == 0 {
        assert(is_subsequence_at(s.filter(pred), s, Seq::<int>::empty()));
    } else {
        let front = s.drop_last();
        lemma_filter_is_subsequence(front, pred);
        let at = choose|at: Seq<int>| is_subsequence_at(front.filter(pred), front, at);
        if pred(s.last()) {
            let longer = at.push(s.len() - 1);
            assert(is_subsequence_at(s.filter(pred), s, longer));
        } else {
            assert(is_subsequence_at(s.filter(pred), s, at));
        }
    }
}

/// The filtered output is a subsequence of the declared backend references:
/// it keeps their relative order and repeats none.
pub proof fn lemma_permitted_backends_is_subsequence(
    backends: Seq<&'static str>,
    allowed: Set<BackendType>,
    requested: Option<BackendType>,
)
    ensures
        is_subsequence(permitted_backends(backends, allowed, requested), backends),
{
    lemma_filter_is_subsequence(backends, selection(allowed, requested));
}

/// The set of backend kinds that may be used, computed once from the
/// settings and then handed to every filtering call.
#[derive(Clone, Debug)]
pub struct BackendFilter {
    allowed: Vec<BackendType>,
}

impl View for BackendFilter {
    type V = Set<BackendType>;

    closed spec fn view(&self) -> Set<BackendType> {
        self.allowed@.to_set()
    }
}

impl BackendFilter {
    /// Computes the allowed kinds: every kind but those that the settings
    /// disable and those that the platform rules remove.
    pub fn new(settings: &Settings) -> (filter: BackendFilter)
        ensures
            filter@ == settings@.allowed_backend_types(),
    {
        let kinds = BackendType::all();
        let mut allowed: Vec<BackendType> = Vec::new();
        let mut i: usize = 0;
        while i < kinds.len()
            invariant
                0 <= i <= kinds@.len(),
                forall|j: int| 0 <= j < allowed@.len() ==> settings@.allows(allowed@[j]),
                forall|j: int|
                    0 <= j < i && settings@.allows(kinds@[j]) ==> allowed@.contains(kinds@[j]),
            decreases kinds@.len() - i,
        {
            let kind = kinds[i];
            if settings.allows(kind) {
                let ghost before = allowed@;
                allowed.push(kind);
                proof {
                    assert(allowed@[before.len() as int] == kind);
                    assert forall|j: int|
                        0 <= j < i && settings@.allows(kinds@[j]) implies allowed@.contains(
                        kinds@[j],
                    ) by {
                        let at = before.index_of(kinds@[j]);
                        assert(allowed@[at] == kinds@[j]);
                    }
                }
            }
            i = i + 1;
        }
        proof {
            assert forall|kind: BackendType|
                allowed@.to_set().contains(kind) <==> settings@.allows(kind) by {
                lemma_all_backend_types_complete(kind);
            }
        }
        BackendFilter { allowed }
    }

    /// Whether backends of `kind` are allowed.
    pub fn permits(&self, kind: BackendType) -> (yes: bool)
        ensures
            yes == self@.contains(kind),
    {
        let mut i: usize = 0;
        while i < self.allowed.len()
            invariant
                0 <= i <= self.allowed@.len(),
                forall|j: int| 0 <= j < i ==> self.allowed@[j] != kind,
            decreases self.allowed@.len() - i,
        {
            if self.allowed[i] == kind {
                return true;
            }
            i = i + 1;
        }
        false
    }

    /// Whether the kind named before the first `:` of `full` is allowed.
    pub fn permits_backend(&self, full: &str) -> (yes: bool)
        ensures
            yes == backend_permitted(self@, full@),
    {
        let colon = find_char(full, ':');
        let name = full.substring_char(0, colon);
        match BackendType::from_name(name) {
            Some(kind) => self.permits(kind),
            None => false,
        }
    }

    /// Whether `full` passes the filter, with or without a requested kind.
    pub fn selects(&self, full: &str, requested: Option<BackendType>) -> (yes: bool)
        ensures
            yes == backend_selected(self@, requested, full@),
    {
        if !self.permits_backend(full) {
            return false;
        }
        match requested {
            Some(kind) => {
                let mut prefix = kind.as_str().to_owned();
                prefix.append(":");
                starts_with(full, prefix.as_str())
            },
            None => true,
        }
    }

    /// The backend references among `backends` that pass the filter, in their
    /// declared order. An empty result means that no backend applies under
    /// the current settings.
    pub fn select(
        &self,
        backends: &Vec<&'static str>,
        requested: Option<BackendType>,
    ) -> (kept: Vec<&'static str>)
        ensures
            kept@ == permitted_backends(backends@, self@, requested),
            is_subsequence(kept@, backends@),
    {
        let mut kept: Vec<&'static str> = Vec::new();
        let mut i: usize = 0;
        while i < backends.len()
            invariant
                0 <= i <= backends@.len(),
                kept@ == permitted_backends(backends@.take(i as int), self@, requested),
            decreases backends@.len() - i,
        {
            let full = backends[i];
            proof {
                reveal(Seq::filter);
                assert(backends@.take(i + 1).drop_last() =~= backends@.take(i as int));
            }
            if self.selects(full, requested) {
                kept.push(full);
            }
            i = i + 1;
        }
        proof {
            assert(backends@.take(i as int) =~= backends@);
            lemma_permitted_backends_is_subsequence(backends@, self@, requested);
        }
        kept
    }
}

/// A kind's name is not empty and holds no colon.
pub proof fn lemma_kind_name_has_no_colon(kind: BackendType)
    ensures
        kind.name().len() > 0,
        forall|j: int| 0 <= j < kind.name().len() ==> kind.name()[j] != ':',
{
    reveal_strlit("aqua");
    reveal_strlit("asdf");
    reveal_strlit("cargo");
    reveal_strlit("core");
    reveal_strlit("go");
    reveal_strlit("npm");
    reveal_strlit("pipx");
    reveal_strlit("spm");
    reveal_strlit("ubi");
    reveal_strlit("vfox");
}

/// A reference that begins with a kind's prefix names that kind.
pub proof fn lemma_prefixed_reference_names_kind(kind: BackendType, full: Seq<char>)
    requires
        kind_prefix(kind).is_prefix_of(full),
    ensures
        kind_name(full) == kind.name(),
        backend_type_named(kind_name(full)) == Some(kind),
{
    reveal_strlit(":");
    let name = kind.name();
    let prefix = kind_prefix(kind);
    lemma_kind_name_has_no_colon(kind);
    assert forall|j: int| 0 <= j < name.len() implies full[j] != ':' by {
        assert(prefix[j] == name[j]);
    }
    assert(full[name.len() as int] == ':') by {
        assert(prefix[name.len() as int] == ":"@[0]);
    }
    lemma_first_index_of_unique(full, ':', name.len() as int);
    assert(full.take(name.len() as int) =~= name) by {
        assert forall|j: int| 0 <= j < name.len() implies full[j] == name[j] by {
            assert(prefix[j] == name[j]);
        }
    }
    lemma_backend_type_names(kind, name);
}

/// Where `kind` is not allowed, no reference of that kind is in the filtered
/// output: none names it, and none begins with its prefix.
pub proof fn lemma_excluded_kind_is_absent(
    allowed: Set<BackendType>,
    kind: BackendType,
    backends: Seq<&'static str>,
    requested: Option<BackendType>,
)
    requires
        !allowed.contains(kind),
    ensures
        forall|i: int|
            0 <= i < permitted_backends(backends, allowed, requested).len() ==> {
                let full = (#[trigger] permitted_backends(backends, allowed, requested)[i])@;
                kind_name(full) != kind.name() && !kind_prefix(kind).is_prefix_of(full)
            },
{
    let pred = selection(allowed, requested);
    let kept = permitted_backends(backends, allowed, requested);
    assert forall|i: int| 0 <= i < kept.len() implies {
        let full = (#[trigger] kept[i])@;
        kind_name(full) != kind.name() && !kind_prefix(kind).is_prefix_of(full)
    } by {
        backends.lemma_filter_pred(pred, i);
        let full = kept[i]@;
        lemma_backend_type_names(kind, kind_name(full));
        if kind_prefix(kind).is_prefix_of(full) {
            lemma_prefixed_reference_names_kind(kind, full);
        }
    }
}

/// Where `kind` is allowed, every reference that begins with its prefix
/// stays in the filtered output, unless another kind was asked for.
pub proof fn lemma_allowed_kind_is_kept(
    allowed: Set<BackendType>,
    kind: BackendType,
    backends: Seq<&'static str>,
    requested: Option<BackendType>,
)
    requires
        allowed.contains(kind),
        requested is None || requested == Some(kind),
    ensures
        forall|j: int|
            0 <= j < backends.len() && kind_prefix(kind).is_prefix_of((#[trigger] backends[j])@)
                ==> permitted_backends(backends, allowed, requested).contains(backends[j]),
{
    let pred = selection(allowed, requested);
    assert forall|j: int|
        0 <= j < backends.len() && kind_prefix(kind).is_prefix_of(
            (#[trigger] backends[j])@,
        ) implies permitted_backends(backends, allowed, requested).contains(backends[j]) by {
        lemma_prefixed_reference_names_kind(kind, backends[j]@);
        backends.lemma_filter_contains(pred, j);
    }
}

/// Disabling a kind in the settings removes every reference of that kind
/// from the filtered output of every entry.
pub proof fn lemma_disabled_kind_is_removed(
    settings: SettingsView,
    kind: BackendType,
    backends: Seq<&'static str>,
    requested: Option<BackendType>,
)
    requires
        settings.disabled.contains(kind.name()),
    ensures
        !settings.allowed_backend_types().contains(kind),
        forall|i: int|
            0 <= i < permitted_backends(
                backends,
                settings.allowed_backend_types(),
                requested,
            ).len() ==> {
                let full = (#[trigger] permitted_backends(
                    backends,
                    settings.allowed_backend_types(),
                    requested,
                )[i])@;
                kind_name(full) != kind.name() && !kind_prefix(kind).is_prefix_of(full)
            },
{
    lemma_excluded_kind_is_absent(settings.allowed_backend_types(), kind, backends, requested);
}

/// Enabling a kind again restores it: the allowed kinds are those of the
/// settings that disable it plus, unless the platform rules remove it, the
/// kind itself, and every reference with its prefix is then back in the
/// filtered output.
pub proof fn lemma_enabled_kind_is_restored(
    disabling: SettingsView,
    enabling: SettingsView,
    kind: BackendType,
    backends: Seq<&'static str>,
    requested: Option<BackendType>,
)
    requires
        disabling.disabled.contains(kind.name()),
        enabling == (SettingsView {
            disabled: disabling.disabled.remove(kind.name()),
            ..disabling
        }),
        requested is None || requested == Some(kind),
    ensures
        enabling.allowed_backend_types() == if enabling.platform_excludes(kind) {
            disabling.allowed_backend_types()
        } else {
            disabling.allowed_backend_types().insert(kind)
        },
        !enabling.platform_excludes(kind) ==> forall|j: int|
            0 <= j < backends.len() && kind_prefix(kind).is_prefix_of((#[trigger] backends[j])@)
                ==> permitted_backends(
                backends,
                enabling.allowed_backend_types(),
                requested,
            ).contains(backends[j]),
{
    let before = disabling.allowed_backend_types();
    let after = enabling.allowed_backend_types();
    assert forall|other: BackendType| after.contains(other) <==> (if enabling.platform_excludes(
        kind,
    ) {
        before.contains(other)
    } else {
        before.insert(kind).contains(other)
    }) by {
        lemma_backend_type_names(kind, other.name());
        lemma_backend_type_names(other, other.name());
    }
    assert(after =~= if enabling.platform_excludes(kind) {
        before
    } else {
        before.insert(kind)
    });
    if !enabling.platform_excludes(kind) {
        lemma_allowed_kind_is_kept(after, kind, backends, requested);
    }
}

/// On a Windows host no `asdf:` reference is in the filtered output,
/// whatever else the settings say.
pub proof fn lemma_windows_has_no_asdf(
    settings: SettingsView,
    backends: Seq<&'static str>,
    requested: Option<BackendType>,
)
    requires
        settings.family == OsFamily::Windows,
    ensures
        forall|i: int|
            0 <= i < permitted_backends(
                backends,
                settings.allowed_backend_types(),
                requested,
            ).len() ==> !"asdf:"@.is_prefix_of(
                (#[trigger] permitted_backends(
                    backends,
                    settings.allowed_backend_types(),
                    requested,
                )[i])@,
            ),
{
    reveal_strlit("asdf:");
    reveal_strlit("asdf");
    reveal_strlit(":");
    lemma_excluded_kind_is_absent(
        settings.allowed_backend_types(),
        BackendType::Asdf,
        backends,
        requested,
    );
}

/// On a Unix host without experimental features no `aqua:` reference is in
/// the filtered output.
pub proof fn lemma_unix_has_no_aqua_unless_experimental(
    settings: SettingsView,
    backends: Seq<&'static str>,
    requested: Option<BackendType>,
)
    requires
        settings.family == OsFamily::Unix,
        !settings.experimental,
    ensures
        forall|i: int|
            0 <= i < permitted_backends(
                backends,
                settings.allowed_backend_types(),
                requested,
            ).len() ==> !"aqua:"@.is_prefix_of(
                (#[trigger] permitted_backends(
                    backends,
                    settings.allowed_backend_types(),
                    requested,
                )[i])@,
            ),
{
    reveal_strlit("aqua:");
    reveal_strlit("aqua");
    reveal_strlit(":");
    lemma_excluded_kind_is_absent(
        settings.allowed_backend_types(),
        BackendType::Aqua,
        backends,
        requested,
    );
}

/// On a Unix host with experimental features `aqua` is eligible: unless the
/// settings disable it, every `aqua:` reference stays in the filtered
/// output, unless another kind was asked for.
pub proof fn lemma_unix_experimental_admits_aqua(
    settings: SettingsView,
    backends: Seq<&'static str>,
    requested: Option<BackendType>,
)
    requires
        settings.family == OsFamily::Unix,
        settings.experimental,
        !settings.disabled.contains("aqua"@),
        requested is None || requested == Some(BackendType::Aqua),
    ensures
        settings.allowed_backend_types().contains(BackendType::Aqua),
        forall|j: int|
            0 <= j < backends.len() && "aqua:"@.is_prefix_of((#[trigger] backends[j])@)
                ==> permitted_backends(
                backends,
                settings.allowed_backend_types(),
                requested,
            ).contains(backends[j]),
{
    reveal_strlit("aqua:");
    reveal_strlit("aqua");
    reveal_strlit(":");
    lemma_allowed_kind_is_kept(
        settings.allowed_backend_types(),
        BackendType::Aqua,
        backends,
        requested,
    );
}

} // verus!
