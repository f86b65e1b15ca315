//! The `registry` command: what it shows for one tool, and the table of all
//! tools. Nothing is printed here; the caller gets the text and the rows.

use core::cmp::Ordering;
use itertools::Itertools;
use vstd::prelude::*;
use vstd::std_specs::convert::FromSpecImpl;
use vstd::string::StringExecFns;
use crate::backend_type::BackendType;
use crate::error::RegistryError;
use crate::filter::{permitted_backends, BackendFilter};
use crate::registry::{RegistryStore, RegistryTool};
use crate::text::{join, joined, lemma_text_le_is_total_order, str_le, str_views, text_le};

verus! {

/// The arguments of the `registry` command.
#[derive(Debug, Clone)]
pub struct Registry {
    /// Show only the backends of the tool of this name.
    pub name: Option<String>,
    /// Show only tools for this backend.
    pub backend: Option<BackendType>,
}

/// One line of the table: a short name and what it stands for.
#[derive(Debug, Clone)]
pub struct Row {
    /// The short name of the tool.
    pub short: String,
    /// Its backend references, separated by spaces.
    pub full: String,
}

/// The characters of a row.
pub struct RowView {
    pub short: Seq<char>,
    pub full: Seq<char>,
}

impl View for Row {
    type V = RowView;

    open spec fn view(&self) -> RowView {
        RowView { short: self.short@, full: self.full@ }
    }
}

impl From<(String, String)> for Row {
    fn from(pair: (String, String)) -> (row: Row) {
        Row { short: pair.0, full: pair.1 }
    }
}

impl FromSpecImpl<(String, String)> for Row {
    open spec fn obeys_from_spec() -> bool {
        true
    }

    open spec fn from_spec(pair: (String, String)) -> Row {
        Row { short: pair.0, full: pair.1 }
    }
}

/// What the command shows.
#[derive(Debug, Clone)]
pub enum RegistryOutput {
    /// The permitted backends of one tool, separated by spaces.
    Backends(String),
    /// One row for each tool, sorted by short name.
    Table(Vec<Row>),
}

/// The rows of `rows` as pairs of character sequences.
pub open spec fn row_views(rows: Seq<Row>) -> Seq<RowView> {
    rows.map_values(|row: Row| row@)
}

/// The permitted backends of `tool`, separated by spaces.
pub open spec fn backends_text(
    tool: RegistryTool,
    allowed: Set<BackendType>,
    requested: Option<BackendType>,
) -> Seq<char> {
    joined(str_views(permitted_backends(tool.backends@, allowed, requested)), " "@)
}

/// The row that stands for `tool`.
pub open spec fn tool_row(
    tool: RegistryTool,
    allowed: Set<BackendType>,
    requested: Option<BackendType>,
) -> RowView {
    RowView { short: tool.short@, full: backends_text(tool, allowed, requested) }
}

/// The test that a tool has a permitted backend, and so a row in the table.
pub open spec fn is_listed(allowed: Set<BackendType>, requested: Option<BackendType>) -> spec_fn(
    RegistryTool,
) -> bool {
    |tool: RegistryTool| permitted_backends(tool.backends@, allowed, requested).len() > 0
}

/// The rows of the registry's tools: one for each tool that has a permitted
/// backend, in the order of `entries`.
pub open spec fn registry_rows(
    entries: Seq<RegistryTool>,
    allowed: Set<BackendType>,
    requested: Option<BackendType>,
) -> Seq<RowView> {
    entries.filter(is_listed(allowed, requested)).map_values(
        |tool: RegistryTool| tool_row(tool, allowed, requested),
    )
}

/// The row that stands for the built-in tool `short`.
pub open spec fn core_row(short: Seq<char>) -> RowView {
    RowView { short, full: "core:"@ + short }
}

/// Whether the built-in tools belong in the table: they do unless another
/// kind than `core` was asked for.
pub open spec fn lists_core(requested: Option<BackendType>) -> bool {
    requested is None || requested == Some(BackendType::Core)
}

/// The rows of the built-in tools, in their order.
pub open spec fn core_rows(core_plugins: Seq<String>) -> Seq<RowView> {
    core_plugins.map_values(|short: String| core_row(short@))
}

/// The test that a row's short name is `short`.
pub open spec fn is_named(short: Seq<char>) -> spec_fn(RowView) -> bool {
    |row: RowView| row.short == short
}

/// The rows of `rows` whose short name is `short`, in their order.
pub open spec fn rows_named(rows: Seq<RowView>, short: Seq<char>) -> Seq<RowView> {
    rows.filter(is_named(short))
}

/// The short names of `rows` never go down, in the order of their bytes.
pub open spec fn sorted_by_short(rows: Seq<RowView>) -> bool {
    forall|i: int, j: int|
        0 <= i < j < rows.len() ==> text_le((#[trigger] rows[i]).short, (#[trigger] rows[j]).short)
}

/// `sorted` holds the rows of `rows`, sorted by short name, with rows of one
/// short name in the order that they have in `rows`.
pub open spec fn is_stable_sort_of(sorted: Seq<RowView>, rows: Seq<RowView>) -> bool {
    &&& sorted.len() == rows.len()
    &&& sorted_by_short(sorted)
    &&& forall|short: Seq<char>| #[trigger] rows_named(sorted, short) == rows_named(rows, short)
}

/// Orders two rows by the bytes of their short names.
pub fn row_order(a: &Row, b: &Row) -> (order: Ordering)
    ensures
        match order {
            Ordering::Less => text_le(a.short@, b.short@) && a.short@ != b.short@,
            Ordering::Equal => a.short@ == b.short@,
            Ordering::Greater => text_le(b.short@, a.short@) && a.short@ != b.short@,
        },
{
    proof {
        lemma_text_le_is_total_order(a.short@, b.short@, a.short@);
        lemma_text_le_is_total_order(b.short@, a.short@, b.short@);
    }
    let forth = str_le(a.short.as_str(), b.short.as_str());
    let back = str_le(b.short.as_str(), a.short.as_str());
    if forth && back {
        Ordering::Equal
    } else if forth {
        Ordering::Less
    } else {
        Ordering::Greater
    }
}

/// Sorts the rows with `Itertools::sorted_by` of the crate `itertools`, by
/// `row_order`. Taken from that method's documentation and not proved: it
/// sorts in ascending order, it is stable, and it hands out the elements
/// that it was given.
#[verifier::external_body]
fn sort_rows(rows: Vec<Row>) -> (sorted: Vec<Row>)
    ensures
        is_stable_sort_of(row_views(sorted@), row_views(rows@)),
{
    rows.into_iter().sorted_by(row_order).collect()
}

impl Registry {
    /// The table's rows before they are sorted: those of the registry's
    /// tools, then those of the built-in tools.
    pub open spec fn unsorted_rows(
        self,
        entries: Seq<RegistryTool>,
        allowed: Set<BackendType>,
        core_plugins: Seq<String>,
    ) -> Seq<RowView> {
        registry_rows(entries, allowed, self.backend) + if lists_core(self.backend) {
            core_rows(core_plugins)
        } else {
            Seq::empty()
        }
    }

    /// Computes what the command shows.
    ///
    /// With a name: the permitted backends of that tool, separated by
    /// spaces, or `ToolNotFound` where the registry has no such tool. A
    /// requested backend kind plays no part then.
    ///
    /// Without a name: one row for each tool of the registry that has a
    /// permitted backend of the requested kind, and one for each built-in
    /// tool unless another kind than `core` was asked for, sorted by short
    /// name.
    pub fn run(
        &self,
        store: &RegistryStore,
        filter: &BackendFilter,
        core_plugins: &Vec<String>,
    ) -> (shown: Result<RegistryOutput, RegistryError>)
        ensures
            match self.name {
                Some(name) => match shown {
                    Ok(RegistryOutput::Backends(text)) => store@.contains_key(name@) && text@
                        == backends_text(store@[name@], filter@, None),
                    Ok(RegistryOutput::Table(_)) => false,
                    Err(err) => err == RegistryError::ToolNotFound && !store@.contains_key(name@),
                },
                None => match shown {
                    Ok(RegistryOutput::Table(rows)) => is_stable_sort_of(
                        row_views(rows@),
                        self.unsorted_rows(store.entries(), filter@, core_plugins@),
                    ),
                    _ => false,
                },
            },
    {
        match &self.name {
            Some(name) => match store.lookup(name.as_str()) {
                Some(tool) => {
                    let kept = tool.backends(filter);
                    Ok(RegistryOutput::Backends(join(&kept, " ")))
                },
                None => Err(RegistryError::ToolNotFound),
            },
            None => {
                let mut rows = self.tool_rows(store, filter);
                if self.backend.is_none() || self.backend == Some(BackendType::Core) {
                    push_core_rows(&mut rows, core_plugins);
                }
                Ok(RegistryOutput::Table(sort_rows(rows)))
            },
        }
    }

    /// The rows of the registry's tools, in the order of the store.
    fn tool_rows(&self, store: &RegistryStore, filter: &BackendFilter) -> (rows: Vec<Row>)
        ensures
            row_views(rows@) == registry_rows(store.entries(), filter@, self.backend),
    {
        let tools = store.all();
        let mut rows: Vec<Row> = Vec::new();
        let mut i: usize = 0;
        assert(row_views(rows@) =~= registry_rows(tools@.take(0), filter@, self.backend)) by {
            reveal(Seq::filter);
        }
        while i < tools.len()
            invariant
                0 <= i <= tools@.len(),
                row_views(rows@) == registry_rows(tools@.take(i as int), filter@, self.backend),
            decreases tools@.len() - i,
        {
            let tool = &tools[i];
            let kept = filter.select(&tool.backends, self.backend);
            let ghost before = row_views(rows@);
            let listed = kept.len() > 0;
            if listed {
                rows.push(Row::from((tool.short.to_owned(), join(&kept, " "))));
            }
            proof {
                let has_backend = is_listed(filter@, self.backend);
                reveal(Seq::filter);
                assert(tools@.take(i + 1).drop_last() =~= tools@.take(i as int));
                if listed {
                    assert(tools@.take(i + 1).filter(has_backend) =~= tools@.take(i as int).filter(
                        has_backend,
                    ).push(*tool));
                    assert(row_views(rows@) =~= before.push(
                        tool_row(*tool, filter@, self.backend),
                    ));
                }
                assert(row_views(rows@) =~= registry_rows(
                    tools@.take(i + 1),
                    filter@,
                    self.backend,
                ));
            }
            i = i + 1;
        }
        assert(tools@.take(i as int) =~= tools@);
        rows
    }
}

/// Appends the rows of the built-in tools to `rows`.
fn push_core_rows(rows: &mut Vec<Row>, core_plugins: &Vec<String>)
    ensures
        row_views(final(rows)@) == row_views(old(rows)@) + core_rows(core_plugins@),
{
    let ghost start = row_views(rows@);
    let mut i: usize = 0;
    while i < core_plugins.len()
        invariant
            0 <= i <= core_plugins@.len(),
            row_views(rows@) == start + core_rows(core_plugins@.take(i as int)),
        decreases core_plugins@.len() - i,
    {
        let short = core_plugins[i].clone();
        let mut full = "core:".to_owned();
        full.append(short.as_str());
        let ghost before = row_views(rows@);
        rows.push(Row::from((short, full)));
        assert(row_views(rows@) =~= before.push(core_row(core_plugins@[i as int]@)));
        i = i + 1;
    }
}

/// Sorting neither loses nor invents a row: the sorted table holds a row
/// exactly where the unsorted rows do.
pub proof fn lemma_stable_sort_keeps_rows(sorted: Seq<RowView>, rows: Seq<RowView>, row: RowView)
    requires
        is_stable_sort_of(sorted, rows),
    ensures
        sorted.contains(row) <==> rows.contains(row),
{
    let named = is_named(row.short);
    assert(rows_named(sorted, row.short) == rows_named(rows, row.short));
    if sorted.contains(row) {
        sorted.lemma_filter_contains(named, sorted.index_of(row));
        rows.lemma_filter_contains_rev(named, row);
    }
    if rows.contains(row) {
        rows.lemma_filter_contains(named, rows.index_of(row));
        sorted.lemma_filter_contains_rev(named, row);
    }
}

/// How the rows of one short name change when the first row is taken off.
proof fn lemma_rows_named_without_first(rows: Seq<RowView>, short: Seq<char>)
    requires
        rows.len() > 0,
    ensures
        rows[0].short == short ==> {
            &&& rows_named(rows, short).len() > 0
            &&& rows_named(rows, short)[0] == rows[0]
            &&& rows_named(rows.drop_first(), short) == rows_named(rows, short).drop_first()
        },
        rows[0].short != short ==> rows_named(rows.drop_first(), short) == rows_named(rows, short),
{
    let named = is_named(short);
    let first = seq![rows[0]];
    let rest = rows.drop_first();
    assert(rows =~= first + rest);
    Seq::filter_distributes_over_add(first, rest, named);
    assert(first.filter(named) =~= if rows[0].short == short {
        first
    } else {
        Seq::empty()
    }) by {
        reveal_with_fuel(Seq::filter, 2);
    }
    if rows[0].short == short {
        assert((first + rest.filter(named)).drop_first() =~= rest.filter(named));
    }
}

/// A short name that has rows among `rows` is the short name of one of them.
proof fn lemma_named_row_exists(rows: Seq<RowView>, short: Seq<char>) -> (at: int)
    requires
        rows_named(rows, short).len() > 0,
    ensures
        0 <= at < rows.len(),
        rows[at].short == short,
{
    let row = rows_named(rows, short)[0];
    rows.lemma_filter_contains_rev(is_named(short), row);
    rows.index_of(row)
}

/// A sorted table without its first row is sorted.
proof fn lemma_rest_is_sorted(rows: Seq<RowView>)
    requires
        rows.len() > 0,
        sorted_by_short(rows),
    ensures
        sorted_by_short(rows.drop_first()),
{
    let rest = rows.drop_first();
    assert forall|i: int, j: int| 0 <= i < j < rest.len() implies text_le(
        (#[trigger] rest[i]).short,
        (#[trigger] rest[j]).short,
    ) by {
        assert(text_le(rows[i + 1].short, rows[j + 1].short));
    }
}

/// Two sorted tables of one length with the same rows under every short
/// name, in the same order, are equal.
proof fn lemma_sorted_with_same_rows_are_equal(first: Seq<RowView>, second: Seq<RowView>)
    requires
        first.len() == second.len(),
        sorted_by_short(first),
        sorted_by_short(second),
        forall|short: Seq<char>| #[trigger] rows_named(first, short) == rows_named(second, short),
    ensures
        first == second,
    decreases first.len(),
{
    if first.len() > 0 {
        let a = first[0].short;
        let b = second[0].short;
        lemma_rows_named_without_first(first, a);
        lemma_rows_named_without_first(second, b);
        // Each table begins with its least short name, and the short name
        // that one begins with occurs in the other: so both begin alike.
        let i = lemma_named_row_exists(second, a);
        let j = lemma_named_row_exists(first, b);
        lemma_text_le_is_total_order(a, b, a);
        lemma_text_le_is_total_order(b, a, b);
        assert(text_le(b, a)) by {
            assert(i > 0 ==> text_le(second[0].short, second[i].short));
        }
        assert(text_le(a, b)) by {
            assert(j > 0 ==> text_le(first[0].short, first[j].short));
        }
        assert(first[0] == second[0]);
        let rest_first = first.drop_first();
        let rest_second = second.drop_first();
        assert forall|short: Seq<char>| #[trigger]
            rows_named(rest_first, short) == rows_named(rest_second, short) by {
            lemma_rows_named_without_first(first, short);
            lemma_rows_named_without_first(second, short);
        }
        lemma_rest_is_sorted(first);
        lemma_rest_is_sorted(second);
        lemma_sorted_with_same_rows_are_equal(rest_first, rest_second);
        assert(first =~= seq![first[0]] + rest_first);
        assert(second =~= seq![second[0]] + rest_second);
    }
}

/// There is one way only to sort rows stably: two tables that each are a
/// stable sort of the same rows are equal.
pub proof fn lemma_stable_sort_is_unique(
    first: Seq<RowView>,
    second: Seq<RowView>,
    rows: Seq<RowView>,
)
    requires
        is_stable_sort_of(first, rows),
        is_stable_sort_of(second, rows),
    ensures
        first == second,
{
    assert forall|short: Seq<char>| #[trigger]
        rows_named(first, short) == rows_named(second, short) by {
        assert(rows_named(first, short) == rows_named(rows, short));
        assert(rows_named(second, short) == rows_named(rows, short));
    }
    lemma_sorted_with_same_rows_are_equal(first, second);
}

} // verus!
