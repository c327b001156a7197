//! The progress row in the sidebar configuration: adding it, and taking it out again.
use toml_edit::{DocumentMut, Item, Value};
use vstd::prelude::*;

use crate::sidebar_laws;
use crate::text;
use crate::text::{contains, same_text, squashed};
use crate::toml;
use crate::tree;

verus! {

/// How many rows the sidebar can show for an agent.
pub const MAX_ROWS: usize = 16;

/// Why a sidebar configuration is left as it is.
#[derive(Clone, Copy, Debug, PartialEq, Eq, Structural)]
pub enum SidebarFault {
    /// Rows that are no array.
    NotRows,
    /// A row that shows progress and is not the one that is added here.
    EditedRow,
    /// No row is left to be used.
    Full,
    /// Rows by agent that are no table.
    NotOverrides,
}

/// Why a sidebar configuration could not be edited.
#[derive(Debug)]
pub enum SidebarError {
    /// The text is no TOML, for the reason given.
    Parse(String),
    /// The configuration does not allow the edit.
    Fault(SidebarFault),
}

// ---------------------------------------------------------------------------
// Rows
// ---------------------------------------------------------------------------

/// The row that shows progress.
pub open spec fn progress_text() -> Seq<char> {
    "[{ token = \"$agent_progress_summary\", dim = true }]"@
}

/// The row that showed progress before one token held all of it.
pub open spec fn legacy_text() -> Seq<char> {
    "[\"$agent_progress_percent\", { token = \"$agent_progress_freshness\", dim = true }, \"$agent_progress_activity\"]"@
}

/// Whether `row` is one of the two progress rows, however it is spaced.
pub open spec fn progress(row: Seq<char>) -> bool {
    text::squash(row) == text::squash(progress_text()) || text::squash(row) == text::squash(
        legacy_text(),
    )
}

/// Whether `row` names a token of the progress reporter.
pub open spec fn names_progress(row: Seq<char>) -> bool {
    text::occurs(row, "$agent_progress_"@)
}

/// The rows that are no progress rows.
pub open spec fn kept(rows: Seq<toml::TomlRow>) -> Seq<toml::TomlRow> {
    rows.filter(|row: toml::TomlRow| !progress(row.text))
}

/// Why no progress row can be added to the rows with the texts `rows`, if none can.
pub open spec fn rows_fault(rows: Seq<Seq<char>>) -> Option<SidebarFault> {
    if exists|i: int| 0 <= i < rows.len() && names_progress(#[trigger] rows[i]) {
        Some(SidebarFault::EditedRow)
    } else if rows.len() >= MAX_ROWS {
        Some(SidebarFault::Full)
    } else {
        None
    }
}

/// The texts of rows.
pub open spec fn row_views(rows: Seq<toml::TomlRow>) -> Seq<Seq<char>> {
    rows.map_values(|row: toml::TomlRow| row.text)
}

/// `item` without its progress rows and, with `add`, with the progress row at its end.
pub open spec fn edited_rows(item: toml::Toml, add: bool) -> Result<toml::Toml, SidebarFault> {
    match item {
        toml::Toml::List { frame, rows } => {
            let rest = kept(rows);
            if !add {
                Ok(toml::Toml::List { frame, rows: rest })
            } else {
                match rows_fault(row_views(rest)) {
                    Some(e) => Err(e),
                    None => Ok(
                        toml::Toml::List {
                            frame,
                            rows: rest.push(toml::plain_row(progress_text())),
                        },
                    ),
                }
            }
        },
        _ => Err(SidebarFault::NotRows),
    }
}

/// The rows that the sidebar shows where none are configured.
pub open spec fn default_rows() -> toml::Toml {
    toml::Toml::List {
        frame: toml::plain_frame(),
        rows: seq![
            toml::plain_row("[\"state_icon\", \"machine\", \"workspace\", \"tab\"]"@),
            toml::plain_row("[\"agent\"]"@),
        ],
    }
}

/// Whether `row` is one of the two progress rows, however it is spaced.
pub fn is_progress_row(row: &str) -> (r: bool)
    ensures
        r == progress(row@),
{
    let row = squashed(row);
    same_text(
        row.as_str(),
        squashed("[{ token = \"$agent_progress_summary\", dim = true }]").as_str(),
    ) || same_text(
        row.as_str(),
        squashed(
            "[\"$agent_progress_percent\", { token = \"$agent_progress_freshness\", dim = true }, \"$agent_progress_activity\"]",
        ).as_str(),
    )
}

/// Whether `row` stays when the progress rows are dropped.
pub fn is_other_row(row: &str) -> (r: bool)
    ensures
        r == !progress(row@),
{
    !is_progress_row(row)
}

/// `Array::retain`, with `<Value as Display>::to_string` of each element: drops the progress rows
/// and keeps the others as they are. It drops unfilled places too, so there are to be none, and it
/// panics where an element cannot be written.
#[verifier::external_body]
fn drop_progress_rows(item: &mut Item)
    requires
        toml::item_tree(*old(item)) is List,
        toml::item_tree(*old(item))->frame.filled,
        toml::all_sound(toml::item_tree(*old(item))->rows),
    ensures
        toml::item_tree(*final(item)) == (toml::Toml::List {
            frame: toml::item_tree(*old(item))->frame,
            rows: kept(toml::item_tree(*old(item))->rows),
        }),
{
    item.as_array_mut().unwrap().retain(|value| is_other_row(value.to_string().as_str()));
}

/// The row that shows progress.
fn row() -> (r: Value)
    ensures
        toml::value_row(r) == toml::plain_row(progress_text()),
{
    // One token lets the sidebar cut only the tail. Separate tokens have widths of their own and
    // can lose the freshness before the activity.
    proof {
        reveal_strlit("$agent_progress_summary");
        reveal_strlit("token");
        reveal_strlit("dim");
        reveal_strlit("true");
        reveal_strlit(" = ");
        reveal_strlit("[{ token = \"$agent_progress_summary\", dim = true }]");
        assert("token"@.len() != "dim"@.len());
    }
    let mut style = toml::new_table();
    toml::insert_text(&mut style, "token", "$agent_progress_summary");
    let ghost one = toml::plain_fields(style)->0;
    assert(!tree::has_key(one, "dim"@)) by {
        assert(one[0].0 == "token"@);
        tree::lemma_position(one, "dim"@);
    }
    toml::insert_flag(&mut style, "dim", true);
    let ghost fields = toml::plain_fields(style)->0;
    let mut cells = toml::new_array();
    toml::push_table(&mut cells, style);
    proof {
        let rows = toml::array_tree(cells)->rows;
        assert(fields.drop_last() =~= one);
        assert(one.drop_last() =~= Seq::empty());
        assert(toml::joined_fields(one.drop_last()) =~= Seq::empty());
        assert(toml::joined_fields(one) =~= seq![' '] + "token"@ + " = "@ + one[0].1);
        assert(toml::joined_fields(fields) == toml::joined_fields(one) + seq![',', ' '] + "dim"@
            + " = "@ + "true"@);
        assert(rows =~= seq![toml::plain_row(toml::fields_text(fields))]);
        assert(toml::list_text(toml::plain_frame(), rows) =~= progress_text());
    }
    toml::array_value(cells)
}

/// The rows that the sidebar shows where none are configured.
fn default_item() -> (r: Item)
    ensures
        toml::item_tree(r) == default_rows(),
{
    proof {
        reveal_strlit("state_icon");
        reveal_strlit("machine");
        reveal_strlit("workspace");
        reveal_strlit("tab");
        reveal_strlit("agent");
        reveal_strlit("[\"state_icon\", \"machine\", \"workspace\", \"tab\"]");
        reveal_strlit("[\"agent\"]");
    }
    let mut first = toml::new_array();
    toml::push_text(&mut first, "state_icon");
    toml::push_text(&mut first, "machine");
    toml::push_text(&mut first, "workspace");
    toml::push_text(&mut first, "tab");
    let mut second = toml::new_array();
    toml::push_text(&mut second, "agent");
    proof {
        let all = toml::array_tree(first)->rows;
        let three = all.drop_last();
        let two = three.drop_last();
        let one = two.drop_last();
        assert(one =~= seq![all[0]]);
        assert(toml::joined(one) == all[0].text);
        assert(toml::joined(two) == all[0].text + seq![','] + toml::in_place(all[1], 1));
        assert(toml::joined(three) == toml::joined(two) + seq![','] + toml::in_place(all[2], 2));
        assert(toml::joined(all) == toml::joined(three) + seq![','] + toml::in_place(all[3], 3));
        assert(toml::list_text(toml::plain_frame(), all)
            =~= "[\"state_icon\", \"machine\", \"workspace\", \"tab\"]"@);
        let only = toml::array_tree(second)->rows;
        assert(only =~= seq![only[0]]);
        assert(toml::list_text(toml::plain_frame(), only) =~= "[\"agent\"]"@);
    }
    let mut rows = toml::new_array();
    toml::push_value(&mut rows, toml::array_value(first));
    toml::push_value(&mut rows, toml::array_value(second));
    assert(toml::array_tree(rows)->rows =~= default_rows()->rows);
    toml::array_item(rows)
}

/// Rows that can be written still can when the progress rows are dropped.
proof fn lemma_kept_sound(rows: Seq<toml::TomlRow>)
    requires
        toml::all_sound(rows),
    ensures
        toml::all_sound(kept(rows)),
    decreases rows.len(),
{
    reveal(Seq::filter);
    if rows.len() > 0 {
        let front = rows.drop_last();
        assert forall|i: int| 0 <= i < front.len() implies (#[trigger] front[i]).sound by {
            assert(front[i] == rows[i]);
        }
        lemma_kept_sound(front);
        assert(rows[rows.len() - 1].sound);
    }
}

/// Edited rows are an array, as complete as before, and can be written.
proof fn lemma_edited_rows_writable(item: toml::Toml, add: bool)
    requires
        item.writable(),
        edited_rows(item, add) is Ok,
    ensures
        edited_rows(item, add)->Ok_0 is List,
        edited_rows(item, add)->Ok_0.writable(),
        item.complete() ==> edited_rows(item, add)->Ok_0.complete(),
{
    lemma_kept_sound(item->rows);
}

/// Whether a progress row can be added to the rows with the texts `rows`: none of them may name
/// progress, and there must be room.
pub fn check_rows(rows: &Vec<String>) -> (r: Result<(), SidebarFault>)
    ensures
        match rows_fault(text::views(rows@)) {
            None => r is Ok,
            Some(e) => r == Err::<(), SidebarFault>(e),
        },
{
    let n: usize = rows.len();
    let ghost all = text::views(rows@);
    for i in 0..n
        invariant
            n == rows@.len(),
            all == text::views(rows@),
            forall|k: int| 0 <= k < i ==> !names_progress(#[trigger] all[k]),
    {
        assert(all[i as int] == rows@[i as int]@);
        if contains(rows[i].as_str(), "$agent_progress_") {
            assert(names_progress(all[i as int]));
            return Err(SidebarFault::EditedRow);
        }
    }
    if n >= MAX_ROWS {
        return Err(SidebarFault::Full);
    }
    Ok(())
}

/// Takes the progress rows out of an array of rows and, with `add`, puts the progress row at its
/// end.
fn edit(item: &mut Item, add: bool) -> (r: Result<(), SidebarFault>)
    requires
        toml::item_tree(*old(item)).complete(),
        toml::item_tree(*old(item)).writable(),
    ensures
        match edited_rows(toml::item_tree(*old(item)), add) {
            Ok(t) => r is Ok && toml::item_tree(*final(item)) == t,
            Err(e) => r == Err::<(), SidebarFault>(e),
        },
{
    if !toml::is_list(item) {
        return Err(SidebarFault::NotRows);
    }
    proof {
        lemma_kept_sound(toml::item_tree(*item)->rows);
    }
    drop_progress_rows(item);
    if add {
        let texts: Vec<String> = toml::row_texts(item);
        let ghost rest = kept(toml::item_tree(*old(item))->rows);
        assert(text::views(texts@) =~= row_views(rest));
        match check_rows(&texts) {
            Ok(()) => {},
            Err(e) => return Err(e),
        }
        toml::push_row(item, row());
    }
    Ok(())
}

// ---------------------------------------------------------------------------
// The rows by agent
// ---------------------------------------------------------------------------

/// Each entry with its rows edited, the progress row added for the one agent that reports; or the
/// fault of the first entry that has one.
pub open spec fn edited_entries(
    entries: Seq<(Seq<char>, toml::TomlEntry)>,
    remove: bool,
) -> Result<Seq<(Seq<char>, toml::TomlEntry)>, SidebarFault>
    decreases entries.len(),
{
    if entries.len() == 0 {
        Ok(entries)
    } else {
        match edited_entries(entries.drop_last(), remove) {
            Err(e) => Err(e),
            Ok(done) => match edited_rows(
                entries.last().1.item,
                !remove && entries.last().0 == "devin"@,
            ) {
                Err(e) => Err(e),
                Ok(item) => Ok(
                    done.push(
                        (
                            entries.last().0,
                            toml::TomlEntry { key_style: entries.last().1.key_style, item },
                        ),
                    ),
                ),
            },
        }
    }
}

/// Whether two items are arrays with the same text but for white space.
pub open spec fn same_rows(a: toml::Toml, b: toml::Toml) -> bool {
    &&& a is List
    &&& b is List
    &&& text::squash(toml::list_text(a->frame, a->rows)) == text::squash(
        toml::list_text(b->frame, b->rows),
    )
}

/// The rows by agent after an edit, where `base` is the rows of every other agent: rows of its own
/// are made for the agent that reports, and dropped again where they no longer differ.
pub open spec fn edited_overrides(
    item: toml::Toml,
    base: toml::Toml,
    remove: bool,
) -> Result<toml::Toml, SidebarFault> {
    match item {
        toml::Toml::Table { inline, comma, style, entries } => match edited_entries(entries, remove) {
            Err(e) => Err(e),
            Ok(done) => {
                let table = toml::Toml::Table { inline, comma, style, entries: done };
                if !remove && table.child("devin"@) is Missing {
                    match edited_rows(base, true) {
                        Err(e) => Err(e),
                        Ok(rows) => Ok(table.with("devin"@, rows)),
                    }
                } else if remove && same_rows(base, table.child("devin"@)) {
                    Ok(table.without("devin"@))
                } else {
                    Ok(table)
                }
            },
        },
        _ => Err(SidebarFault::NotOverrides),
    }
}

/// What [`edited_entries`] does to each entry.
pub proof fn lemma_edited_entries(entries: Seq<(Seq<char>, toml::TomlEntry)>, remove: bool)
    ensures
        match edited_entries(entries, remove) {
            Ok(done) => {
                &&& done.len() == entries.len()
                &&& forall|i: int|
                    #![trigger done[i]]
                    0 <= i < done.len() ==> {
                        &&& done[i].0 == entries[i].0
                        &&& done[i].1.key_style == entries[i].1.key_style
                        &&& edited_rows(
                            entries[i].1.item,
                            !remove && entries[i].0 == "devin"@,
                        ) == Ok::<toml::Toml, SidebarFault>(done[i].1.item)
                    }
            },
            Err(e) => exists|i: int|
                #![trigger entries[i]]
                0 <= i < entries.len() && edited_rows(
                    entries[i].1.item,
                    !remove && entries[i].0 == "devin"@,
                ) == Err::<toml::Toml, SidebarFault>(e),
        },
    decreases entries.len(),
{
    if entries.len() > 0 {
        let front = entries.drop_last();
        lemma_edited_entries(front, remove);
        match edited_entries(entries, remove) {
            Ok(done) => {
                let before = edited_entries(front, remove)->Ok_0;
                assert forall|i: int|
                    #![trigger done[i]]
                    0 <= i < done.len() implies {
                        &&& done[i].0 == entries[i].0
                        &&& done[i].1.key_style == entries[i].1.key_style
                        &&& edited_rows(
                            entries[i].1.item,
                            !remove && entries[i].0 == "devin"@,
                        ) == Ok::<toml::Toml, SidebarFault>(done[i].1.item)
                    } by {
                    if i < before.len() {
                        assert(done[i] == before[i]);
                        assert(front[i] == entries[i]);
                    }
                }
            },
            Err(e) => {
                if edited_entries(front, remove) is Err {
                    let i = choose|i: int|
                        #![trigger front[i]]
                        0 <= i < front.len() && edited_rows(
                            front[i].1.item,
                            !remove && front[i].0 == "devin"@,
                        ) == Err::<toml::Toml, SidebarFault>(e);
                    assert(entries[i] == front[i]);
                } else {
                    assert(entries[entries.len() - 1] == entries.last());
                }
            },
        }
    }
}

/// Edits the rows of each agent of a table.
fn edit_entries(table: &mut Item, remove: bool) -> (r: Result<(), SidebarFault>)
    requires
        toml::item_tree(*old(table)) is Table,
        toml::item_tree(*old(table)).complete(),
        toml::item_tree(*old(table)).writable(),
    ensures
        match edited_entries(toml::item_tree(*old(table))->entries, remove) {
            Ok(done) => {
                &&& r is Ok
                &&& toml::item_tree(*final(table)) == (toml::Toml::Table {
                    inline: toml::item_tree(*old(table))->inline,
                    comma: toml::item_tree(*old(table))->comma,
                    style: toml::item_tree(*old(table))->style,
                    entries: done,
                })
            },
            Err(e) => r == Err::<(), SidebarFault>(e),
        },
{
    let agents: Vec<String> = toml::keys(table);
    let n: usize = agents.len();
    let ghost t = toml::item_tree(*table);
    let ghost s = t->entries;
    proof {
        assert(s.take(0) =~= Seq::empty());
        assert(Seq::empty() + s.skip(0) =~= s);
    }
    for i in 0..n
        invariant
            n == agents@.len() == s.len(),
            forall|k: int| 0 <= k < n ==> (#[trigger] agents@[k])@ == s[k].0,
            t is Table,
            s == t->entries,
            t.complete(),
            t.writable(),
            t == toml::item_tree(*old(table)),
            edited_entries(s.take(i as int), remove) is Ok,
            toml::item_tree(*table) == (toml::Toml::Table {
                inline: t->inline,
                comma: t->comma,
                style: t->style,
                entries: edited_entries(s.take(i as int), remove)->Ok_0 + s.skip(i as int),
            }),
    {
        let ghost done = edited_entries(s.take(i as int), remove)->Ok_0;
        let ghost now = done + s.skip(i as int);
        let add = !remove && same_text(agents[i].as_str(), "devin");
        proof {
            lemma_edited_entries(s.take(i as int), remove);
            assert forall|k: int| 0 <= k < i implies (#[trigger] now[k]).0 != agents@[i as int]@ by {
                assert(now[k] == done[k]);
                assert(s.take(i as int)[k] == s[k]);
                assert(s[k].0 != s[i as int].0);
            }
            assert(now[i as int] == s[i as int]);
            assert(now[i as int].0 == agents@[i as int]@);
            tree::lemma_position_is(now, agents@[i as int]@, i as int);
            assert(s.take(i + 1).drop_last() =~= s.take(i as int));
            assert(s.take(i + 1).last() == s[i as int]);
        }
        let rows = toml::child_mut(table, agents[i].as_str());
        match edit(rows, add) {
            Ok(()) => {},
            Err(e) => {
                proof {
                    assert(edited_entries(s.take(i + 1), remove) == Err::<
                        Seq<(Seq<char>, toml::TomlEntry)>,
                        SidebarFault,
                    >(e));
                    lemma_fault_stays(s, i + 1, remove);
                }
                return Err(e);
            },
        }
        proof {
            let after = edited_entries(s.take(i + 1), remove)->Ok_0;
            assert(after + s.skip(i + 1) =~= now.update(i as int, after.last()));
        }
    }
    assert(s.take(n as int) =~= s);
    assert(s.skip(n as int) =~= Seq::empty());
    assert(edited_entries(s, remove)->Ok_0 + Seq::empty() =~= edited_entries(s, remove)->Ok_0);
    Ok(())
}

/// A fault among the first entries is the fault of all.
proof fn lemma_fault_stays(entries: Seq<(Seq<char>, toml::TomlEntry)>, n: int, remove: bool)
    requires
        0 <= n <= entries.len(),
        edited_entries(entries.take(n), remove) is Err,
    ensures
        edited_entries(entries, remove) == edited_entries(entries.take(n), remove),
    decreases entries.len() - n,
{
    if n == entries.len() {
        assert(entries.take(n) =~= entries);
    } else {
        assert(entries.take(n + 1).drop_last() =~= entries.take(n));
        lemma_fault_stays(entries, n + 1, remove);
    }
}

/// Edits the rows by agent, where `base` is the rows of every other agent, if there are any.
fn edit_overrides(item: &mut Item, base: &Option<Item>, remove: bool) -> (r: Result<
    (),
    SidebarFault,
>)
    requires
        toml::item_tree(*old(item)).complete(),
        toml::item_tree(*old(item)).writable(),
        remove || base is Some,
        base is Some ==> toml::item_tree(base->0) is List && toml::item_tree(base->0).complete()
            && toml::item_tree(base->0).writable(),
    ensures
        match edited_overrides(toml::item_tree(*old(item)), optional_tree(*base), remove) {
            Ok(t) => r is Ok && toml::item_tree(*final(item)) == t,
            Err(e) => r == Err::<(), SidebarFault>(e),
        },
{
    if !toml::is_table(item) {
        return Err(SidebarFault::NotOverrides);
    }
    match edit_entries(item, remove) {
        Ok(()) => {},
        Err(e) => return Err(e),
    }
    proof {
        lemma_edited_entries(toml::item_tree(*old(item))->entries, remove);
        let done = edited_entries(toml::item_tree(*old(item))->entries, remove)->Ok_0;
        tree::lemma_position(done, "devin"@);
        if tree::has_key(done, "devin"@) {
            let p = tree::position(done, "devin"@);
            assert(done[p].1.item is List);
            assert(toml::item_tree(*old(item))->entries[p].1.item.complete());
            assert(toml::item_tree(*old(item))->entries[p].1.item.writable());
            lemma_edited_rows_writable(
                toml::item_tree(*old(item))->entries[p].1.item,
                !remove && toml::item_tree(*old(item))->entries[p].0 == "devin"@,
            );
        }
    }
    let own: Option<&Item> = toml::child(item, "devin");
    if remove {
        let redundant = match (base, own) {
            (Some(base), Some(own)) => same_text(
                squashed(toml::item_text(base).as_str()).as_str(),
                squashed(toml::item_text(own).as_str()).as_str(),
            ),
            _ => false,
        };
        if redundant {
            toml::remove_child(item, "devin");
        }
        Ok(())
    } else {
        match (base, own) {
            (Some(base), None) => {
                let slot = toml::child_mut(item, "devin");
                *slot = base.clone();
                edit(slot, true)
            },
            _ => Ok(()),
        }
    }
}

// ---------------------------------------------------------------------------
// The table of the agents' sidebar
// ---------------------------------------------------------------------------

/// What an item holds, or nothing where there is none.
pub open spec fn optional_tree(item: Option<Item>) -> toml::Toml {
    match item {
        Some(item) => toml::item_tree(item),
        None => toml::Toml::Missing,
    }
}

/// The rows of every agent without rows of its own, after an edit.
pub open spec fn edited_base(agents: toml::Toml, remove: bool) -> Result<toml::Toml, SidebarFault> {
    let rows = agents.child("rows"@);
    if !(rows is Missing) {
        edited_rows(rows, false)
    } else if remove {
        Ok(rows)
    } else {
        edited_rows(default_rows(), false)
    }
}

/// The rows by agent before an edit: where there are none, adding makes an empty table.
pub open spec fn overrides_of(agents: toml::Toml, remove: bool) -> toml::Toml {
    let overrides = agents.child("rows_by_agent"@);
    if overrides is Missing && !remove {
        toml::empty_tree()
    } else {
        overrides
    }
}

/// The table of the agents' sidebar after an edit.
pub open spec fn edited_agents(agents: toml::Toml, remove: bool) -> Result<
    toml::Toml,
    SidebarFault,
> {
    match edited_base(agents, remove) {
        Err(e) => Err(e),
        Ok(base) => {
            let with_base = if base is Missing {
                agents
            } else {
                agents.with("rows"@, base)
            };
            let overrides = overrides_of(agents, remove);
            if overrides is Missing {
                Ok(with_base)
            } else {
                match edited_overrides(overrides, base, remove) {
                    Err(e) => Err(e),
                    Ok(done) => Ok(with_base.with("rows_by_agent"@, done)),
                }
            }
        },
    }
}

/// The two keys that hold rows differ.
pub proof fn lemma_keys()
    ensures
        "rows"@ != "rows_by_agent"@,
{
    reveal_strlit("rows");
    reveal_strlit("rows_by_agent");
    assert("rows"@.len() != "rows_by_agent"@.len());
}

/// Edits the table of the agents' sidebar.
fn edit_agents(agents: &mut Item, remove: bool) -> (r: Result<(), SidebarFault>)
    requires
        toml::item_tree(*old(agents)).complete(),
        toml::item_tree(*old(agents)).writable(),
        remove || toml::item_tree(*old(agents)).is_open(),
    ensures
        match edited_agents(toml::item_tree(*old(agents)), remove) {
            Ok(t) => r is Ok && toml::item_tree(*final(agents)) == t,
            Err(e) => r == Err::<(), SidebarFault>(e),
        },
{
    let ghost t = toml::item_tree(*agents);
    proof {
        lemma_keys();
        toml::lemma_complete_child(t, "rows"@);
        toml::lemma_complete_child(t, "rows_by_agent"@);
        toml::lemma_writable_child(t, "rows"@);
        toml::lemma_writable_child(t, "rows_by_agent"@);
        if edited_base(t, remove) is Ok && !(edited_base(t, remove)->Ok_0 is Missing) {
            if t.child("rows"@) is Missing {
                lemma_edited_rows_writable(default_rows(), false);
            } else {
                lemma_edited_rows_writable(t.child("rows"@), false);
            }
        }
    }
    let mut base: Option<Item> = None;
    let configured = toml::child(agents, "rows").is_some();
    if configured || !remove {
        if !configured {
            let slot = toml::child_mut(agents, "rows");
            *slot = default_item();
        }
        proof {
            toml::lemma_with(t, "rows"@, default_rows(), "rows_by_agent"@, edited_base(t, remove)->Ok_0);
            toml::lemma_with(t, "rows"@, edited_base(t, remove)->Ok_0, "rows_by_agent"@, t);
        }
        let slot = toml::child_mut(agents, "rows");
        match edit(slot, false) {
            Ok(()) => {},
            Err(e) => return Err(e),
        }
        base = Some(slot.clone());
    }
    let ghost with_base = toml::item_tree(*agents);
    let overridden = toml::child(agents, "rows_by_agent").is_some();
    if overridden || !remove {
        if !overridden {
            let slot = toml::child_mut(agents, "rows_by_agent");
            *slot = toml::empty_table();
        }
        proof {
            toml::lemma_with(
                with_base,
                "rows_by_agent"@,
                toml::empty_tree(),
                "rows"@,
                edited_overrides(overrides_of(t, remove), optional_tree(base), remove)->Ok_0,
            );
        }
        let slot = toml::child_mut(agents, "rows_by_agent");
        match edit_overrides(slot, &base, remove) {
            Ok(()) => {},
            Err(e) => return Err(e),
        }
    }
    Ok(())
}

// ---------------------------------------------------------------------------
// The whole configuration
// ---------------------------------------------------------------------------

/// The table of the agents' sidebar in a configuration.
pub open spec fn agents_of(root: toml::Toml) -> toml::Toml {
    root.child("ui"@).child("sidebar"@).child("agents"@)
}

/// A configuration with another table of the agents' sidebar.
pub open spec fn with_agents(root: toml::Toml, agents: toml::Toml) -> toml::Toml {
    let ui = root.child("ui"@);
    let bar = ui.child("sidebar"@);
    root.with("ui"@, ui.with("sidebar"@, bar.with("agents"@, agents)))
}

/// Whether rows by agent cannot be put into the table of the agents' sidebar: it is in braces, ends in
/// a comma and has none.
pub open spec fn closed(agents: toml::Toml) -> bool {
    &&& agents is Table
    &&& agents->inline
    &&& agents->comma
    &&& agents.child("rows_by_agent"@) is Missing
}

/// Whether rows can be put into a configuration: whatever stands on the way to them is a table, and the
/// last one takes the rows by agent, unless an edit would be refused anyway.
pub open spec fn editable(root: toml::Toml) -> bool {
    &&& root.child("ui"@).is_open()
    &&& root.child("ui"@).child("sidebar"@).is_open()
    &&& agents_of(root).is_open()
    &&& closed(agents_of(root)) ==> edited_agents(agents_of(root), false) is Err
}

/// Edited rows by agent can be written, and are the kind of table that they were.
proof fn lemma_edited_overrides_writable(item: toml::Toml, base: toml::Toml, remove: bool)
    requires
        item.writable(),
        base is Missing || base.writable(),
        edited_overrides(item, base, remove) is Ok,
    ensures
        edited_overrides(item, base, remove)->Ok_0.writable(),
        edited_overrides(item, base, remove)->Ok_0 is Table,
        edited_overrides(item, base, remove)->Ok_0->inline == item->inline,
{
    let entries = item->entries;
    let done = edited_entries(entries, remove)->Ok_0;
    let table = toml::Toml::Table {
        inline: item->inline,
        comma: item->comma,
        style: item->style,
        entries: done,
    };
    lemma_edited_entries(entries, remove);
    assert forall|i: int| 0 <= i < done.len() implies (#[trigger] done[i]).1.item is List
        && done[i].1.item.writable() by {
        assert(entries[i].1.item.writable());
        lemma_edited_rows_writable(entries[i].1.item, !remove && entries[i].0 == "devin"@);
    }
    assert(table.writable());
    if !remove && table.child("devin"@) is Missing {
        lemma_edited_rows_writable(base, true);
        toml::lemma_writable_with(table, "devin"@, edited_rows(base, true)->Ok_0);
    } else if remove && same_rows(base, table.child("devin"@)) {
        let p = tree::position(done, "devin"@);
        tree::lemma_position(done, "devin"@);
        let after = done.remove(p);
        assert forall|i: int| 0 <= i < after.len() implies (#[trigger] after[i]).1.item is List
            && after[i].1.item.writable() by {
            assert(after[i] == done[if i < p {
                i
            } else {
                i + 1
            }]);
        }
        assert(table.without("devin"@).writable());
    }
}

/// The edited table of the agents' sidebar can be written, and is the kind of item that it was.
proof fn lemma_edited_agents_writable(agents: toml::Toml, remove: bool)
    requires
        agents.writable(),
        remove || agents.is_open(),
        remove || !closed(agents),
        edited_agents(agents, remove) is Ok,
    ensures
        edited_agents(agents, remove)->Ok_0.writable(),
        agents is Missing || agents.is_value() ==> edited_agents(agents, remove)->Ok_0 is Missing
            || edited_agents(agents, remove)->Ok_0.is_value(),
{
    let base = edited_base(agents, remove)->Ok_0;
    let overrides = overrides_of(agents, remove);
    lemma_keys();
    toml::lemma_writable_child(agents, "rows"@);
    toml::lemma_writable_child(agents, "rows_by_agent"@);
    if !(agents.child("rows"@) is Missing) {
        lemma_edited_rows_writable(agents.child("rows"@), false);
    } else if !remove {
        lemma_edited_rows_writable(default_rows(), false);
    }
    let with_base = if base is Missing {
        agents
    } else {
        agents.with("rows"@, base)
    };
    if !(base is Missing) {
        toml::lemma_writable_with(agents, "rows"@, base);
        toml::lemma_with(agents, "rows"@, base, "rows_by_agent"@, base);
    }
    if !(overrides is Missing) {
        let done = edited_overrides(overrides, base, remove)->Ok_0;
        lemma_edited_overrides_writable(overrides, base, remove);
        toml::lemma_writable_with(with_base, "rows_by_agent"@, done);
    }
}

/// An edited configuration can be written.
proof fn lemma_with_agents_writable(root: toml::Toml, remove: bool)
    requires
        root is Table,
        root.writable(),
        remove || editable(root),
        !remove || !(agents_of(root) is Missing),
        edited_agents(agents_of(root), remove) is Ok,
    ensures
        with_agents(root, edited_agents(agents_of(root), remove)->Ok_0).writable(),
{
    let ui = root.child("ui"@);
    let bar = ui.child("sidebar"@);
    let agents = edited_agents(agents_of(root), remove)->Ok_0;
    toml::lemma_writable_child(root, "ui"@);
    toml::lemma_writable_child(ui, "sidebar"@);
    toml::lemma_writable_child(bar, "agents"@);
    lemma_edited_agents_writable(agents_of(root), remove);
    toml::lemma_writable_with(bar, "agents"@, agents);
    toml::lemma_writable_with(ui, "sidebar"@, bar.with("agents"@, agents));
    toml::lemma_writable_with(root, "ui"@, ui.with("sidebar"@, bar.with("agents"@, agents)));
}

/// The configuration `doc`, which `input` holds, after an edit, as text.
pub open spec fn edited_text(input: Seq<char>, doc: toml::TomlDoc, remove: bool) -> Result<
    Seq<char>,
    SidebarFault,
> {
    if remove && agents_of(doc.root) is Missing {
        Ok(input)
    } else {
        match edited_agents(agents_of(doc.root), remove) {
            Err(e) => Err(e),
            Ok(agents) => Ok(
                toml::toml_text(
                    toml::TomlDoc {
                        root: with_agents(doc.root, agents),
                        trailing: doc.trailing,
                    },
                ),
            ),
        }
    }
}

/// Whether `item` is an array without a progress row.
pub open spec fn plain_rows(item: toml::Toml) -> bool {
    item is List && forall|i: int|
        0 <= i < item->rows.len() ==> !progress((#[trigger] item->rows[i]).text)
}

/// Whether `item` is an array whose last row is the progress row, written as one that is added, and
/// whose other rows are neither progress rows nor in its way.
pub open spec fn settled_own(item: toml::Toml) -> bool {
    &&& item is List
    &&& item->rows.len() > 0
    &&& progress(item->rows.last().text)
    &&& ({
        let rest = item->rows.drop_last();
        let n = rest.len() as int;
        &&& forall|i: int| 0 <= i < rest.len() ==> !progress((#[trigger] rest[i]).text)
        &&& rows_fault(row_views(rest)) is None
        &&& toml::in_place(item->rows.last(), n) == toml::in_place(
            toml::plain_row(progress_text()),
            n,
        )
    })
}

/// Whether the rows of an agent would be written as before after an edit.
pub open spec fn settled_entry(entry: (Seq<char>, toml::TomlEntry), remove: bool) -> bool {
    if !remove && entry.0 == "devin"@ {
        settled_own(entry.1.item)
    } else {
        plain_rows(entry.1.item)
    }
}

/// Whether the table of the agents' sidebar would be written as before after an edit: the progress row
/// stands where it is to stand, or nowhere where it is to be taken out.
pub open spec fn settled(agents: toml::Toml, remove: bool) -> bool {
    let base = agents.child("rows"@);
    let overrides = agents.child("rows_by_agent"@);
    &&& plain_rows(base) || (remove && base is Missing)
    &&& (remove && overrides is Missing) || {
        &&& overrides is Table
        &&& forall|i: int|
            0 <= i < overrides->entries.len() ==> settled_entry(
                #[trigger] overrides->entries[i],
                remove,
            )
        &&& !remove ==> tree::has_key(overrides->entries, "devin"@)
        &&& remove ==> !same_rows(base, overrides.child("devin"@))
    }
}

/// Whether editing the configuration `input` has nothing to do: what is read of it is written as it is,
/// and its rows are settled.
pub open spec fn nothing_to_do(input: Seq<char>, remove: bool) -> bool {
    toml::toml_parsed(input) matches Ok(doc) && toml::toml_text(doc) == input && settled(
        agents_of(doc.root),
        remove,
    )
}

/// Whether `r` is what editing the configuration `input` gives.
pub open spec fn sidebar_result(
    input: Seq<char>,
    remove: bool,
    r: Result<String, SidebarError>,
) -> bool {
    match toml::toml_parsed(input) {
        Err(m) => r matches Err(SidebarError::Parse(n)) && n@ == m,
        Ok(doc) => match edited_text(input, doc, remove) {
            Ok(text) => r matches Ok(s) && s@ == text,
            Err(e) => r == Err::<String, SidebarError>(SidebarError::Fault(e)),
        },
    }
}

/// A configuration whose rows are settled is written as before when it is edited.
proof fn lemma_settled_alike(root: toml::Toml, remove: bool)
    requires
        settled(agents_of(root), remove),
        !(agents_of(root) is Missing),
    ensures
        edited_agents(agents_of(root), remove) is Ok,
        toml::alike(root, with_agents(root, edited_agents(agents_of(root), remove)->Ok_0)),
{
    let ui = root.child("ui"@);
    let bar = ui.child("sidebar"@);
    sidebar_laws::lemma_settled(agents_of(root), remove);
    let agents = edited_agents(agents_of(root), remove)->Ok_0;
    toml::lemma_alike_with(bar, "agents"@, agents);
    toml::lemma_alike_with(ui, "sidebar"@, bar.with("agents"@, agents));
    toml::lemma_alike_with(root, "ui"@, ui.with("sidebar"@, bar.with("agents"@, agents)));
}

/// Edits a configuration that was read from `input`.
fn edit_document(input: &str, doc: DocumentMut, remove: bool) -> (r: Result<String, SidebarError>)
    requires
        toml::toml_doc(doc).root is Table,
        !toml::toml_doc(doc).root->inline,
        toml::toml_doc(doc).root.complete(),
        toml::toml_doc(doc).root.writable(),
        remove || editable(toml::toml_doc(doc).root),
    ensures
        match edited_text(input@, toml::toml_doc(doc), remove) {
            Ok(text) => r matches Ok(s) && s@ == text,
            Err(e) => r == Err::<String, SidebarError>(SidebarError::Fault(e)),
        },
        toml::toml_text(toml::toml_doc(doc)) == input@ && settled(
            agents_of(toml::toml_doc(doc).root),
            remove,
        ) ==> r is Ok && r->Ok_0@ == input@,
{
    let mut doc = doc;
    let ghost root = toml::toml_doc(doc).root;
    proof {
        toml::lemma_complete_child(root, "ui"@);
        toml::lemma_complete_child(root.child("ui"@), "sidebar"@);
        toml::lemma_complete_child(root.child("ui"@).child("sidebar"@), "agents"@);
        toml::lemma_writable_child(root, "ui"@);
        toml::lemma_writable_child(root.child("ui"@), "sidebar"@);
        toml::lemma_writable_child(root.child("ui"@).child("sidebar"@), "agents"@);
    }
    if remove && !has_agents(&doc) {
        return Ok(input.to_owned());
    }
    proof {
        if settled(agents_of(root), remove) {
            lemma_settled_alike(root, remove);
        }
    }
    let ui = toml::child_mut(toml::root_mut(&mut doc), "ui");
    let bar = toml::child_mut(ui, "sidebar");
    let agents = toml::child_mut(bar, "agents");
    match edit_agents(agents, remove) {
        Ok(()) => {},
        Err(e) => return Err(SidebarError::Fault(e)),
    }
    proof {
        lemma_with_agents_writable(root, remove);
    }
    Ok(toml::print_toml(&doc))
}

/// Whether a configuration has a table of the agents' sidebar.
fn has_agents(doc: &DocumentMut) -> (r: bool)
    ensures
        r == !(agents_of(toml::toml_doc(*doc).root) is Missing),
{
    match toml::child(toml::root(doc), "ui") {
        None => false,
        Some(ui) => match toml::child(ui, "sidebar") {
            None => false,
            Some(bar) => toml::child(bar, "agents").is_some(),
        },
    }
}

/// Whether what stands on the way to the rows, as far as it is there, is a table.
fn is_open_way(doc: &DocumentMut) -> (r: bool)
    ensures
        r == ({
            let ui = toml::toml_doc(*doc).root.child("ui"@);
            ui.is_open() && ui.child("sidebar"@).is_open() && agents_of(
                toml::toml_doc(*doc).root,
            ).is_open()
        }),
{
    match toml::child(toml::root(doc), "ui") {
        None => true,
        Some(ui) => match toml::child(ui, "sidebar") {
            None => toml::is_table(ui),
            Some(bar) => match toml::child(bar, "agents") {
                None => toml::is_table(bar),
                Some(agents) => toml::is_table(agents),
            },
        },
    }
}

/// Whether rows can be put into a configuration, which is used up to find out.
fn is_editable(doc: DocumentMut) -> (r: bool)
    requires
        toml::toml_doc(doc).root is Table,
        toml::toml_doc(doc).root.complete(),
        toml::toml_doc(doc).root.writable(),
    ensures
        r == editable(toml::toml_doc(doc).root),
{
    if !is_open_way(&doc) {
        return false;
    }
    let mut doc = doc;
    let ghost root = toml::toml_doc(doc).root;
    proof {
        toml::lemma_complete_child(root, "ui"@);
        toml::lemma_complete_child(root.child("ui"@), "sidebar"@);
        toml::lemma_complete_child(root.child("ui"@).child("sidebar"@), "agents"@);
        toml::lemma_writable_child(root, "ui"@);
        toml::lemma_writable_child(root.child("ui"@), "sidebar"@);
        toml::lemma_writable_child(root.child("ui"@).child("sidebar"@), "agents"@);
    }
    let ui = toml::child_mut(toml::root_mut(&mut doc), "ui");
    let bar = toml::child_mut(ui, "sidebar");
    let agents = toml::child_mut(bar, "agents");
    if toml::ends_in_comma(agents) && toml::child(agents, "rows_by_agent").is_none() {
        edit_agents(agents, false).is_err()
    } else {
        true
    }
}

/// Puts the progress row into the sidebar configuration `input`, or takes it out with `remove`.
///
/// The row becomes the last one of the agent that reports, which gets rows of its own where it has
/// none. No other row is changed. Where there is nothing to do, or no agents' rows to take it out of, the
/// text comes back as it is.
pub fn sidebar(input: &str, remove: bool) -> (r: Result<String, SidebarError>)
    requires
        !remove ==> match toml::toml_parsed(input@) {
            Ok(doc) => editable(doc.root),
            Err(_) => true,
        },
    ensures
        sidebar_result(input@, remove, r),
        nothing_to_do(input@, remove) ==> r is Ok && r->Ok_0@ == input@,
{
    match toml::parse_toml(input) {
        Err(m) => Err(SidebarError::Parse(m)),
        Ok(doc) => edit_document(input, doc, remove),
    }
}

/// Does what [`sidebar`] does where it can be asked to, and gives nothing where rows cannot be put into a
/// configuration: it holds something else than a table on the way to them, or a table in braces that
/// ends in a comma where the rows by agent are to be made.
pub fn try_sidebar(input: &str, remove: bool) -> (r: Option<Result<String, SidebarError>>)
    ensures
        match r {
            Some(r) => sidebar_result(input@, remove, r) && (remove || match toml::toml_parsed(
                input@,
            ) {
                Ok(doc) => editable(doc.root),
                Err(_) => true,
            }),
            None => !remove && (toml::toml_parsed(input@) matches Ok(doc) && !editable(doc.root)),
        },
{
    match toml::parse_toml(input) {
        Ok(doc) => if !remove && !is_editable(doc) {
            None
        } else {
            Some(sidebar(input, remove))
        },
        Err(_) => Some(sidebar(input, remove)),
    }
}

impl SidebarError {
    /// What is wrong, in words.
    pub open spec fn message_text(self) -> Seq<char> {
        match self {
            SidebarError::Parse(m) => m@,
            SidebarError::Fault(
                SidebarFault::NotRows,
            ) => "Sidebar rows must be arrays"@,
            SidebarError::Fault(
                SidebarFault::EditedRow,
            ) => "An edited progress row already exists; restore or remove it before configuring"@,
            SidebarError::Fault(
                SidebarFault::Full,
            ) => "Sidebar already uses all 16 rows; remove one row before configuring"@,
            SidebarError::Fault(SidebarFault::NotOverrides) => "rows_by_agent must be a table"@,
        }
    }

    /// What is wrong, in words.
    pub fn message(&self) -> (r: String)
        ensures
            r@ == self.message_text(),
    {
        match self {
            SidebarError::Parse(m) => m.clone(),
            SidebarError::Fault(
                SidebarFault::NotRows,
            ) => "Sidebar rows must be arrays".to_owned(),
            SidebarError::Fault(
                SidebarFault::EditedRow,
            ) => "An edited progress row already exists; restore or remove it before configuring".to_owned(),
            SidebarError::Fault(
                SidebarFault::Full,
            ) => "Sidebar already uses all 16 rows; remove one row before configuring".to_owned(),
            SidebarError::Fault(
                SidebarFault::NotOverrides,
            ) => "rows_by_agent must be a table".to_owned(),
        }
    }
}

} // verus!
