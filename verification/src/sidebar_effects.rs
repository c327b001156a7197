//! What an edit of the sidebar configuration does to the rows that stand in it, agent by agent.
use vstd::prelude::*;

use crate::display;
use crate::sidebar;
use crate::sidebar::{SidebarError, SidebarFault};
use crate::text;
use crate::toml;
use crate::tree;

verus! {

// ---------------------------------------------------------------------------
// Rows
// ---------------------------------------------------------------------------

/// Whether two texts are the same but for white space.
pub open spec fn same_but_spaces(a: Seq<char>, b: Seq<char>) -> bool {
    a.filter(|c: char| !text::white(c)) == b.filter(|c: char| !text::white(c))
}

/// The rows that are neither the row that shows progress nor the one that showed it before, in their
/// order.
pub open spec fn others(rows: Seq<toml::TomlRow>) -> Seq<toml::TomlRow> {
    rows.filter(
        |row: toml::TomlRow|
            !same_but_spaces(row.text, "[{ token = \"$agent_progress_summary\", dim = true }]"@)
                && !same_but_spaces(
                row.text,
                "[\"$agent_progress_percent\", { token = \"$agent_progress_freshness\", dim = true }, \"$agent_progress_activity\"]"@,
            ),
    )
}

/// An array of rows with its other rows alone.
pub open spec fn bare(item: toml::Toml) -> toml::Toml {
    toml::Toml::List { frame: item->frame, rows: others(item->rows) }
}

/// An array of rows with its other rows, and behind them the row that shows progress.
pub open spec fn dressed(item: toml::Toml) -> toml::Toml {
    toml::Toml::List {
        frame: item->frame,
        rows: others(item->rows).push(
            toml::TomlRow {
                text: "[{ token = \"$agent_progress_summary\", dim = true }]"@,
                bare: true,
                sound: true,
            },
        ),
    }
}

/// The rows of an agent where none are configured.
pub open spec fn usual() -> toml::Toml {
    toml::Toml::List {
        frame: toml::plain_frame(),
        rows: seq![
            toml::TomlRow {
                text: "[\"state_icon\", \"machine\", \"workspace\", \"tab\"]"@,
                bare: true,
                sound: true,
            },
            toml::TomlRow { text: "[\"agent\"]"@, bare: true, sound: true },
        ],
    }
}

/// Whether one of the other rows names progress.
pub open spec fn in_the_way(item: toml::Toml) -> bool {
    exists|i: int|
        0 <= i < others(item->rows).len() && text::occurs(
            (#[trigger] others(item->rows)[i]).text,
            "$agent_progress_"@,
        )
}

/// Whether `item` is there and is no array.
pub open spec fn no_array(item: toml::Toml) -> bool {
    !(item is Missing) && !(item is List)
}

/// A row counts as a progress row exactly where it is, but for white space, the row with the summary or
/// the one with percentage, freshness and activity; so one that was changed in any other character does
/// not.
pub proof fn law_two_rows_count_as_progress(row: Seq<char>)
    ensures
        sidebar::progress(row) <==> same_but_spaces(
            row,
            "[{ token = \"$agent_progress_summary\", dim = true }]"@,
        ) || same_but_spaces(
            row,
            "[\"$agent_progress_percent\", { token = \"$agent_progress_freshness\", dim = true }, \"$agent_progress_activity\"]"@,
        ),
{
}

/// The rows that are kept are the others.
proof fn lemma_others(rows: Seq<toml::TomlRow>)
    ensures
        sidebar::kept(rows) == others(rows),
{
    let f = |row: toml::TomlRow| !sidebar::progress(row.text);
    let g = |row: toml::TomlRow|
        !same_but_spaces(row.text, "[{ token = \"$agent_progress_summary\", dim = true }]"@)
            && !same_but_spaces(
            row.text,
            "[\"$agent_progress_percent\", { token = \"$agent_progress_freshness\", dim = true }, \"$agent_progress_activity\"]"@,
        );
    assert forall|row: toml::TomlRow| #[trigger] f(row) == g(row) by {
        law_two_rows_count_as_progress(row.text);
    }
    display::lemma_same_filter(rows, f, g);
}

/// A progress row is refused exactly where a row names progress, or sixteen rows are there.
pub proof fn law_rows_are_refused_only_for_cause(rows: Seq<Seq<char>>)
    ensures
        ({
            let named = exists|i: int|
                0 <= i < rows.len() && text::occurs(#[trigger] rows[i], "$agent_progress_"@);
            &&& sidebar::rows_fault(rows) is None <==> !named && rows.len() < 16
            &&& named ==> sidebar::rows_fault(rows) == Some(SidebarFault::EditedRow)
            &&& !named && rows.len() >= 16 ==> sidebar::rows_fault(rows) == Some(
                SidebarFault::Full,
            )
        }),
{
    if exists|i: int| 0 <= i < rows.len() && sidebar::names_progress(#[trigger] rows[i]) {
        let i = choose|i: int| 0 <= i < rows.len() && sidebar::names_progress(#[trigger] rows[i]);
        assert(text::occurs(rows[i], "$agent_progress_"@));
    }
    if exists|i: int| 0 <= i < rows.len() && text::occurs(
        #[trigger] rows[i],
        "$agent_progress_"@,
    ) {
        let i = choose|i: int|
            0 <= i < rows.len() && text::occurs(#[trigger] rows[i], "$agent_progress_"@);
        assert(sidebar::names_progress(rows[i]));
    }
}

/// What an edit makes of one array of rows, or why it makes nothing of it.
proof fn lemma_rows(item: toml::Toml, add: bool)
    ensures
        match sidebar::edited_rows(item, add) {
            Ok(done) => item is List && done == (if add {
                dressed(item)
            } else {
                bare(item)
            }) && (add ==> !in_the_way(item) && others(item->rows).len() < 16),
            Err(e) => match e {
                SidebarFault::NotRows => !(item is List),
                SidebarFault::EditedRow => item is List && add && in_the_way(item),
                SidebarFault::Full => item is List && add && !in_the_way(item) && others(
                    item->rows,
                ).len() >= 16,
                SidebarFault::NotOverrides => false,
            },
        },
{
    if item is List {
        lemma_others(item->rows);
        let rest = others(item->rows);
        let texts = sidebar::row_views(rest);
        law_rows_are_refused_only_for_cause(texts);
        if in_the_way(item) {
            let i = choose|i: int|
                0 <= i < rest.len() && text::occurs((#[trigger] rest[i]).text, "$agent_progress_"@);
            assert(texts[i] == rest[i].text);
        }
        if exists|i: int| 0 <= i < texts.len() && text::occurs(
            #[trigger] texts[i],
            "$agent_progress_"@,
        ) {
            let i = choose|i: int|
                0 <= i < texts.len() && text::occurs(#[trigger] texts[i], "$agent_progress_"@);
            assert(texts[i] == rest[i].text);
        }
    }
}

// ---------------------------------------------------------------------------
// Refusals
// ---------------------------------------------------------------------------

/// Whether one of the agents in a table has something else than an array.
pub open spec fn odd_agent(overrides: toml::Toml) -> bool {
    overrides is Table && exists|i: int|
        0 <= i < overrides->entries.len() && !((
        #[trigger] overrides->entries[i]).1.item is List)
}

/// The rows that the reporting agent starts from: its own, else those of every agent, else the usual
/// ones.
pub open spec fn own_rows(agents: toml::Toml) -> toml::Toml {
    if !(agents.child("rows_by_agent"@).child("devin"@) is Missing) {
        agents.child("rows_by_agent"@).child("devin"@)
    } else if !(agents.child("rows"@) is Missing) {
        bare(agents.child("rows"@))
    } else {
        bare(usual())
    }
}

/// Of rows without progress rows none is taken out.
proof fn lemma_bare_twice(item: toml::Toml)
    requires
        item is List,
    ensures
        others(others(item->rows)) == others(item->rows),
        bare(bare(item)) == bare(item),
        dressed(bare(item)) == dressed(item),
        in_the_way(bare(item)) == in_the_way(item),
{
    let wanted = |row: toml::TomlRow|
        !same_but_spaces(row.text, "[{ token = \"$agent_progress_summary\", dim = true }]"@)
            && !same_but_spaces(
            row.text,
            "[\"$agent_progress_percent\", { token = \"$agent_progress_freshness\", dim = true }, \"$agent_progress_activity\"]"@,
        );
    lemma_filter_twice(item->rows, wanted);
}

/// Filtering a second time takes nothing more out.
proof fn lemma_filter_twice<T>(s: Seq<T>, wanted: spec_fn(T) -> bool)
    ensures
        s.filter(wanted).filter(wanted) == s.filter(wanted),
    decreases s.len(),
{
    reveal(Seq::filter);
    if s.len() > 0 {
        lemma_filter_twice(s.drop_last(), wanted);
        let front = s.drop_last().filter(wanted);
        if wanted(s.last()) {
            assert(front.push(s.last()).drop_last() =~= front);
        }
    }
}

/// What a fault of the rows by agent comes from.
proof fn lemma_entries_fault(overrides: toml::Toml, remove: bool)
    requires
        overrides is Table,
        tree::distinct(overrides->entries),
    ensures
        ({
            let own = overrides.child("devin"@);
            let here = tree::has_key(overrides->entries, "devin"@);
            match sidebar::edited_entries(overrides->entries, remove) {
                Ok(_) => !odd_agent(overrides) && (!remove && here ==> own is List && !in_the_way(
                    own,
                ) && others(own->rows).len() < 16),
                Err(SidebarFault::NotRows) => odd_agent(overrides),
                Err(SidebarFault::EditedRow) => !remove && here && own is List && in_the_way(own),
                Err(SidebarFault::Full) => !remove && here && own is List && !in_the_way(own)
                    && others(own->rows).len() >= 16,
                Err(SidebarFault::NotOverrides) => false,
            }
        }),
{
    let s = overrides->entries;
    sidebar::lemma_edited_entries(s, remove);
    tree::lemma_position(s, "devin"@);
    let p = tree::position(s, "devin"@);
    match sidebar::edited_entries(s, remove) {
        Ok(done) => {
            assert forall|i: int| 0 <= i < s.len() implies (#[trigger] s[i]).1.item is List by {
                assert(done[i].0 == s[i].0);
                lemma_rows(s[i].1.item, !remove && s[i].0 == "devin"@);
            }
            if p < s.len() {
                assert(done[p].0 == s[p].0);
                lemma_rows(s[p].1.item, !remove);
            }
        },
        Err(e) => {
            let i = choose|i: int|
                #![trigger s[i]]
                0 <= i < s.len() && sidebar::edited_rows(
                    s[i].1.item,
                    !remove && s[i].0 == "devin"@,
                ) == Err::<toml::Toml, SidebarFault>(e);
            lemma_rows(s[i].1.item, !remove && s[i].0 == "devin"@);
            if s[i].0 == "devin"@ {
                assert(i == p) by {
                    if i < p {
                        assert(s[i].0 != "devin"@);
                    } else if p < i {
                        assert(s[p].0 != s[i].0);
                    }
                }
            }
        },
    }
}

/// A sidebar configuration is edited exactly where it can be read, all rows are arrays, the rows by agent
/// are a table, and, for adding, no other row of the reporting agent names progress and fewer than
/// sixteen of them are there. Otherwise it is said which of these fails.
pub proof fn law_sidebar_is_refused_only_for_cause(
    input: Seq<char>,
    remove: bool,
    r: Result<String, SidebarError>,
)
    requires
        sidebar::sidebar_result(input, remove, r),
        toml::toml_parsed(input) matches Ok(doc) ==> doc.root.complete(),
    ensures
        r matches Err(SidebarError::Parse(_)) <==> toml::toml_parsed(input) is Err,
        toml::toml_parsed(input) matches Ok(doc) ==> {
            let agents = doc.root.child("ui"@).child("sidebar"@).child("agents"@);
            let rows = agents.child("rows"@);
            let overrides = agents.child("rows_by_agent"@);
            let own = own_rows(agents);
            let table = overrides is Missing || overrides is Table;
            let room = !in_the_way(own) && others(own->rows).len() < 16;
            &&& remove ==> (r is Ok <==> !no_array(rows) && table && !odd_agent(overrides))
            &&& !remove ==> (r is Ok <==> !no_array(rows) && table && !odd_agent(overrides) && room)
            &&& no_array(rows) ==> r == Err::<String, SidebarError>(
                SidebarError::Fault(SidebarFault::NotRows),
            )
            &&& !no_array(rows) && !table ==> r == Err::<String, SidebarError>(
                SidebarError::Fault(SidebarFault::NotOverrides),
            )
            &&& !no_array(rows) && odd_agent(overrides) && (remove || room) ==> r == Err::<
                String,
                SidebarError,
            >(SidebarError::Fault(SidebarFault::NotRows))
            &&& !remove && !no_array(rows) && table && !odd_agent(overrides) && in_the_way(own)
                ==> r == Err::<String, SidebarError>(SidebarError::Fault(SidebarFault::EditedRow))
            &&& !remove && !no_array(rows) && table && !odd_agent(overrides) && !in_the_way(own)
                && others(own->rows).len() >= 16 ==> r == Err::<String, SidebarError>(
                SidebarError::Fault(SidebarFault::Full),
            )
        },
{
    if toml::toml_parsed(input) is Ok {
        let root = toml::toml_parsed(input)->Ok_0.root;
        let agents = root.child("ui"@).child("sidebar"@).child("agents"@);
        toml::lemma_complete_child(root, "ui"@);
        toml::lemma_complete_child(root.child("ui"@), "sidebar"@);
        toml::lemma_complete_child(root.child("ui"@).child("sidebar"@), "agents"@);
        toml::lemma_complete_child(agents, "rows_by_agent"@);
        lemma_agents_fault(agents, remove);
    }
}

/// What a fault of the table of the agents' sidebar comes from.
proof fn lemma_agents_fault(agents: toml::Toml, remove: bool)
    requires
        agents.complete(),
        agents.child("rows_by_agent"@).complete(),
    ensures
        ({
            let rows = agents.child("rows"@);
            let overrides = agents.child("rows_by_agent"@);
            let own = own_rows(agents);
            let table = overrides is Missing || overrides is Table;
            match sidebar::edited_agents(agents, remove) {
                Ok(_) => !no_array(rows) && table && !odd_agent(overrides) && (!remove
                    ==> !in_the_way(own) && others(own->rows).len() < 16),
                Err(SidebarFault::NotRows) => no_array(rows) || odd_agent(overrides),
                Err(SidebarFault::NotOverrides) => !no_array(rows) && !table,
                Err(SidebarFault::EditedRow) => !remove && !no_array(rows) && table && in_the_way(
                    own,
                ),
                Err(SidebarFault::Full) => !remove && !no_array(rows) && table && !in_the_way(own)
                    && others(own->rows).len() >= 16,
            }
        }),
{
    let rows = agents.child("rows"@);
    let overrides = agents.child("rows_by_agent"@);
    lemma_rows(rows, false);
    lemma_rows(usual(), false);
    assert(sidebar::default_rows() == usual());
    let used = sidebar::overrides_of(agents, remove);
    if !no_array(rows) && used is Table {
        let base = sidebar::edited_base(agents, remove)->Ok_0;
        let entries = used->entries;
        lemma_entries_fault(used, remove);
        tree::lemma_position(entries, "devin"@);
        if base is List {
            lemma_rows(base, true);
        }
        if rows is List {
            lemma_bare_twice(rows);
        }
        lemma_bare_twice(usual());
        sidebar::lemma_edited_entries(entries, remove);
        if sidebar::edited_entries(entries, remove) is Ok {
            let done = sidebar::edited_entries(entries, remove)->Ok_0;
            let p = tree::position(entries, "devin"@);
            assert forall|i: int| 0 <= i < p implies (#[trigger] done[i]).0 != "devin"@ by {
                assert(entries[i].0 != "devin"@);
            }
            if p < entries.len() {
                assert(done[p].0 == entries[p].0);
                lemma_rows(entries[p].1.item, !remove);
                assert(!(entries[p].1.item is Missing));
            }
            tree::lemma_position_is(done, "devin"@, p);
        }
    }
}

// ---------------------------------------------------------------------------
// Layout
// ---------------------------------------------------------------------------

/// Whether a table is still written as it was around what stands behind its keys: each key is where it
/// was and as it was written, and keys that are new come last.
pub open spec fn keeps_layout(before: toml::Toml, after: toml::Toml) -> bool {
    before is Table ==> {
        &&& after is Table
        &&& after->inline == before->inline
        &&& after->comma == before->comma
        &&& after->style == before->style
        &&& before->entries.len() <= after->entries.len()
        &&& forall|i: int|
            #![trigger after->entries[i]]
            0 <= i < before->entries.len() ==> after->entries[i].0 == before->entries[i].0
                && after->entries[i].1.key_style == before->entries[i].1.key_style
    }
}

/// Another item behind a key leaves the layout, and only a key that was not there is new.
proof fn lemma_layout(t: toml::Toml, key: Seq<char>, item: toml::Toml)
    ensures
        keeps_layout(t, t.with(key, item)),
        t is Table && !(t.child(key) is Missing) ==> t.with(key, item)->entries.len()
            == t->entries.len(),
{
    if t is Table {
        tree::lemma_position(t->entries, key);
    }
}

/// Keeping the layout twice keeps it.
proof fn lemma_layout_twice(a: toml::Toml, b: toml::Toml, c: toml::Toml)
    requires
        keeps_layout(a, b),
        keeps_layout(b, c),
    ensures
        keeps_layout(a, c),
{
    if a is Table {
        assert forall|i: int|
            #![trigger c->entries[i]]
            0 <= i < a->entries.len() implies c->entries[i].0 == a->entries[i].0
            && c->entries[i].1.key_style == a->entries[i].1.key_style by {
            assert(b->entries[i].0 == a->entries[i].0);
        }
    }
}

// ---------------------------------------------------------------------------
// Taking the row out
// ---------------------------------------------------------------------------

/// Each agent with its other rows alone; keys and their layout stay.
pub open spec fn bare_entries(entries: Seq<(Seq<char>, toml::TomlEntry)>) -> Seq<
    (Seq<char>, toml::TomlEntry),
> {
    entries.map_values(
        |e: (Seq<char>, toml::TomlEntry)|
            (e.0, toml::TomlEntry { key_style: e.1.key_style, item: bare(e.1.item) }),
    )
}

/// Whether rows of their own say nothing new: written out, they are the rows of every agent, but for
/// white space.
pub open spec fn redundant(base: toml::Toml, own: toml::Toml) -> bool {
    &&& base is List
    &&& own is List
    &&& same_but_spaces(
        toml::list_text(base->frame, base->rows),
        toml::list_text(own->frame, own->rows),
    )
}

/// Taking out of each agent's rows.
proof fn lemma_bare_entries(entries: Seq<(Seq<char>, toml::TomlEntry)>)
    requires
        sidebar::edited_entries(entries, true) is Ok,
    ensures
        sidebar::edited_entries(entries, true)->Ok_0 == bare_entries(entries),
        forall|i: int| 0 <= i < entries.len() ==> (#[trigger] entries[i]).1.item is List,
{
    sidebar::lemma_edited_entries(entries, true);
    let done = sidebar::edited_entries(entries, true)->Ok_0;
    assert forall|i: int| 0 <= i < entries.len() implies (#[trigger] entries[i]).1.item is List
        && done[i] == bare_entries(entries)[i] by {
        assert(done[i].0 == entries[i].0);
        lemma_rows(entries[i].1.item, false);
    }
    assert(done =~= bare_entries(entries));
}

/// What stands behind each key of the rows by agent once the progress rows are out.
proof fn lemma_bare_child(overrides: toml::Toml, agent: Seq<char>)
    requires
        overrides is Table,
        overrides.complete(),
        forall|i: int|
            0 <= i < overrides->entries.len() ==> (
            #[trigger] overrides->entries[i]).1.item is List,
    ensures
        ({
            let all = bare_entries(overrides->entries);
            let table = toml::Toml::Table {
                inline: overrides->inline,
                comma: overrides->comma,
                style: overrides->style,
                entries: all,
            };
            let p = tree::position(all, "devin"@);
            &&& overrides.child(agent) is Missing ==> table.child(agent) is Missing
            &&& !(overrides.child(agent) is Missing) ==> overrides.child(agent) is List
                && table.child(agent) == bare(overrides.child(agent))
            &&& tree::has_key(all, "devin"@) <==> !(overrides.child("devin"@) is Missing)
            &&& tree::has_key(all, "devin"@) ==> 0 <= p < all.len() && all[p].0 == "devin"@
                && table.without("devin"@) == (toml::Toml::Table {
                inline: overrides->inline,
                comma: overrides->comma,
                style: overrides->style,
                entries: all.remove(p),
            })
            &&& table.without("devin"@).child("devin"@) is Missing
            &&& agent != "devin"@ ==> table.without("devin"@).child(agent) == table.child(agent)
        }),
{
    let s = overrides->entries;
    let all = bare_entries(s);
    lemma_bare_position(s, agent);
    lemma_bare_position(s, "devin"@);
    tree::lemma_position(all, "devin"@);
    tree::lemma_position(all, agent);
    let p = tree::position(all, "devin"@);
    let q = tree::position(all, agent);
    if p < all.len() {
        let rest = all.remove(p);
        assert forall|i: int| 0 <= i < rest.len() implies (#[trigger] rest[i]).0 != "devin"@ by {
            let k = if i < p {
                i
            } else {
                i + 1
            };
            assert(rest[i] == all[k]);
            assert(s[k].0 != s[p].0);
        }
        tree::lemma_position_is(rest, "devin"@, rest.len() as int);
        if agent != "devin"@ {
            let found = if q == all.len() {
                rest.len() as int
            } else if q < p {
                q
            } else {
                q - 1
            };
            assert forall|i: int| 0 <= i < found implies (#[trigger] rest[i]).0 != agent by {
                let k = if i < p {
                    i
                } else {
                    i + 1
                };
                assert(rest[i] == all[k]);
            }
            tree::lemma_position_is(rest, agent, found);
        }
    }
}

/// The keys stay where they are.
proof fn lemma_bare_position(s: Seq<(Seq<char>, toml::TomlEntry)>, key: Seq<char>)
    ensures
        tree::position(bare_entries(s), key) == tree::position(s, key),
{
    let all = bare_entries(s);
    let p = tree::position(s, key);
    tree::lemma_position(s, key);
    assert forall|i: int| 0 <= i < p implies (#[trigger] all[i]).0 != key by {
        assert(s[i].0 != key);
    }
    tree::lemma_position_is(all, key, p);
}

/// Whether the configuration `output`, which is `after` written out, is the configuration `input` but for
/// its progress rows. Every agent keeps every row that is no progress row, in order, and so do the rows
/// of every agent; rows of its own are given up for the reporting agent alone, and only where what is left
/// of them, written out, is what is left of the rows of every agent but for white space. Everything else,
/// its order and its layout are what they were, and where there are no agents' rows at all the text itself
/// is.
pub open spec fn only_rows_are_out(input: Seq<char>, output: Seq<char>, after: toml::Toml) -> bool {
    &&& toml::toml_parsed(input) is Ok
    &&& {
        let doc = toml::toml_parsed(input)->Ok_0;
        let ui = doc.root.child("ui"@);
        let bar = ui.child("sidebar"@);
        let agents = bar.child("agents"@);
        let now = after.child("ui"@).child("sidebar"@).child("agents"@);
        let rows = agents.child("rows"@);
        let overrides = agents.child("rows_by_agent"@);
        let left = now.child("rows_by_agent"@);
        let own = overrides.child("devin"@);
        let all = bare_entries(overrides->entries);
        &&& agents is Missing ==> output == input && after == doc.root
        &&& !(agents is Missing) ==> output == toml::toml_text(
            toml::TomlDoc { root: after, trailing: doc.trailing },
        ) && after == doc.root.with("ui"@, ui.with("sidebar"@, bar.with("agents"@, now)))
        &&& forall|key: Seq<char>|
            key != "ui"@ ==> #[trigger] after.child(key) == doc.root.child(key)
        &&& forall|key: Seq<char>|
            key != "rows"@ && key != "rows_by_agent"@ ==> #[trigger] now.child(key)
                == agents.child(key)
        &&& keeps_layout(agents, now)
        &&& agents is Table ==> now->entries.len() == agents->entries.len()
        &&& rows is Missing ==> now.child("rows"@) is Missing
        &&& !(rows is Missing) ==> rows is List && now.child("rows"@) == bare(rows)
        &&& overrides is Missing ==> left is Missing
        &&& !(overrides is Missing) ==> {
            &&& overrides is Table
            &&& left is Table
            &&& left->inline == overrides->inline && left->comma == overrides->comma
                && left->style == overrides->style
            &&& forall|agent: Seq<char>|
                overrides.child(agent) is Missing ==> #[trigger] left.child(agent) is Missing
            &&& forall|agent: Seq<char>|
                agent != "devin"@ && !(overrides.child(agent) is Missing) ==> overrides.child(
                    agent,
                ) is List && #[trigger] left.child(agent) == bare(overrides.child(agent))
            &&& !(own is Missing) ==> own is List
            &&& !(own is Missing) && redundant(now.child("rows"@), bare(own)) ==> left.child(
                "devin"@,
            ) is Missing && exists|i: int|
                0 <= i < all.len() && (#[trigger] all[i]).0 == "devin"@ && left->entries
                    == all.remove(i)
            &&& !(own is Missing) && !redundant(now.child("rows"@), bare(own)) ==> left.child(
                "devin"@,
            ) == bare(own)
            &&& own is Missing || !redundant(now.child("rows"@), bare(own)) ==> left->entries
                == all
        }
    }
}

/// Taking the progress row out of a sidebar configuration takes out nothing else: see
/// [`only_rows_are_out`].
pub proof fn law_taking_row_out(input: Seq<char>, r: Result<String, SidebarError>) -> (after:
    toml::Toml)
    requires
        sidebar::sidebar_result(input, true, r),
        r is Ok,
        toml::toml_parsed(input) matches Ok(doc) ==> doc.root.complete(),
    ensures
        only_rows_are_out(input, r->Ok_0@, after),
{
    let doc = toml::toml_parsed(input)->Ok_0;
    let root = doc.root;
    let ui = root.child("ui"@);
    let bar = ui.child("sidebar"@);
    let agents = bar.child("agents"@);
    toml::lemma_complete_child(root, "ui"@);
    toml::lemma_complete_child(ui, "sidebar"@);
    toml::lemma_complete_child(bar, "agents"@);
    toml::lemma_complete_child(agents, "rows_by_agent"@);
    let rows = agents.child("rows"@);
    let overrides = agents.child("rows_by_agent"@);
    if agents is Missing {
        root
    } else {
        let done = sidebar::edited_agents(agents, true)->Ok_0;
        let after = sidebar::with_agents(root, done);
        let bar_after = bar.with("agents"@, done);
        let ui_after = ui.with("sidebar"@, bar_after);
        toml::lemma_with(bar, "agents"@, done, "agents"@, done);
        toml::lemma_with(ui, "sidebar"@, bar_after, "sidebar"@, done);
        toml::lemma_with(root, "ui"@, ui_after, "ui"@, done);
        assert forall|key: Seq<char>| key != "ui"@ implies #[trigger] after.child(key)
            == root.child(key) by {
            toml::lemma_with(root, "ui"@, ui_after, key, done);
        }
        sidebar::lemma_keys();
        lemma_rows(rows, false);
        let base = sidebar::edited_base(agents, true)->Ok_0;
        let with_base = if base is Missing {
            agents
        } else {
            agents.with("rows"@, base)
        };
        let left = sidebar::edited_overrides(overrides, base, true)->Ok_0;
        lemma_layout(agents, "rows"@, base);
        lemma_layout(with_base, "rows_by_agent"@, left);
        lemma_layout_twice(agents, with_base, with_base.with("rows_by_agent"@, left));
        if !(base is Missing) {
            toml::lemma_with(agents, "rows"@, base, "rows_by_agent"@, base);
        }
        if !(overrides is Missing) {
            toml::lemma_with(with_base, "rows_by_agent"@, left, "rows"@, left);
            lemma_bare_entries(overrides->entries);
            lemma_bare_child(overrides, "devin"@);
            assert forall|agent: Seq<char>| overrides.child(
                agent,
            ) is Missing implies #[trigger] left.child(agent) is Missing by {
                lemma_bare_child(overrides, agent);
            }
            assert forall|agent: Seq<char>|
                agent != "devin"@ && !(overrides.child(agent) is Missing) implies overrides.child(
                agent,
            ) is List && #[trigger] left.child(agent) == bare(overrides.child(agent)) by {
                lemma_bare_child(overrides, agent);
            }
        }
        assert forall|key: Seq<char>|
            key != "rows"@ && key != "rows_by_agent"@ implies #[trigger] done.child(key)
            == agents.child(key) by {
            if !(base is Missing) {
                toml::lemma_with(agents, "rows"@, base, key, base);
            }
            if !(overrides is Missing) {
                toml::lemma_with(with_base, "rows_by_agent"@, left, key, left);
            }
        }
        after
    }
}

// ---------------------------------------------------------------------------
// Adding the row
// ---------------------------------------------------------------------------

/// Each agent with its other rows alone, and behind them the row that shows progress where it is the one
/// that reports; keys and their layout stay.
pub open spec fn dressed_entries(entries: Seq<(Seq<char>, toml::TomlEntry)>) -> Seq<
    (Seq<char>, toml::TomlEntry),
> {
    entries.map_values(
        |e: (Seq<char>, toml::TomlEntry)|
            (
                e.0,
                toml::TomlEntry {
                    key_style: e.1.key_style,
                    item: if e.0 == "devin"@ {
                        dressed(e.1.item)
                    } else {
                        bare(e.1.item)
                    },
                },
            ),
    )
}

/// Adding to each agent's rows.
proof fn lemma_dressed_entries(entries: Seq<(Seq<char>, toml::TomlEntry)>, key: Seq<char>)
    requires
        sidebar::edited_entries(entries, false) is Ok,
    ensures
        sidebar::edited_entries(entries, false)->Ok_0 == dressed_entries(entries),
        forall|i: int| 0 <= i < entries.len() ==> (#[trigger] entries[i]).1.item is List,
        tree::position(dressed_entries(entries), key) == tree::position(entries, key),
{
    sidebar::lemma_edited_entries(entries, false);
    let done = sidebar::edited_entries(entries, false)->Ok_0;
    assert forall|i: int| 0 <= i < entries.len() implies (#[trigger] entries[i]).1.item is List
        && done[i] == dressed_entries(entries)[i] by {
        assert(done[i].0 == entries[i].0);
        lemma_rows(entries[i].1.item, entries[i].0 == "devin"@);
    }
    assert(done =~= dressed_entries(entries));
    let p = tree::position(entries, key);
    tree::lemma_position(entries, key);
    assert forall|i: int| 0 <= i < p implies (#[trigger] done[i]).0 != key by {
        assert(entries[i].0 != key);
    }
    if p < entries.len() {
        assert(done[p].0 == entries[p].0);
    }
    tree::lemma_position_is(done, key, p);
}

/// Adding the progress row makes it the last row of the reporting agent, behind the rows that it had, or
/// else behind those of every agent, or else behind the usual ones, and of no other agent. Every agent
/// keeps every row that is no progress row, in order. Everything else in the configuration, its order and
/// its layout are what they were.
pub proof fn law_adding_row(input: Seq<char>, r: Result<String, SidebarError>) -> (after:
    toml::Toml)
    requires
        sidebar::sidebar_result(input, false, r),
        r is Ok,
        toml::toml_parsed(input) matches Ok(doc) ==> doc.root is Table && doc.root.complete()
            && sidebar::editable(doc.root),
    ensures
        toml::toml_parsed(input) is Ok,
        ({
            let doc = toml::toml_parsed(input)->Ok_0;
            let ui = doc.root.child("ui"@);
            let bar = ui.child("sidebar"@);
            let agents = bar.child("agents"@);
            let now = after.child("ui"@).child("sidebar"@).child("agents"@);
            let rows = agents.child("rows"@);
            let overrides = agents.child("rows_by_agent"@);
            let left = now.child("rows_by_agent"@);
            let own = overrides.child("devin"@);
            &&& r->Ok_0@ == toml::toml_text(
                toml::TomlDoc { root: after, trailing: doc.trailing },
            )
            &&& after == doc.root.with("ui"@, ui.with("sidebar"@, bar.with("agents"@, now)))
            &&& forall|key: Seq<char>|
                key != "ui"@ ==> #[trigger] after.child(key) == doc.root.child(key)
            &&& forall|key: Seq<char>|
                key != "rows"@ && key != "rows_by_agent"@ ==> #[trigger] now.child(key)
                    == agents.child(key)
            &&& keeps_layout(agents, now)
            &&& rows is Missing ==> now.child("rows"@) == bare(usual())
            &&& !(rows is Missing) ==> rows is List && now.child("rows"@) == bare(rows)
            &&& overrides is Missing || overrides is Table
            &&& left is Table
            &&& overrides is Table ==> left->inline == overrides->inline && left->comma
                == overrides->comma && left->style == overrides->style
            &&& forall|agent: Seq<char>|
                agent != "devin"@ && overrides.child(agent) is Missing ==> #[trigger] left.child(
                    agent,
                ) is Missing
            &&& forall|agent: Seq<char>|
                agent != "devin"@ && !(overrides.child(agent) is Missing) ==> overrides.child(
                    agent,
                ) is List && #[trigger] left.child(agent) == bare(overrides.child(agent))
            &&& !(own is Missing) ==> own is List && left.child("devin"@) == dressed(own)
                && left->entries == dressed_entries(overrides->entries)
            &&& own is Missing && !(rows is Missing) ==> left.child("devin"@) == dressed(rows)
            &&& own is Missing && rows is Missing ==> left.child("devin"@) == dressed(usual())
            &&& own is Missing ==> left->entries == dressed_entries(
                if overrides is Table {
                    overrides->entries
                } else {
                    Seq::empty()
                },
            ).push(
                (
                    "devin"@,
                    toml::TomlEntry { key_style: Seq::empty(), item: left.child("devin"@) },
                ),
            )
        }),
{
    let doc = toml::toml_parsed(input)->Ok_0;
    let root = doc.root;
    let ui = root.child("ui"@);
    let bar = ui.child("sidebar"@);
    let agents = bar.child("agents"@);
    toml::lemma_complete_child(root, "ui"@);
    toml::lemma_complete_child(ui, "sidebar"@);
    toml::lemma_complete_child(bar, "agents"@);
    toml::lemma_complete_child(agents, "rows_by_agent"@);
    let rows = agents.child("rows"@);
    let overrides = agents.child("rows_by_agent"@);
    let done = sidebar::edited_agents(agents, false)->Ok_0;
    let after = sidebar::with_agents(root, done);
    let bar_after = bar.with("agents"@, done);
    let ui_after = ui.with("sidebar"@, bar_after);
    toml::lemma_with(bar, "agents"@, done, "agents"@, done);
    toml::lemma_with(ui, "sidebar"@, bar_after, "sidebar"@, done);
    toml::lemma_with(root, "ui"@, ui_after, "ui"@, done);
    assert forall|key: Seq<char>| key != "ui"@ implies #[trigger] after.child(key) == root.child(
        key,
    ) by {
        toml::lemma_with(root, "ui"@, ui_after, key, done);
    }
    sidebar::lemma_keys();
    lemma_rows(rows, false);
    lemma_rows(usual(), false);
    assert(sidebar::default_rows() == usual());
    let base = sidebar::edited_base(agents, false)->Ok_0;
    let with_base = agents.with("rows"@, base);
    let used = sidebar::overrides_of(agents, false);
    let left = sidebar::edited_overrides(used, base, false)->Ok_0;
    lemma_layout(agents, "rows"@, base);
    lemma_layout(with_base, "rows_by_agent"@, left);
    lemma_layout_twice(agents, with_base, with_base.with("rows_by_agent"@, left));
    toml::lemma_with(agents, "rows"@, base, "rows_by_agent"@, base);
    toml::lemma_with(with_base, "rows_by_agent"@, left, "rows"@, left);
    assert forall|key: Seq<char>|
        key != "rows"@ && key != "rows_by_agent"@ implies #[trigger] done.child(key)
        == agents.child(key) by {
        toml::lemma_with(agents, "rows"@, base, key, base);
        toml::lemma_with(with_base, "rows_by_agent"@, left, key, left);
    }
    let s = used->entries;
    let t = dressed_entries(s);
    let table = toml::Toml::Table {
        inline: used->inline,
        comma: used->comma,
        style: used->style,
        entries: t,
    };
    lemma_dressed_entries(s, "devin"@);
    tree::lemma_position(s, "devin"@);
    if rows is List {
        lemma_bare_twice(rows);
    }
    lemma_bare_twice(usual());
    lemma_rows(base, true);
    if overrides is Missing {
        assert(s =~= Seq::empty());
        assert(t =~= Seq::empty());
    }
    if table.child("devin"@) is Missing {
        toml::lemma_with(table, "devin"@, dressed(base), "devin"@, base);
    }
    assert forall|agent: Seq<char>|
        agent != "devin"@ && overrides.child(agent) is Missing implies #[trigger] left.child(
        agent,
    ) is Missing by {
        lemma_dressed_entries(s, agent);
        tree::lemma_position(s, agent);
        toml::lemma_with(table, "devin"@, dressed(base), agent, base);
        if tree::has_key(s, agent) {
            assert(s[tree::position(s, agent)].1.item is List);
        }
    }
    assert forall|agent: Seq<char>|
        agent != "devin"@ && !(overrides.child(agent) is Missing) implies overrides.child(
        agent,
    ) is List && #[trigger] left.child(agent) == bare(overrides.child(agent)) by {
        lemma_dressed_entries(s, agent);
        tree::lemma_position(s, agent);
        toml::lemma_with(table, "devin"@, dressed(base), agent, base);
    }
    after
}

/// Rows can be put into a configuration wherever what stands on the way to them is a table, or nothing,
/// and the last of these is no table in braces that ends in a comma and has no rows by agent.
pub proof fn law_rows_can_be_put_into_tables(root: toml::Toml)
    ensures
        ({
            let ui = root.child("ui"@);
            let bar = ui.child("sidebar"@);
            let agents = bar.child("agents"@);
            let open = (ui is Missing || ui is Table) && (bar is Missing || bar is Table) && (
            agents is Missing || agents is Table);
            let shut = agents is Table && agents->inline && agents->comma && agents.child(
                "rows_by_agent"@,
            ) is Missing;
            &&& open && !shut ==> sidebar::editable(root)
            &&& sidebar::editable(root) ==> open
        }),
{
}

} // verus!
