//! What holds of every edit of the sidebar configuration.
use vstd::prelude::*;

use crate::sidebar;
use crate::sidebar::{SidebarFault, MAX_ROWS};
use crate::text;
use crate::toml;
use crate::tree;

verus! {

// ---------------------------------------------------------------------------
// Rows
// ---------------------------------------------------------------------------

/// How many of `rows` are progress rows.
pub open spec fn progress_count(rows: Seq<toml::TomlRow>) -> nat {
    rows.filter(|row: toml::TomlRow| sidebar::progress(row.text)).len()
}

/// Rows without a progress row are all kept.
proof fn lemma_kept_all(rows: Seq<toml::TomlRow>)
    requires
        forall|i: int| 0 <= i < rows.len() ==> !sidebar::progress((#[trigger] rows[i]).text),
    ensures
        sidebar::kept(rows) == rows,
        progress_count(rows) == 0,
    decreases rows.len(),
{
    reveal(Seq::filter);
    if rows.len() > 0 {
        assert forall|i: int| 0 <= i < rows.drop_last().len() implies !sidebar::progress(
            (#[trigger] rows.drop_last()[i]).text,
        ) by {
            assert(rows.drop_last()[i] == rows[i]);
        }
        lemma_kept_all(rows.drop_last());
        assert(rows.drop_last().push(rows.last()) =~= rows);
    }
}

/// No progress row is kept, and where there is one, fewer rows are kept.
proof fn lemma_kept(rows: Seq<toml::TomlRow>)
    ensures
        forall|i: int|
            0 <= i < sidebar::kept(rows).len() ==> !sidebar::progress(
                (#[trigger] sidebar::kept(rows)[i]).text,
            ),
        sidebar::kept(rows).len() <= rows.len(),
        (exists|i: int| 0 <= i < rows.len() && sidebar::progress((#[trigger] rows[i]).text))
            ==> sidebar::kept(rows).len() < rows.len(),
    decreases rows.len(),
{
    reveal(Seq::filter);
    if rows.len() > 0 {
        let front = rows.drop_last();
        lemma_kept(front);
        if exists|i: int| 0 <= i < rows.len() && sidebar::progress((#[trigger] rows[i]).text) {
            let i = choose|i: int|
                0 <= i < rows.len() && sidebar::progress((#[trigger] rows[i]).text);
            if i < front.len() {
                assert(front[i] == rows[i]);
            }
        }
    }
}

/// An added progress row is the only one, and the one row that is not kept.
proof fn lemma_kept_push(rows: Seq<toml::TomlRow>)
    requires
        forall|i: int| 0 <= i < rows.len() ==> !sidebar::progress((#[trigger] rows[i]).text),
    ensures
        sidebar::kept(rows.push(toml::plain_row(sidebar::progress_text()))) == rows,
        progress_count(rows.push(toml::plain_row(sidebar::progress_text()))) == 1,
{
    reveal(Seq::filter);
    lemma_kept_all(rows);
    let more = rows.push(toml::plain_row(sidebar::progress_text()));
    assert(more.drop_last() =~= rows);
    assert(sidebar::progress(more.last().text));
}

/// Editing rows once more changes nothing, adding to rows and taking out again gives the rows back,
/// and so on: what two edits of the same rows do.
proof fn lemma_rows_twice(item: toml::Toml, first: bool, second: bool)
    requires
        sidebar::edited_rows(item, first) is Ok,
    ensures
        ({
            let once = sidebar::edited_rows(item, first)->Ok_0;
            &&& once is List
            &&& sidebar::edited_rows(once, second) == sidebar::edited_rows(item, second)
            &&& !first ==> sidebar::plain_rows(once)
            &&& first ==> once->rows.len() <= MAX_ROWS && progress_count(once->rows) == 1
                && once->rows.last() == toml::plain_row(sidebar::progress_text())
            &&& sidebar::plain_rows(item) && !first ==> once == item
        }),
{
    let rows = item->rows;
    let rest = sidebar::kept(rows);
    lemma_kept(rows);
    lemma_kept_all(rest);
    lemma_kept_push(rest);
    if sidebar::plain_rows(item) {
        lemma_kept_all(rows);
    }
}

/// Adding the progress row makes it the last row and the only progress row, and keeps to the number
/// of rows that the sidebar can show.
pub proof fn law_added_row_is_last_and_only(item: toml::Toml)
    requires
        sidebar::edited_rows(item, true) is Ok,
    ensures
        ({
            let rows = sidebar::edited_rows(item, true)->Ok_0->rows;
            &&& rows.last() == toml::plain_row(sidebar::progress_text())
            &&& progress_count(rows) == 1
            &&& rows.len() <= MAX_ROWS
        }),
{
    lemma_rows_twice(item, true, true);
}

/// A progress row, of either form, makes room for the one that replaces it: rows that are all in use
/// can be edited where one of them is a progress row and no other row names progress.
pub proof fn law_old_row_makes_room(item: toml::Toml)
    requires
        item is List,
        item->rows.len() <= MAX_ROWS,
        exists|i: int| 0 <= i < item->rows.len() && sidebar::progress((#[trigger] item->rows[i]).text),
        forall|i: int|
            0 <= i < item->rows.len() ==> sidebar::progress((#[trigger] item->rows[i]).text)
                || !sidebar::names_progress(item->rows[i].text),
    ensures
        sidebar::edited_rows(item, true) is Ok,
{
    let rows = item->rows;
    let rest = sidebar::kept(rows);
    lemma_kept(rows);
    lemma_kept_from(rows);
    let texts = sidebar::row_views(rest);
    assert forall|i: int| 0 <= i < texts.len() implies !sidebar::names_progress(
        #[trigger] texts[i],
    ) by {
        assert(texts[i] == rest[i].text);
        assert(rows.contains(rest[i]));
        let k = choose|k: int| 0 <= k < rows.len() && rows[k] == rest[i];
        assert(sidebar::progress(rows[k].text) || !sidebar::names_progress(rows[k].text));
    }
}

/// Every row that is kept was there.
proof fn lemma_kept_from(rows: Seq<toml::TomlRow>)
    ensures
        forall|i: int|
            0 <= i < sidebar::kept(rows).len() ==> rows.contains(#[trigger] sidebar::kept(rows)[i]),
    decreases rows.len(),
{
    reveal(Seq::filter);
    if rows.len() > 0 {
        let front = rows.drop_last();
        lemma_kept_from(front);
        assert forall|i: int| 0 <= i < sidebar::kept(rows).len() implies rows.contains(
            #[trigger] sidebar::kept(rows)[i],
        ) by {
            if i < sidebar::kept(front).len() {
                assert(front.contains(sidebar::kept(front)[i]));
                let k = choose|k: int| 0 <= k < front.len() && front[k] == sidebar::kept(front)[i];
                assert(rows[k] == sidebar::kept(rows)[i]);
            } else {
                assert(rows[rows.len() - 1] == sidebar::kept(rows)[i]);
            }
        }
    }
}

// ---------------------------------------------------------------------------
// The rows by agent
// ---------------------------------------------------------------------------

/// The entries whose rows are `done`, edited one by one.
proof fn lemma_entries_are(
    entries: Seq<(Seq<char>, toml::TomlEntry)>,
    done: Seq<(Seq<char>, toml::TomlEntry)>,
    remove: bool,
)
    requires
        done.len() == entries.len(),
        forall|i: int|
            #![trigger done[i]]
            0 <= i < done.len() ==> {
                &&& done[i].0 == entries[i].0
                &&& done[i].1.key_style == entries[i].1.key_style
                &&& sidebar::edited_rows(
                    entries[i].1.item,
                    !remove && entries[i].0 == "devin"@,
                ) == Ok::<toml::Toml, SidebarFault>(done[i].1.item)
            },
    ensures
        sidebar::edited_entries(entries, remove) == Ok::<
            Seq<(Seq<char>, toml::TomlEntry)>,
            SidebarFault,
        >(done),
    decreases entries.len(),
{
    if entries.len() > 0 {
        let n = entries.len() - 1;
        assert forall|i: int|
            #![trigger done.drop_last()[i]]
            0 <= i < done.drop_last().len() implies {
                &&& done.drop_last()[i].0 == entries.drop_last()[i].0
                &&& done.drop_last()[i].1.key_style == entries.drop_last()[i].1.key_style
                &&& sidebar::edited_rows(
                    entries.drop_last()[i].1.item,
                    !remove && entries.drop_last()[i].0 == "devin"@,
                ) == Ok::<toml::Toml, SidebarFault>(done.drop_last()[i].1.item)
            } by {
            assert(done.drop_last()[i] == done[i]);
            assert(entries.drop_last()[i] == entries[i]);
        }
        lemma_entries_are(entries.drop_last(), done.drop_last(), remove);
        assert(done[n] == done.last());
        assert(done.drop_last().push(done.last()) =~= done);
    } else {
        assert(done =~= entries);
    }
}

/// Keys that agree are found at the same place.
proof fn lemma_same_position(
    a: Seq<(Seq<char>, toml::TomlEntry)>,
    b: Seq<(Seq<char>, toml::TomlEntry)>,
    key: Seq<char>,
)
    requires
        a.len() == b.len(),
        forall|i: int| #![trigger a[i]] #![trigger b[i]] 0 <= i < a.len() ==> a[i].0 == b[i].0,
    ensures
        tree::position(a, key) == tree::position(b, key),
{
    tree::lemma_position(a, key);
    tree::lemma_position_is(b, key, tree::position(a, key));
}

/// Adding twice to the rows by agent does what adding once does.
proof fn lemma_overrides_add_twice(item: toml::Toml, base: toml::Toml)
    requires
        item.complete(),
        sidebar::plain_rows(base),
        sidebar::edited_overrides(item, base, false) is Ok,
    ensures
        ({
            let once = sidebar::edited_overrides(item, base, false)->Ok_0;
            &&& once is Table
            &&& sidebar::edited_overrides(once, base, false) == Ok::<toml::Toml, SidebarFault>(once)
        }),
{
    let entries = item->entries;
    let done = sidebar::edited_entries(entries, false)->Ok_0;
    let once = sidebar::edited_overrides(item, base, false)->Ok_0;
    let after = once->entries;
    sidebar::lemma_edited_entries(entries, false);
    tree::lemma_position(done, "devin"@);
    tree::lemma_position(after, "devin"@);
    let table = toml::Toml::Table {
        inline: item->inline,
        comma: item->comma,
        style: item->style,
        entries: done,
    };
    if table.child("devin"@) is Missing {
        if tree::has_key(done, "devin"@) {
            let p = tree::position(done, "devin"@);
            lemma_rows_twice(entries[p].1.item, true, true);
            assert(done[p].1.item is List);
        }
        lemma_rows_twice(base, true, true);
        assert(after =~= done.push(after.last()));
        assert(after.last().0 == "devin"@);
        tree::lemma_position_is(after, "devin"@, done.len() as int);
    }
    assert forall|i: int|
        #![trigger after[i]]
        0 <= i < after.len() implies sidebar::edited_rows(
        after[i].1.item,
        !false && after[i].0 == "devin"@,
    ) == Ok::<toml::Toml, SidebarFault>(after[i].1.item) by {
        if i < done.len() {
            assert(after[i] == done[i]);
            let add = entries[i].0 == "devin"@;
            lemma_rows_twice(entries[i].1.item, add, add);
        }
    }
    lemma_entries_are(after, after, false);
    if tree::has_key(after, "devin"@) {
        let p = tree::position(after, "devin"@);
        if p < done.len() {
            lemma_rows_twice(entries[p].1.item, true, true);
            assert(after[p] == done[p]);
        }
        assert(after[p].1.item is List);
    }
}

/// Taking out of the rows by agent twice does what doing it once does, and leaves no progress row.
proof fn lemma_overrides_remove_twice(item: toml::Toml, base: toml::Toml)
    requires
        item.complete(),
        sidebar::edited_overrides(item, base, true) is Ok,
    ensures
        ({
            let once = sidebar::edited_overrides(item, base, true)->Ok_0;
            &&& once is Table
            &&& forall|i: int|
                0 <= i < once->entries.len() ==> sidebar::plain_rows((#[trigger] once->entries[i]).1.item)
            &&& sidebar::edited_overrides(once, base, true) == Ok::<toml::Toml, SidebarFault>(once)
        }),
{
    let entries = item->entries;
    let done = sidebar::edited_entries(entries, true)->Ok_0;
    let once = sidebar::edited_overrides(item, base, true)->Ok_0;
    let after = once->entries;
    sidebar::lemma_edited_entries(entries, true);
    assert forall|i: int| 0 <= i < done.len() implies sidebar::plain_rows((#[trigger] done[i]).1.item) by {
        lemma_rows_twice(entries[i].1.item, false, false);
    }
    tree::lemma_position(done, "devin"@);
    let p = tree::position(done, "devin"@);
    let dropped = after.len() < done.len();
    assert forall|i: int| 0 <= i < after.len() implies sidebar::plain_rows((#[trigger] after[i]).1.item)
        && (dropped ==> after[i].0 != "devin"@) by {
        let k = if dropped && i >= p {
            i + 1
        } else {
            i
        };
        assert(after[i] == done[k]);
        if dropped {
            assert(done[k].0 == entries[k].0);
            assert(done[p].0 == entries[p].0);
        }
    }
    assert forall|i: int|
        #![trigger after[i]]
        0 <= i < after.len() implies sidebar::edited_rows(after[i].1.item, false) == Ok::<
        toml::Toml,
        SidebarFault,
    >(after[i].1.item) by {
        lemma_rows_twice(after[i].1.item, false, false);
    }
    lemma_entries_are(after, after, true);
    if dropped {
        tree::lemma_position(after, "devin"@);
    } else {
        assert(after =~= done);
    }
}

// ---------------------------------------------------------------------------
// The table of the agents' sidebar
// ---------------------------------------------------------------------------

/// What the edited table holds behind its two keys.
proof fn lemma_agents(agents: toml::Toml, remove: bool)
    requires
        agents.complete(),
        remove || agents.is_open(),
        sidebar::edited_agents(agents, remove) is Ok,
    ensures
        ({
            let after = sidebar::edited_agents(agents, remove)->Ok_0;
            let base = sidebar::edited_base(agents, remove)->Ok_0;
            let overrides = sidebar::overrides_of(agents, remove);
            &&& sidebar::edited_base(agents, remove) is Ok
            &&& base is Missing || sidebar::plain_rows(base)
            &&& !remove ==> !(base is Missing) && !(overrides is Missing)
            &&& after.child("rows"@) == base
            &&& overrides.complete()
            &&& overrides is Missing ==> after.child("rows_by_agent"@) is Missing
            &&& !(overrides is Missing) ==> sidebar::edited_overrides(overrides, base, remove)
                == Ok::<toml::Toml, SidebarFault>(after.child("rows_by_agent"@))
        }),
{
    let base = sidebar::edited_base(agents, remove)->Ok_0;
    let overrides = sidebar::overrides_of(agents, remove);
    let done = sidebar::edited_overrides(overrides, base, remove)->Ok_0;
    sidebar::lemma_keys();
    toml::lemma_complete_child(agents, "rows_by_agent"@);
    if !(agents.child("rows"@) is Missing) {
        lemma_rows_twice(agents.child("rows"@), false, false);
    } else if !remove {
        lemma_rows_twice(sidebar::default_rows(), false, false);
    }
    let with_base = if base is Missing {
        agents
    } else {
        agents.with("rows"@, base)
    };
    if !(base is Missing) {
        toml::lemma_with(agents, "rows"@, base, "rows_by_agent"@, base);
    }
    if !(overrides is Missing) {
        toml::lemma_with(with_base, "rows_by_agent"@, done, "rows"@, done);
    }
}

/// Adding the progress row a second time changes nothing.
pub proof fn law_add_is_idempotent(agents: toml::Toml)
    requires
        agents.complete(),
        agents.is_open(),
        sidebar::edited_agents(agents, false) is Ok,
    ensures
        ({
            let once = sidebar::edited_agents(agents, false)->Ok_0;
            sidebar::edited_agents(once, false) == Ok::<toml::Toml, SidebarFault>(once)
        }),
{
    let once = sidebar::edited_agents(agents, false)->Ok_0;
    let base = sidebar::edited_base(agents, false)->Ok_0;
    let overrides = sidebar::overrides_of(agents, false);
    lemma_agents(agents, false);
    lemma_overrides_add_twice(overrides, base);
    lemma_rows_twice(base, false, false);
    toml::lemma_with_same(once, "rows"@);
    toml::lemma_with_same(once, "rows_by_agent"@);
}

/// Taking the progress row out a second time changes nothing.
pub proof fn law_remove_is_idempotent(agents: toml::Toml)
    requires
        agents.complete(),
        sidebar::edited_agents(agents, true) is Ok,
    ensures
        ({
            let once = sidebar::edited_agents(agents, true)->Ok_0;
            sidebar::edited_agents(once, true) == Ok::<toml::Toml, SidebarFault>(once)
        }),
{
    let once = sidebar::edited_agents(agents, true)->Ok_0;
    let base = sidebar::edited_base(agents, true)->Ok_0;
    let overrides = sidebar::overrides_of(agents, true);
    lemma_agents(agents, true);
    if !(base is Missing) {
        lemma_rows_twice(base, false, false);
        toml::lemma_with_same(once, "rows"@);
    }
    if !(overrides is Missing) {
        lemma_overrides_remove_twice(overrides, base);
        toml::lemma_with_same(once, "rows_by_agent"@);
    }
}

/// Taking the progress row out leaves none: neither among the rows of every agent nor among those of
/// one.
pub proof fn law_remove_leaves_no_progress_row(agents: toml::Toml, agent: Seq<char>)
    requires
        agents.complete(),
        sidebar::edited_agents(agents, true) is Ok,
    ensures
        ({
            let after = sidebar::edited_agents(agents, true)->Ok_0;
            let rows = after.child("rows"@);
            let own = after.child("rows_by_agent"@).child(agent);
            &&& rows is Missing || sidebar::plain_rows(rows)
            &&& own is Missing || sidebar::plain_rows(own)
        }),
{
    let after = sidebar::edited_agents(agents, true)->Ok_0;
    lemma_agents(agents, true);
    if !(sidebar::overrides_of(agents, true) is Missing) {
        lemma_overrides_remove_twice(
            sidebar::overrides_of(agents, true),
            sidebar::edited_base(agents, true)->Ok_0,
        );
        let overrides = after.child("rows_by_agent"@);
        tree::lemma_position(overrides->entries, agent);
        if tree::has_key(overrides->entries, agent) {
            assert(sidebar::plain_rows(
                overrides->entries[tree::position(overrides->entries, agent)].1.item,
            ));
        }
    }
}

/// Taking the progress row out undoes adding it, where rows and rows by agent were configured,
/// without a progress row, and the agent that reports had no rows of its own or rows that differ
/// from those of every agent.
pub proof fn law_remove_undoes_add(agents: toml::Toml)
    requires
        agents.complete(),
        sidebar::plain_rows(agents.child("rows"@)),
        agents.child("rows_by_agent"@) is Table,
        forall|i: int|
            0 <= i < agents.child("rows_by_agent"@)->entries.len() ==> sidebar::plain_rows(
                (#[trigger] agents.child("rows_by_agent"@)->entries[i]).1.item,
            ),
        !sidebar::same_rows(
            agents.child("rows"@),
            agents.child("rows_by_agent"@).child("devin"@),
        ),
        sidebar::edited_agents(agents, false) is Ok,
    ensures
        sidebar::edited_agents(sidebar::edited_agents(agents, false)->Ok_0, true) == Ok::<
            toml::Toml,
            SidebarFault,
        >(agents),
{
    let added = sidebar::edited_agents(agents, false)->Ok_0;
    let base = agents.child("rows"@);
    let overrides = agents.child("rows_by_agent"@);
    let entries = overrides->entries;
    let during = added.child("rows_by_agent"@)->entries;
    sidebar::lemma_keys();
    lemma_agents(agents, false);
    lemma_rows_twice(base, false, false);
    assert(sidebar::edited_base(agents, false) == Ok::<toml::Toml, SidebarFault>(base));
    sidebar::lemma_edited_entries(entries, false);
    let done = sidebar::edited_entries(entries, false)->Ok_0;
    assert forall|i: int|
        #![trigger entries[i]]
        0 <= i < entries.len() implies sidebar::edited_rows(done[i].1.item, false) == Ok::<
        toml::Toml,
        SidebarFault,
    >(entries[i].1.item) by {
        let add = entries[i].0 == "devin"@;
        assert(done[i].0 == entries[i].0);
        lemma_rows_twice(entries[i].1.item, add, false);
        lemma_rows_twice(entries[i].1.item, false, false);
    }
    tree::lemma_position(entries, "devin"@);
    tree::lemma_position(done, "devin"@);
    lemma_same_position(entries, done, "devin"@);
    let p = tree::position(entries, "devin"@);
    let table = toml::Toml::Table {
        inline: overrides->inline,
        comma: overrides->comma,
        style: overrides->style,
        entries: done,
    };
    if p < entries.len() {
        assert(done[p].1.item is List) by {
            lemma_rows_twice(entries[p].1.item, true, false);
        }
        assert(during == done);
        lemma_entries_are(during, entries, true);
    } else {
        assert(table.child("devin"@) is Missing);
        assert(during =~= done.push(during.last()));
        lemma_rows_twice(base, true, false);
        let back = entries.push(
            ("devin"@, toml::TomlEntry { key_style: Seq::empty(), item: base }),
        );
        assert forall|i: int|
            #![trigger back[i]]
            0 <= i < back.len() implies {
                &&& back[i].0 == during[i].0
                &&& back[i].1.key_style == during[i].1.key_style
                &&& sidebar::edited_rows(during[i].1.item, false) == Ok::<toml::Toml, SidebarFault>(
                    back[i].1.item,
                )
            } by {
            if i < entries.len() {
                assert(back[i] == entries[i]);
                assert(during[i] == done[i]);
            }
        }
        lemma_entries_are(during, back, true);
        tree::lemma_position_is(back, "devin"@, entries.len() as int);
        assert(back.remove(entries.len() as int) =~= entries);
    }
    assert(sidebar::edited_overrides(added.child("rows_by_agent"@), base, true) == Ok::<
        toml::Toml,
        SidebarFault,
    >(overrides));
    // Both keys hold again what they held.
    let bare = agents.with("rows"@, base);
    toml::lemma_with_same(agents, "rows"@);
    toml::lemma_with(agents, "rows_by_agent"@, added.child("rows_by_agent"@), "rows"@, overrides);
    toml::lemma_with_same(agents, "rows_by_agent"@);
    toml::lemma_with_same(added, "rows"@);
}

/// An edit keeps every row that is no progress row, of every agent, as it was and in its order; the
/// rows of an agent that does not report change in nothing else.
pub proof fn law_other_rows_stay(agents: toml::Toml, remove: bool, agent: Seq<char>)
    requires
        agents.complete(),
        remove || agents.is_open(),
        sidebar::edited_agents(agents, remove) is Ok,
        agents.child("rows_by_agent"@).child(agent) is List,
        agent != "devin"@,
    ensures
        ({
            let before = agents.child("rows_by_agent"@).child(agent);
            let after = sidebar::edited_agents(agents, remove)->Ok_0.child("rows_by_agent"@).child(
                agent,
            );
            after == (toml::Toml::List { frame: before->frame, rows: sidebar::kept(before->rows) })
        }),
{
    let overrides = agents.child("rows_by_agent"@);
    let base = sidebar::edited_base(agents, remove)->Ok_0;
    let entries = overrides->entries;
    lemma_agents(agents, remove);
    sidebar::lemma_edited_entries(entries, remove);
    let done = sidebar::edited_entries(entries, remove)->Ok_0;
    lemma_same_position(entries, done, agent);
    tree::lemma_position(entries, agent);
    tree::lemma_position(done, agent);
    tree::lemma_position(done, "devin"@);
    let p = tree::position(done, agent);
    assert(done[p].0 == agent);
    let table = toml::Toml::Table {
        inline: overrides->inline,
        comma: overrides->comma,
        style: overrides->style,
        entries: done,
    };
    let after = sidebar::edited_overrides(overrides, base, remove)->Ok_0;
    if after->entries.len() > done.len() {
        toml::lemma_with(table, "devin"@, after.child("devin"@), agent, table);
        assert(after->entries =~= done.push(after->entries.last()));
        tree::lemma_position_is(after->entries, agent, p);
    } else if after->entries.len() < done.len() {
        let d = tree::position(done, "devin"@);
        let q = if d < p {
            p - 1
        } else {
            p
        };
        let rest = after->entries;
        assert forall|i: int| 0 <= i < q implies (#[trigger] rest[i]).0 != agent by {
            let k = if i < d {
                i
            } else {
                i + 1
            };
            assert(rest[i] == done[k]);
        }
        assert(rest[q] == done[p]);
        tree::lemma_position_is(rest, agent, q);
    }
}

/// An edit reaches nothing but the table of the agents' sidebar, and of that only the rows and the
/// rows by agent: every other key, at every level, holds what it held.
pub proof fn law_edit_is_local(root: toml::Toml, remove: bool, key: Seq<char>)
    requires
        root is Table,
        root.complete(),
        remove || sidebar::editable(root),
        !remove || !(sidebar::agents_of(root) is Missing),
        sidebar::edited_agents(sidebar::agents_of(root), remove) is Ok,
    ensures
        ({
            let agents = sidebar::edited_agents(sidebar::agents_of(root), remove)->Ok_0;
            let after = sidebar::with_agents(root, agents);
            let ui = root.child("ui"@);
            &&& sidebar::agents_of(after) == agents
            &&& key != "ui"@ ==> after.child(key) == root.child(key)
            &&& key != "sidebar"@ ==> after.child("ui"@).child(key) == ui.child(key)
            &&& key != "agents"@ ==> after.child("ui"@).child("sidebar"@).child(key) == ui.child(
                "sidebar"@,
            ).child(key)
            &&& key != "rows"@ && key != "rows_by_agent"@ ==> agents.child(key)
                == sidebar::agents_of(root).child(key)
        }),
{
    let before = sidebar::agents_of(root);
    let agents = sidebar::edited_agents(before, remove)->Ok_0;
    let ui = root.child("ui"@);
    let bar = ui.child("sidebar"@);
    toml::lemma_with(bar, "agents"@, agents, key, bar);
    toml::lemma_with(ui, "sidebar"@, bar.with("agents"@, agents), key, ui);
    toml::lemma_with(root, "ui"@, ui.with("sidebar"@, bar.with("agents"@, agents)), key, root);
    toml::lemma_complete_child(root, "ui"@);
    toml::lemma_complete_child(ui, "sidebar"@);
    toml::lemma_complete_child(bar, "agents"@);
    lemma_agents(before, remove);
    let base = sidebar::edited_base(before, remove)->Ok_0;
    let overrides = sidebar::overrides_of(before, remove);
    let with_base = if base is Missing {
        before
    } else {
        before.with("rows"@, base)
    };
    if !(base is Missing) {
        toml::lemma_with(before, "rows"@, base, key, base);
    }
    if !(overrides is Missing) {
        let done = sidebar::edited_overrides(overrides, base, remove)->Ok_0;
        toml::lemma_with(with_base, "rows_by_agent"@, done, key, done);
    }
}

// ---------------------------------------------------------------------------
// Texts that come back as they are
// ---------------------------------------------------------------------------

/// Rows in which the progress row stands already are written as before when it is added again.
proof fn lemma_settled_own(item: toml::Toml)
    requires
        sidebar::settled_own(item),
    ensures
        sidebar::edited_rows(item, true) is Ok,
        toml::alike(item, sidebar::edited_rows(item, true)->Ok_0),
{
    let rows = item->rows;
    let rest = rows.drop_last();
    lemma_kept_all(rest);
    reveal(Seq::filter);
    assert(sidebar::kept(rows) == rest);
    let after = rest.push(toml::plain_row(sidebar::progress_text()));
    assert forall|i: int| 0 <= i < rows.len() implies toml::in_place(#[trigger] rows[i], i)
        == toml::in_place(after[i], i) by {
        if i < rest.len() {
            assert(rest[i] == rows[i]);
        }
    }
}

/// What an edit makes of entries that are settled.
proof fn lemma_settled_entries(entries: Seq<(Seq<char>, toml::TomlEntry)>, remove: bool)
    requires
        forall|i: int|
            0 <= i < entries.len() ==> sidebar::settled_entry(#[trigger] entries[i], remove),
    ensures
        sidebar::edited_entries(entries, remove) is Ok,
        ({
            let done = sidebar::edited_entries(entries, remove)->Ok_0;
            &&& done.len() == entries.len()
            &&& forall|i: int|
                0 <= i < entries.len() ==> {
                    &&& (#[trigger] entries[i]).0 == done[i].0
                    &&& entries[i].1.key_style == done[i].1.key_style
                    &&& toml::alike(entries[i].1.item, done[i].1.item)
                    &&& done[i].1.item is List
                }
            &&& remove ==> done == entries
        }),
{
    let done = Seq::new(
        entries.len(),
        |i: int|
            (
                entries[i].0,
                toml::TomlEntry {
                    key_style: entries[i].1.key_style,
                    item: sidebar::edited_rows(
                        entries[i].1.item,
                        !remove && entries[i].0 == "devin"@,
                    )->Ok_0,
                },
            ),
    );
    assert forall|i: int| #![trigger done[i]] #![trigger entries[i]]
        0 <= i < entries.len() implies {
        let add = !remove && entries[i].0 == "devin"@;
        &&& sidebar::edited_rows(entries[i].1.item, add) == Ok::<toml::Toml, SidebarFault>(
            done[i].1.item,
        )
        &&& done[i].1.item is List
        &&& toml::alike(entries[i].1.item, done[i].1.item)
        &&& remove ==> done[i] == entries[i]
    } by {
        assert(sidebar::settled_entry(entries[i], remove));
        let item = entries[i].1.item;
        let add = !remove && entries[i].0 == "devin"@;
        if add {
            lemma_settled_own(item);
        } else {
            lemma_rows_twice(item, false, false);
            toml::lemma_alike_self(item);
        }
    }
    lemma_entries_are(entries, done, remove);
    if remove {
        assert(done =~= entries);
    }
}

/// A table of the agents' sidebar that is settled is written as before when it is edited.
pub proof fn lemma_settled(agents: toml::Toml, remove: bool)
    requires
        sidebar::settled(agents, remove),
    ensures
        sidebar::edited_agents(agents, remove) is Ok,
        toml::alike(agents, sidebar::edited_agents(agents, remove)->Ok_0),
{
    let base = agents.child("rows"@);
    let overrides = agents.child("rows_by_agent"@);
    sidebar::lemma_keys();
    if !(base is Missing) {
        lemma_rows_twice(base, false, false);
        toml::lemma_with_same(agents, "rows"@);
    }
    if !(overrides is Missing) {
        let entries = overrides->entries;
        lemma_settled_entries(entries, remove);
        let done = sidebar::edited_entries(entries, remove)->Ok_0;
        let table = toml::Toml::Table {
            inline: overrides->inline,
            comma: overrides->comma,
            style: overrides->style,
            entries: done,
        };
        lemma_same_position(entries, done, "devin"@);
        tree::lemma_position(entries, "devin"@);
        tree::lemma_position(done, "devin"@);
        if tree::has_key(entries, "devin"@) {
            assert(entries[tree::position(entries, "devin"@)].0 == "devin"@);
        }
        assert(sidebar::edited_overrides(overrides, base, remove) == Ok::<toml::Toml, SidebarFault>(
            table,
        ));
        toml::lemma_alike_with(agents, "rows_by_agent"@, table);
    } else {
        toml::lemma_alike_self(agents);
    }
}

/// An edit leaves the table of the agents' sidebar settled.
pub proof fn law_edited_rows_are_settled(agents: toml::Toml, remove: bool)
    requires
        agents.complete(),
        remove || agents.is_open(),
        sidebar::edited_agents(agents, remove) is Ok,
    ensures
        sidebar::settled(sidebar::edited_agents(agents, remove)->Ok_0, remove),
{
    let after = sidebar::edited_agents(agents, remove)->Ok_0;
    let base = sidebar::edited_base(agents, remove)->Ok_0;
    let overrides = sidebar::overrides_of(agents, remove);
    lemma_agents(agents, remove);
    if !(overrides is Missing) {
        let done = sidebar::edited_entries(overrides->entries, remove)->Ok_0;
        let entries = after.child("rows_by_agent"@)->entries;
        assert(sidebar::edited_entries(overrides->entries, remove) is Ok);
        sidebar::lemma_edited_entries(overrides->entries, remove);
        tree::lemma_position(done, "devin"@);
        let p = tree::position(done, "devin"@);
        assert forall|i: int| 0 <= i < done.len() implies sidebar::settled_entry(
            #[trigger] done[i],
            remove,
        ) by {
            let item = overrides->entries[i].1.item;
            let add = !remove && overrides->entries[i].0 == "devin"@;
            assert(sidebar::edited_rows(item, add) == Ok::<toml::Toml, SidebarFault>(
                done[i].1.item,
            ));
            lemma_edited_own(item, add);
        }
        if !remove {
            tree::lemma_position(entries, "devin"@);
            if p == done.len() {
                lemma_edited_own(base, true);
                assert(entries =~= done.push(entries.last()));
                assert(entries[done.len() as int].0 == "devin"@);
            } else {
                assert(sidebar::settled_entry(done[p], remove));
                assert(entries == done);
            }
        } else if entries.len() < done.len() {
            assert forall|i: int| 0 <= i < entries.len() implies sidebar::settled_entry(
                #[trigger] entries[i],
                remove,
            ) && entries[i].0 != "devin"@ by {
                let k = if i < p {
                    i
                } else {
                    i + 1
                };
                assert(entries[i] == done[k]);
                assert(done[k].0 == overrides->entries[k].0);
                assert(done[p].0 == overrides->entries[p].0);
            }
            tree::lemma_position(entries, "devin"@);
        } else {
            assert(entries =~= done);
        }
    }
}

/// Rows after an edit: without a progress row, or with it at their end.
proof fn lemma_edited_own(item: toml::Toml, add: bool)
    requires
        sidebar::edited_rows(item, add) is Ok,
    ensures
        !add ==> sidebar::plain_rows(sidebar::edited_rows(item, add)->Ok_0),
        add ==> sidebar::settled_own(sidebar::edited_rows(item, add)->Ok_0),
{
    lemma_rows_twice(item, add, add);
    if add {
        let rest = sidebar::kept(item->rows);
        lemma_kept(item->rows);
        let rows = sidebar::edited_rows(item, add)->Ok_0->rows;
        assert(rows.drop_last() =~= rest);
    }
}

/// Whether `b` is what is read of the array `a` that was written: the same elements, each with the white
/// space before it that it was written with.
pub open spec fn read_back(a: toml::Toml, b: toml::Toml) -> bool {
    match (a, b) {
        (toml::Toml::Missing, toml::Toml::Missing) => true,
        (
            toml::Toml::List { frame, rows },
            toml::Toml::List { frame: frame2, rows: rows2 },
        ) => {
            &&& rows2.len() == rows.len()
            &&& forall|i: int|
                0 <= i < rows.len() ==> !(#[trigger] rows2[i]).bare && rows2[i].text
                    == toml::in_place(rows[i], i)
            &&& text::squash(toml::list_text(frame2, rows2)) == text::squash(
                toml::list_text(frame, rows),
            )
        },
        _ => false,
    }
}

/// Whether `b` is what is read of the table `a` of the agents' sidebar that was written: the same rows,
/// for every agent and by agent.
pub open spec fn rows_read_back(a: toml::Toml, b: toml::Toml) -> bool {
    let x = a.child("rows_by_agent"@);
    let y = b.child("rows_by_agent"@);
    &&& read_back(a.child("rows"@), b.child("rows"@))
    &&& (x is Missing && y is Missing) || (x is Table && y is Table && forall|agent: Seq<char>|
        read_back(#[trigger] x.child(agent), y.child(agent)))
}

/// A blank before a text changes nothing of what it shows of progress.
proof fn lemma_blank_before(t: Seq<char>)
    ensures
        sidebar::progress(seq![' '] + t) == sidebar::progress(t),
        sidebar::names_progress(seq![' '] + t) == sidebar::names_progress(t),
{
    let s = seq![' '] + t;
    reveal_with_fuel(Seq::filter, 3);
    let wanted = |c: char| !text::white(c);
    Seq::filter_distributes_over_add(seq![' '], t, wanted);
    assert(seq![' '].drop_last() =~= Seq::empty());
    assert(seq![' '].filter(wanted) =~= Seq::empty());
    assert(text::squash(s) =~= text::squash(t));
    reveal_strlit("$agent_progress_");
    let part = "$agent_progress_"@;
    if text::occurs(s, part) {
        let i = choose|i: int| text::occurs_at(s, part, i);
        assert(s[i] == part[0]) by {
            assert(s.subrange(i, i + part.len())[0] == s[i]);
        }
        assert(i > 0);
        assert(t.subrange(i - 1, i - 1 + part.len()) =~= s.subrange(i, i + part.len()));
        assert(text::occurs_at(t, part, i - 1));
    }
    if text::occurs(t, part) {
        let i = choose|i: int| text::occurs_at(t, part, i);
        assert(s.subrange(i + 1, i + 1 + part.len()) =~= t.subrange(i, i + part.len()));
        assert(text::occurs_at(s, part, i + 1));
    }
}

/// Rows that were read back show of progress what they showed.
proof fn lemma_read_back(a: toml::Toml, b: toml::Toml)
    requires
        read_back(a, b),
        a is List,
    ensures
        sidebar::plain_rows(a) ==> sidebar::plain_rows(b),
        sidebar::settled_own(a) ==> sidebar::settled_own(b),
{
    let x = a->rows;
    let y = b->rows;
    assert forall|i: int| 0 <= i < x.len() implies sidebar::progress((#[trigger] y[i]).text)
        == sidebar::progress(x[i].text) && sidebar::names_progress(y[i].text)
        == sidebar::names_progress(x[i].text) by {
        lemma_blank_before(x[i].text);
    }
    if sidebar::settled_own(a) {
        let front = x.drop_last();
        let rest = y.drop_last();
        let n = rest.len() as int;
        assert(y.last() == y[n] && x.last() == x[n]);
        assert forall|i: int| 0 <= i < rest.len() implies !sidebar::progress(
            (#[trigger] rest[i]).text,
        ) by {
            assert(rest[i] == y[i]);
            assert(front[i] == x[i]);
        }
        let texts = sidebar::row_views(rest);
        assert forall|i: int| 0 <= i < texts.len() implies !sidebar::names_progress(
            #[trigger] texts[i],
        ) by {
            assert(texts[i] == y[i].text);
            assert(sidebar::row_views(front)[i] == x[i].text);
        }
        assert(toml::in_place(y[n], n) == toml::in_place(x[n], n));
    }
}

/// Rows that were settled when they were written are settled when they are read back.
proof fn lemma_settled_read_back(a: toml::Toml, b: toml::Toml, remove: bool)
    requires
        sidebar::settled(a, remove),
        rows_read_back(a, b),
        b.complete(),
    ensures
        sidebar::settled(b, remove),
{
    let x = a.child("rows_by_agent"@);
    let y = b.child("rows_by_agent"@);
    if a.child("rows"@) is List {
        lemma_read_back(a.child("rows"@), b.child("rows"@));
    }
    if y is Table {
        toml::lemma_complete_child(b, "rows_by_agent"@);
        assert forall|i: int| 0 <= i < y->entries.len() implies sidebar::settled_entry(
            #[trigger] y->entries[i],
            remove,
        ) by {
            let agent = y->entries[i].0;
            assert forall|k: int| 0 <= k < i implies (#[trigger] y->entries[k]).0 != agent by {}
            tree::lemma_position_is(y->entries, agent, i);
            assert(read_back(x.child(agent), y.child(agent)));
            tree::lemma_position(x->entries, agent);
            let p = tree::position(x->entries, agent);
            assert(sidebar::settled_entry(x->entries[p], remove));
            lemma_read_back(x.child(agent), y.child(agent));
        }
        assert(read_back(x.child("devin"@), y.child("devin"@)));
        tree::lemma_position(x->entries, "devin"@);
        if tree::has_key(x->entries, "devin"@) {
            assert(sidebar::settled_entry(
                x->entries[tree::position(x->entries, "devin"@)],
                remove,
            ));
        }
    }
}

/// Editing twice is editing once, on texts: where the rows are read back from the text `edited` as an
/// edit wrote them, and what is read of it is written as the same text, that text comes back as it
/// is when it is edited so again.
pub proof fn law_edited_text_comes_back(
    before: toml::TomlDoc,
    remove: bool,
    edited: Seq<char>,
    after: toml::TomlDoc,
)
    requires
        before.root.complete(),
        remove || sidebar::agents_of(before.root).is_open(),
        sidebar::edited_agents(sidebar::agents_of(before.root), remove) is Ok,
        toml::toml_parsed(edited) == Ok::<toml::TomlDoc, Seq<char>>(after),
        after.root.complete(),
        toml::toml_text(after) == edited,
        rows_read_back(
            sidebar::edited_agents(sidebar::agents_of(before.root), remove)->Ok_0,
            sidebar::agents_of(after.root),
        ),
    ensures
        sidebar::nothing_to_do(edited, remove),
{
    let ui = before.root.child("ui"@);
    toml::lemma_complete_child(before.root, "ui"@);
    toml::lemma_complete_child(ui, "sidebar"@);
    toml::lemma_complete_child(ui.child("sidebar"@), "agents"@);
    let next = after.root.child("ui"@);
    toml::lemma_complete_child(after.root, "ui"@);
    toml::lemma_complete_child(next, "sidebar"@);
    toml::lemma_complete_child(next.child("sidebar"@), "agents"@);
    law_edited_rows_are_settled(sidebar::agents_of(before.root), remove);
    lemma_settled_read_back(
        sidebar::edited_agents(sidebar::agents_of(before.root), remove)->Ok_0,
        sidebar::agents_of(after.root),
        remove,
    );
}

/// The progress row can always be taken out of a text that it was put into: where the rows are read back
/// as adding it wrote them, taking it out succeeds and leaves no progress row.
pub proof fn law_added_row_can_be_removed(
    agents: toml::Toml,
    after: toml::Toml,
    agent: Seq<char>,
)
    requires
        agents.complete(),
        agents.is_open(),
        sidebar::edited_agents(agents, false) is Ok,
        after.complete(),
        rows_read_back(sidebar::edited_agents(agents, false)->Ok_0, after),
    ensures
        sidebar::edited_agents(after, true) is Ok,
        ({
            let removed = sidebar::edited_agents(after, true)->Ok_0;
            let rows = removed.child("rows"@);
            let own = removed.child("rows_by_agent"@).child(agent);
            &&& rows is Missing || sidebar::plain_rows(rows)
            &&& own is Missing || sidebar::plain_rows(own)
        }),
{
    law_edited_rows_are_settled(agents, false);
    lemma_settled_read_back(sidebar::edited_agents(agents, false)->Ok_0, after, false);
    let entries = after.child("rows_by_agent"@)->entries;
    let done = Seq::new(
        entries.len(),
        |i: int|
            (
                entries[i].0,
                toml::TomlEntry {
                    key_style: entries[i].1.key_style,
                    item: sidebar::edited_rows(entries[i].1.item, false)->Ok_0,
                },
            ),
    );
    assert forall|i: int| #![trigger done[i]]
        0 <= i < done.len() implies sidebar::edited_rows(entries[i].1.item, false) == Ok::<
        toml::Toml,
        SidebarFault,
    >(done[i].1.item) by {
        assert(sidebar::settled_entry(entries[i], false));
    }
    lemma_entries_are(entries, done, true);
    law_remove_leaves_no_progress_row(after, agent);
}

} // verus!
