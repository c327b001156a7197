//! The processes of the system: who is whose parent, and which of several is the outermost.
use std::collections::HashMap;
use vstd::prelude::*;

use crate::number;
use crate::text;
use crate::text::{chars_of, joined, split_at_each, split_words, text_of};

verus! {

/// A process: its parent, and when it was started.
#[derive(Clone, Debug)]
pub struct Process {
    pub parent: u32,
    pub started: String,
}

/// Why the process of an agent is not known.
#[derive(Clone, Copy, Debug, PartialEq, Eq, Structural)]
pub enum ProcessError {
    /// The system lists no process.
    NoProcesses,
    /// None of the candidates is running.
    NotRunning,
    /// More than one of the candidates is the outermost of its kind.
    Ambiguous,
}

impl ProcessError {
    /// What is wrong, in words.
    pub open spec fn message_text(self) -> Seq<char> {
        match self {
            ProcessError::NoProcesses => "OS process start times unavailable"@,
            ProcessError::NotRunning => "Foreground Devin CLI process unavailable"@,
            ProcessError::Ambiguous => "Ambiguous foreground Devin CLI launch"@,
        }
    }

    /// What is wrong, in words.
    pub fn message(&self) -> (r: String)
        ensures
            r@ == self.message_text(),
    {
        match self {
            ProcessError::NoProcesses => "OS process start times unavailable".to_owned(),
            ProcessError::NotRunning => "Foreground Devin CLI process unavailable".to_owned(),
            ProcessError::Ambiguous => "Ambiguous foreground Devin CLI launch".to_owned(),
        }
    }
}

// ---------------------------------------------------------------------------
// The list of processes
// ---------------------------------------------------------------------------

/// The number of a process that `word` writes: decimal digits, after a plus sign or none.
pub open spec fn process_number(word: Seq<char>) -> Option<nat> {
    if word.len() > 0 && word[0] == '+' {
        number::unsigned_within(word.drop_first(), u32::MAX as nat)
    } else {
        number::unsigned_within(word, u32::MAX as nat)
    }
}

/// What a line says of a process: its number, its parent and when it was started. A line of another
/// form says nothing.
pub open spec fn process_line(line: Seq<char>) -> Option<(u32, (u32, Seq<char>))> {
    let w = text::words(line);
    if w.len() != 7 || process_number(w[0]) is None || process_number(w[1]) is None {
        None
    } else {
        Some(
            (
                process_number(w[0])->0 as u32,
                (process_number(w[1])->0 as u32, text::join(w.skip(2), " "@)),
            ),
        )
    }
}

/// What the lines say of the processes; the last line of a process counts.
pub open spec fn process_table(lines: Seq<Seq<char>>) -> Map<u32, (u32, Seq<char>)>
    decreases lines.len(),
{
    if lines.len() == 0 {
        Map::empty()
    } else {
        let before = process_table(lines.drop_last());
        match process_line(lines.last()) {
            Some(p) => before.insert(p.0, p.1),
            None => before,
        }
    }
}

/// What a table says of the processes.
pub open spec fn table_view(table: Map<u32, Process>) -> Map<u32, (u32, Seq<char>)> {
    table.map_values(|p: Process| (p.parent, p.started@))
}

/// The number of a process that `word` writes.
fn read_process_number(word: &Vec<char>) -> (r: Option<u32>)
    ensures
        match r {
            Some(n) => process_number(word@) == Some(n as nat),
            None => process_number(word@) is None,
        },
{
    let plus = word.len() > 0 && word[0] == '+';
    let read: Option<u64> = if plus {
        let mut rest: Vec<char> = Vec::new();
        let n: usize = word.len();
        for i in 1..n
            invariant
                1 <= n == word@.len(),
                rest@ == word@.subrange(1, i as int),
        {
            rest.push(word[i]);
            assert(rest@ =~= word@.subrange(1, i + 1));
        }
        assert(rest@ =~= word@.drop_first());
        number::read_unsigned(&rest, u32::MAX as u64)
    } else {
        number::read_unsigned(word, u32::MAX as u64)
    };
    match read {
        Some(n) => Some(n as u32),
        None => None,
    }
}

/// Reads a line of the list.
fn read_line(line: &Vec<char>) -> (r: Option<(u32, Process)>)
    ensures
        match r {
            Some(p) => process_line(line@) == Some((p.0, (p.1.parent, p.1.started@))),
            None => process_line(line@) is None,
        },
{
    let fields: Vec<Vec<char>> = split_words(line);
    let ghost w = text::words(line@);
    assert(w.len() == fields@.len());
    if fields.len() != 7 {
        return None;
    }
    assert(fields@[0]@ == w[0]);
    assert(fields@[1]@ == w[1]);
    match (read_process_number(&fields[0]), read_process_number(&fields[1])) {
        (Some(pid), Some(parent)) => {
            let mut rest: Vec<String> = Vec::new();
            for i in 2..7usize
                invariant
                    fields@.len() == 7,
                    w == text::char_views(fields@),
                    text::views(rest@) == w.subrange(2, i as int),
            {
                let ghost before = rest@;
                rest.push(text_of(&fields[i]));
                assert(text::views(rest@) =~= text::views(before).push(w[i as int]));
                assert(text::views(rest@) =~= w.subrange(2, i + 1));
            }
            assert(w.subrange(2, 7) =~= w.skip(2));
            Some((pid, Process { parent, started: joined(&rest, " ") }))
        },
        _ => None,
    }
}

/// Reads the list of processes that the system gives: a line for each, with its number, that of its
/// parent, and the five words of the time when it was started.
pub fn processes(listing: &str) -> (r: Result<HashMap<u32, Process>, ProcessError>)
    ensures
        ({
            let table = process_table(text::lines(listing@));
            match r {
                Ok(t) => table_view(t@) == table && !table.is_empty(),
                Err(e) => table.is_empty() && e == ProcessError::NoProcesses,
            }
        }),
{
    broadcast use vstd::std_specs::hash::group_hash_axioms;

    let all: Vec<Vec<char>> = split_at_each(&chars_of(listing), '\n');
    let ghost lines = text::lines(listing@);
    let n: usize = all.len();
    let mut table: HashMap<u32, Process> = HashMap::new();
    proof {
        assert(lines.take(0) =~= Seq::empty());
        assert(table_view(table@) =~= process_table(lines.take(0)));
    }
    for i in 0..n
        invariant
            n == all@.len(),
            text::char_views(all@) == lines,
            table_view(table@) == process_table(lines.take(i as int)),
    {
        proof {
            assert(lines.take(i + 1).drop_last() =~= lines.take(i as int));
            assert(lines.take(i + 1).last() == all@[i as int]@);
        }
        if let Some((pid, process)) = read_line(&all[i]) {
            let ghost before = table@;
            table.insert(pid, process);
            assert(table_view(table@) =~= table_view(before).insert(
                pid,
                (process.parent, process.started@),
            ));
        }
    }
    proof {
        assert(lines.take(n as int) =~= lines);
        assert(table_view(table@).dom() =~= table@.dom());
    }
    if table.is_empty() {
        proof {
            assert(table_view(table@) =~= Map::empty());
        }
        Err(ProcessError::NoProcesses)
    } else {
        Ok(table)
    }
}

// ---------------------------------------------------------------------------
// Ancestors
// ---------------------------------------------------------------------------

/// How many generations are looked at.
pub const MAX_GENERATIONS: usize = 128;

/// Whether `expected` is `child`, its parent, the parent of that and so on, no more than `steps` of
/// them being looked at. The line ends with a process that is not in the table or is its own parent.
pub open spec fn descends(
    table: Map<u32, Process>,
    expected: u32,
    child: u32,
    steps: nat,
) -> bool
    decreases steps,
{
    if steps == 0 {
        false
    } else if child == expected {
        true
    } else if !table.dom().contains(child) || table[child].parent == child {
        false
    } else {
        descends(table, expected, table[child].parent, (steps - 1) as nat)
    }
}

/// Whether `expected` is `child` or one of its ancestors.
pub open spec fn ancestor(table: Map<u32, Process>, expected: u32, child: u32) -> bool {
    descends(table, expected, child, MAX_GENERATIONS as nat)
}

/// Whether `expected` is `child` or one of its ancestors.
pub fn is_ancestor(table: &HashMap<u32, Process>, expected: u32, child: u32) -> (r: bool)
    ensures
        r == ancestor(table@, expected, child),
{
    broadcast use vstd::std_specs::hash::group_hash_axioms;

    let mut now: u32 = child;
    for i in 0..MAX_GENERATIONS
        invariant
            ancestor(table@, expected, child) == descends(
                table@,
                expected,
                now,
                (MAX_GENERATIONS - i) as nat,
            ),
    {
        if now == expected {
            return true;
        }
        match table.get(&now) {
            None => {
                return false;
            },
            Some(p) => {
                if p.parent == now {
                    return false;
                }
                now = p.parent;
            },
        }
    }
    false
}

// ---------------------------------------------------------------------------
// The outermost process
// ---------------------------------------------------------------------------

/// The candidates that are running.
pub open spec fn running(table: Map<u32, Process>, candidates: Seq<u32>) -> Seq<u32> {
    candidates.filter(|pid: u32| table.dom().contains(pid))
}

/// Whether no other of `live` is an ancestor of `pid`.
pub open spec fn outermost(table: Map<u32, Process>, live: Seq<u32>, pid: u32) -> bool {
    forall|i: int|
        0 <= i < live.len() && #[trigger] live[i] != pid ==> !ancestor(table, live[i], pid)
}

/// The candidates that are running and have no other of them as an ancestor.
pub open spec fn roots(table: Map<u32, Process>, candidates: Seq<u32>) -> Seq<u32> {
    let live = running(table, candidates);
    live.filter(|pid: u32| outermost(table, live, pid))
}

/// The candidates that are running.
fn running_of(table: &HashMap<u32, Process>, candidates: &[u32]) -> (r: Vec<u32>)
    ensures
        r@ == running(table@, candidates@),
{
    broadcast use vstd::std_specs::hash::group_hash_axioms;

    let mut live: Vec<u32> = Vec::new();
    let n: usize = candidates.len();
    let ghost wanted = |pid: u32| table@.dom().contains(pid);
    proof {
        reveal(Seq::filter);
        assert(candidates@.take(0) =~= Seq::empty());
        assert(live@ =~= candidates@.take(0).filter(wanted));
    }
    for i in 0..n
        invariant
            n == candidates@.len(),
            wanted == (|pid: u32| table@.dom().contains(pid)),
            live@ == candidates@.take(i as int).filter(wanted),
    {
        proof {
            reveal(Seq::filter);
            assert(candidates@.take(i + 1).drop_last() =~= candidates@.take(i as int));
            assert(candidates@.take(i + 1).last() == candidates@[i as int]);
        }
        if table.contains_key(&candidates[i]) {
            live.push(candidates[i]);
        }
    }
    assert(candidates@.take(n as int) =~= candidates@);
    live
}

/// Whether no other of `live` is an ancestor of `pid`.
fn is_outermost(table: &HashMap<u32, Process>, live: &Vec<u32>, pid: u32) -> (r: bool)
    ensures
        r == outermost(table@, live@, pid),
{
    let n: usize = live.len();
    for i in 0..n
        invariant
            n == live@.len(),
            forall|k: int|
                0 <= k < i && #[trigger] live@[k] != pid ==> !ancestor(table@, live@[k], pid),
    {
        if live[i] != pid && is_ancestor(table, live[i], pid) {
            assert(live@[i as int] != pid && ancestor(table@, live@[i as int], pid));
            return false;
        }
    }
    true
}

/// The one candidate that is running and has no other of them as an ancestor.
pub fn launch_process(table: &HashMap<u32, Process>, candidates: &[u32]) -> (r: Result<
    u32,
    ProcessError,
>)
    ensures
        ({
            let found = roots(table@, candidates@);
            if found.len() == 0 {
                r == Err::<u32, ProcessError>(ProcessError::NotRunning)
            } else if found.len() > 1 {
                r == Err::<u32, ProcessError>(ProcessError::Ambiguous)
            } else {
                r == Ok::<u32, ProcessError>(found[0])
            }
        }),
        r is Ok ==> table@.dom().contains(r->Ok_0),
{
    let live: Vec<u32> = running_of(table, candidates);
    let mut found: Vec<u32> = Vec::new();
    let n: usize = live.len();
    let ghost wanted = |pid: u32| outermost(table@, live@, pid);
    proof {
        reveal(Seq::filter);
        assert(live@.take(0) =~= Seq::empty());
        assert(found@ =~= live@.take(0).filter(wanted));
    }
    for i in 0..n
        invariant
            n == live@.len(),
            wanted == (|pid: u32| outermost(table@, live@, pid)),
            found@ == live@.take(i as int).filter(wanted),
            forall|k: int| 0 <= k < found@.len() ==> live@.contains(#[trigger] found@[k]),
    {
        proof {
            reveal(Seq::filter);
            assert(live@.take(i + 1).drop_last() =~= live@.take(i as int));
            assert(live@.take(i + 1).last() == live@[i as int]);
        }
        if is_outermost(table, &live, live[i]) {
            let ghost before = found@;
            found.push(live[i]);
            assert forall|k: int| 0 <= k < found@.len() implies live@.contains(
                #[trigger] found@[k],
            ) by {
                if k < before.len() {
                    assert(found@[k] == before[k]);
                } else {
                    assert(live@[i as int] == found@[k]);
                }
            }
        }
    }
    assert(live@.take(n as int) =~= live@);
    if found.len() == 0 {
        return Err(ProcessError::NotRunning);
    }
    if found.len() > 1 {
        return Err(ProcessError::Ambiguous);
    }
    proof {
        let k = choose|k: int| 0 <= k < live@.len() && live@[k] == found@[0];
        candidates@.lemma_filter_pred(|pid: u32| table@.dom().contains(pid), k);
    }
    Ok(found[0])
}

// ---------------------------------------------------------------------------
// What holds of every table
// ---------------------------------------------------------------------------

/// A process counts among its own ancestors, and so does its parent, and what are ancestors of its
/// parent, but for the most distant one that is looked at.
pub proof fn law_ancestors_follow_parents(table: Map<u32, Process>, expected: u32, child: u32)
    ensures
        ancestor(table, child, child),
        table.dom().contains(child) && table[child].parent != child ==> ancestor(
            table,
            table[child].parent,
            child,
        ),
        !table.dom().contains(child) && expected != child ==> !ancestor(table, expected, child),
        table.dom().contains(child) && table[child].parent != child && expected != child ==> (
        ancestor(table, expected, child) == descends(
            table,
            expected,
            table[child].parent,
            (MAX_GENERATIONS - 1) as nat,
        )),
{
    reveal_with_fuel(descends, 3);
}

/// The process that is found was a candidate, is running and has no other candidate above it; every
/// other candidate that is running has a candidate above it.
pub proof fn law_launch_is_outermost(table: Map<u32, Process>, candidates: Seq<u32>, other: u32)
    requires
        roots(table, candidates).len() == 1,
    ensures
        ({
            let live = running(table, candidates);
            let found = roots(table, candidates)[0];
            &&& live.contains(found)
            &&& candidates.contains(found)
            &&& table.dom().contains(found)
            &&& outermost(table, live, found)
            &&& live.contains(other) && other != found ==> exists|i: int|
                0 <= i < live.len() && #[trigger] live[i] != other && ancestor(
                    table,
                    live[i],
                    other,
                )
        }),
{
    let live = running(table, candidates);
    let is_running = |pid: u32| table.dom().contains(pid);
    let is_root = |pid: u32| outermost(table, live, pid);
    let found = roots(table, candidates)[0];
    lemma_filter_from(live, is_root, 0);
    lemma_filter_from(candidates, is_running, live.index_of(found));
    live.lemma_filter_pred(is_root, 0);
    if live.contains(other) && other != found {
        let k = live.index_of(other);
        if outermost(table, live, other) {
            live.lemma_filter_contains(is_root, k);
            let r = roots(table, candidates);
            assert(r.contains(other));
            let j = choose|j: int| 0 <= j < r.len() && r[j] == other;
            assert(j == 0);
        }
    }
}

/// What a filter leaves was there, and passes it.
pub proof fn lemma_filter_from(s: Seq<u32>, wanted: spec_fn(u32) -> bool, i: int)
    requires
        0 <= i < s.filter(wanted).len(),
    ensures
        s.contains(s.filter(wanted)[i]),
        wanted(s.filter(wanted)[i]),
    decreases s.len(),
{
    reveal(Seq::filter);
    let front = s.drop_last();
    if i < front.filter(wanted).len() {
        lemma_filter_from(front, wanted, i);
        let k = choose|k: int| 0 <= k < front.len() && front[k] == front.filter(wanted)[i];
        assert(s[k] == s.filter(wanted)[i]);
    } else {
        assert(s[s.len() - 1] == s.filter(wanted)[i]);
    }
}

/// Whether each of `path` is in the table and has the next one, which is another, as its parent.
pub open spec fn is_line(table: Map<u32, Process>, path: Seq<u32>) -> bool {
    forall|i: int|
        0 <= i < path.len() - 1 ==> table.dom().contains(#[trigger] path[i])
            && table[path[i]].parent == path[i + 1] && path[i + 1] != path[i]
}

/// Whether a line of at most 128 processes leads from `child` up to `top`: `child` itself, its parent,
/// the parent of that and so on.
pub open spec fn leads_up(table: Map<u32, Process>, child: u32, top: u32) -> bool {
    exists|path: Seq<u32>| #[trigger]
        is_line(table, path) && 0 < path.len() <= 128 && path[0] == child && path.last() == top
}

/// A line up to a process is found.
proof fn lemma_line_is_found(
    table: Map<u32, Process>,
    expected: u32,
    path: Seq<u32>,
    steps: nat,
)
    requires
        is_line(table, path),
        0 < path.len() <= steps,
        path.last() == expected,
    ensures
        descends(table, expected, path[0], steps),
    decreases path.len(),
{
    if path[0] != expected {
        let rest = path.drop_first();
        assert forall|i: int| 0 <= i < rest.len() - 1 implies table.dom().contains(
            #[trigger] rest[i],
        ) && table[rest[i]].parent == rest[i + 1] && rest[i + 1] != rest[i] by {
            assert(rest[i] == path[i + 1]);
            assert(rest[i + 1] == path[i + 2]);
        }
        assert(table.dom().contains(path[0]));
        assert(path[1] == rest[0]);
        lemma_line_is_found(table, expected, rest, (steps - 1) as nat);
    }
}

/// What is found is at the end of a line.
proof fn lemma_found_by_line(table: Map<u32, Process>, expected: u32, child: u32, steps: nat) -> (path:
    Seq<u32>)
    requires
        descends(table, expected, child, steps),
    ensures
        is_line(table, path),
        0 < path.len() <= steps,
        path[0] == child,
        path.last() == expected,
    decreases steps,
{
    if child == expected {
        seq![child]
    } else {
        let rest = lemma_found_by_line(
            table,
            expected,
            table[child].parent,
            (steps - 1) as nat,
        );
        let path = seq![child] + rest;
        assert forall|i: int| 0 <= i < path.len() - 1 implies table.dom().contains(
            #[trigger] path[i],
        ) && table[path[i]].parent == path[i + 1] && path[i + 1] != path[i] by {
            if i > 0 {
                assert(path[i] == rest[i - 1]);
                assert(path[i + 1] == rest[i]);
            }
        }
        path
    }
}

/// A process counts as an ancestor exactly where a line of parents leads up to it, of at most 128
/// processes with both ends: the process itself does, its parent does, the parent of that does, and so
/// on, and nothing else.
pub proof fn law_ancestors_are_at_the_end_of_a_line(
    table: Map<u32, Process>,
    expected: u32,
    child: u32,
)
    ensures
        ancestor(table, expected, child) <==> leads_up(table, child, expected),
        leads_up(table, child, child),
        table.dom().contains(child) && table[child].parent != child ==> leads_up(
            table,
            child,
            table[child].parent,
        ),
{
    if ancestor(table, expected, child) {
        let path = lemma_found_by_line(table, expected, child, MAX_GENERATIONS as nat);
        assert(is_line(table, path));
    }
    if leads_up(table, child, expected) {
        let path = choose|path: Seq<u32>| #[trigger]
            is_line(table, path) && 0 < path.len() <= 128 && path[0] == child && path.last()
                == expected;
        lemma_line_is_found(table, expected, path, MAX_GENERATIONS as nat);
    }
    let one = seq![child];
    assert(is_line(table, one) && one[0] == child && one.last() == child);
    if table.dom().contains(child) && table[child].parent != child {
        let two = seq![child, table[child].parent];
        assert(is_line(table, two) && two[0] == child && two.last() == table[child].parent);
    }
}

/// Whether `pid` is a candidate that runs and no line leads up from it to another one that runs.
pub open spec fn is_root(table: Map<u32, Process>, candidates: Seq<u32>, pid: u32) -> bool {
    &&& candidates.contains(pid)
    &&& table.dom().contains(pid)
    &&& forall|other: u32|
        #![trigger candidates.contains(other)]
        other != pid && candidates.contains(other) && table.dom().contains(other) ==> !leads_up(
            table,
            pid,
            other,
        )
}

/// The candidates that are found are those that run below no other one that runs.
pub proof fn law_roots_are_below_no_other(table: Map<u32, Process>, candidates: Seq<u32>, pid: u32)
    ensures
        roots(table, candidates).contains(pid) <==> is_root(table, candidates, pid),
{
    let live = running(table, candidates);
    let is_running = |n: u32| table.dom().contains(n);
    let is_outer = |n: u32| outermost(table, live, n);
    let found = roots(table, candidates);
    if found.contains(pid) {
        let k = choose|k: int| 0 <= k < found.len() && found[k] == pid;
        lemma_filter_from(live, is_outer, k);
        let j = choose|j: int| 0 <= j < live.len() && live[j] == pid;
        lemma_filter_from(candidates, is_running, j);
        assert forall|other: u32|
            #![trigger candidates.contains(other)]
            other != pid && candidates.contains(other) && table.dom().contains(
                other,
            ) implies !leads_up(table, pid, other) by {
            let c = choose|c: int| 0 <= c < candidates.len() && candidates[c] == other;
            candidates.lemma_filter_contains(is_running, c);
            let i = choose|i: int| 0 <= i < live.len() && live[i] == other;
            assert(live[i] != pid);
            law_ancestors_are_at_the_end_of_a_line(table, other, pid);
        }
    }
    if is_root(table, candidates, pid) {
        let c = choose|c: int| 0 <= c < candidates.len() && candidates[c] == pid;
        candidates.lemma_filter_contains(is_running, c);
        let j = choose|j: int| 0 <= j < live.len() && live[j] == pid;
        assert forall|i: int| 0 <= i < live.len() && #[trigger] live[i] != pid implies !ancestor(
            table,
            live[i],
            pid,
        ) by {
            lemma_filter_from(candidates, is_running, i);
            assert(candidates.contains(live[i]));
            law_ancestors_are_at_the_end_of_a_line(table, live[i], pid);
        }
        live.lemma_filter_contains(is_outer, j);
    }
}

/// Whether a line says something of the process `pid`.
pub open spec fn tells_of(line: Seq<char>, pid: u32) -> bool {
    process_line(line) matches Some(p) && p.0 == pid
}

/// The last line of a process counts, and a process that no line names is not known.
pub proof fn law_last_line_counts(lines: Seq<Seq<char>>, pid: u32, i: int)
    ensures
        0 <= i < lines.len() && tells_of(lines[i], pid) && (forall|j: int|
            i < j < lines.len() ==> !tells_of(#[trigger] lines[j], pid)) ==> process_table(
            lines,
        ).dom().contains(pid) && Some((pid, process_table(lines)[pid])) == process_line(lines[i]),
        process_table(lines).dom().contains(pid) ==> exists|j: int|
            0 <= j < lines.len() && tells_of(#[trigger] lines[j], pid),
    decreases lines.len(),
{
    if lines.len() > 0 {
        let front = lines.drop_last();
        let n = lines.len() - 1;
        law_last_line_counts(front, pid, i);
        assert(lines[n] == lines.last());
        if 0 <= i < front.len() {
            assert(front[i] == lines[i]);
            assert(forall|j: int| i < j < front.len() ==> #[trigger] front[j] == lines[j]);
        }
        if process_table(front).dom().contains(pid) {
            let j = choose|j: int| 0 <= j < front.len() && tells_of(#[trigger] front[j], pid);
            assert(lines[j] == front[j]);
        }
    }
}

/// A line says something of a process exactly where it is seven words of which the first two are numbers:
/// the process, its parent and, with single spaces between them, the five words of its start.
pub proof fn law_line_of_a_process(
    line: Seq<char>,
    pid: u32,
    parent: u32,
    day: Seq<char>,
    month: Seq<char>,
    date: Seq<char>,
    time: Seq<char>,
    year: Seq<char>,
)
    ensures
        text::words(line) == seq![
            number::decimal(pid as int),
            number::decimal(parent as int),
            day,
            month,
            date,
            time,
            year,
        ] ==> process_line(line) == Some(
            (pid, (parent, day + " "@ + month + " "@ + date + " "@ + time + " "@ + year)),
        ),
        text::words(line).len() != 7 ==> process_line(line) is None,
{
    number::law_decimal_round_trip(pid as nat);
    number::law_decimal_round_trip(parent as nat);
    let w = text::words(line);
    if w == seq![
        number::decimal(pid as int),
        number::decimal(parent as int),
        day,
        month,
        date,
        time,
        year,
    ] {
        assert(number::is_digit(w[0][0]));
        assert(number::is_digit(w[1][0]));
        let rest = w.skip(2);
        assert(rest =~= seq![day, month, date, time, year]);
        assert(rest.drop_last() =~= seq![day, month, date, time]);
        assert(rest.drop_last().drop_last() =~= seq![day, month, date]);
        assert(rest.drop_last().drop_last().drop_last() =~= seq![day, month]);
        assert(rest.drop_last().drop_last().drop_last().drop_last() =~= seq![day]);
        reveal_with_fuel(text::join, 6);
    }
}

/// The number of a process is read from its digits, with a plus sign before them or none, as long as it
/// fits; anything else is no number.
pub proof fn law_numbers_of_processes(pid: u32, word: Seq<char>)
    ensures
        process_number(number::decimal(pid as int)) == Some(pid as nat),
        process_number(seq!['+'] + number::decimal(pid as int)) == Some(pid as nat),
        process_number(word) is Some ==> process_number(word)->0 <= 0xffff_ffff && {
            let digits = if word[0] == '+' {
                word.drop_first()
            } else {
                word
            };
            number::unsigned(digits) == process_number(word)
        },
        number::unsigned(word) is Some && number::unsigned(word)->0 > 0xffff_ffff
            ==> process_number(word) is None,
{
    number::law_decimal_round_trip(pid as nat);
    let d = number::decimal(pid as int);
    assert(number::is_digit(d[0]));
    assert((seq!['+'] + d).drop_first() =~= d);
    if number::unsigned(word) is Some {
        assert(number::is_digit(word[0]));
    }
}

} // verus!
