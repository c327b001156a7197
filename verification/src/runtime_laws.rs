//! What holds of every endpoint and of every agent that is found.
use vstd::prelude::*;

use crate::json;
use crate::number;
use crate::process;
use crate::process::{Process, ProcessError};
use crate::runtime;
use crate::runtime::{SocketInfo, Wait};
use crate::state;
use crate::text;
use crate::tree;

verus! {

/// A number is written with digits alone, behind a minus sign where it is negative.
proof fn lemma_decimal_chars(n: int)
    ensures
        forall|i: int| 0 <= i < number::decimal(n).len() ==> #[trigger] number::decimal(n)[i] != ':',
        number::decimal(n).len() > 0,
        n >= 0 ==> number::decimal(n)[0] != '-',
{
    let m: nat = if n < 0 {
        (-n) as nat
    } else {
        n as nat
    };
    number::law_decimal_round_trip(m);
    let d = number::decimal(m as int);
    assert(number::unsigned(d) is Some);
    assert forall|i: int| 0 <= i < number::decimal(n).len() implies #[trigger] number::decimal(
        n,
    )[i] != ':' by {
        if n < 0 {
            if i > 0 {
                assert(number::decimal(n)[i] == d[i - 1]);
                assert(number::is_digit(d[i - 1]));
            }
        } else {
            assert(number::is_digit(d[i]));
        }
    }
    if n >= 0 {
        assert(number::is_digit(d[0]));
    }
}

/// Different numbers are written differently.
proof fn lemma_decimal_differs(a: int, b: int)
    requires
        number::decimal(a) == number::decimal(b),
    ensures
        a == b,
{
    lemma_decimal_chars(a);
    lemma_decimal_chars(b);
    let da = number::decimal(a);
    let db = number::decimal(b);
    if a < 0 {
        assert(da[0] == '-');
        assert(b < 0);
        number::law_decimal_round_trip((-a) as nat);
        number::law_decimal_round_trip((-b) as nat);
        assert(da.drop_first() =~= number::decimal(-a));
        assert(db.drop_first() =~= number::decimal(-b));
    } else {
        if b < 0 {
            assert(db[0] == '-');
        }
        number::law_decimal_round_trip(a as nat);
        number::law_decimal_round_trip(b as nat);
    }
}

/// Two texts that are the same, each of two parts around a colon, have the same parts where there is
/// no other colon in the second.
proof fn lemma_last_colon(a: Seq<char>, b: Seq<char>, c: Seq<char>, d: Seq<char>)
    requires
        a + seq![':'] + b == c + seq![':'] + d,
        forall|i: int| 0 <= i < b.len() ==> #[trigger] b[i] != ':',
        forall|i: int| 0 <= i < d.len() ==> #[trigger] d[i] != ':',
    ensures
        a == c,
        b == d,
{
    let s = a + seq![':'] + b;
    let t = c + seq![':'] + d;
    assert(s.len() == t.len());
    assert(s[a.len() as int] == ':');
    assert(t[c.len() as int] == ':');
    if a.len() < c.len() {
        assert(s[c.len() as int] == b[c.len() - a.len() - 1]);
    } else if c.len() < a.len() {
        assert(t[a.len() as int] == d[a.len() - c.len() - 1]);
    }
    assert(a =~= s.take(a.len() as int));
    assert(c =~= t.take(c.len() as int));
    assert(b =~= s.skip(a.len() as int + 1));
    assert(d =~= t.skip(c.len() as int + 1));
}

/// A socket that was replaced has another identity, even at the same place: the identity tells the
/// place and all that the system says of it.
pub proof fn law_endpoint_tells_sockets_apart(a: SocketInfo, b: SocketInfo)
    requires
        a.identity() == b.identity(),
    ensures
        a.path@ == b.path@,
        a.device == b.device,
        a.inode == b.inode,
        a.changed == b.changed,
        a.changed_nanos == b.changed_nanos,
{
    let colon = seq![':'];
    let a1 = a.path@;
    let b1 = b.path@;
    let a2 = a1 + colon + number::decimal(a.device as int);
    let b2 = b1 + colon + number::decimal(b.device as int);
    let a3 = a2 + colon + number::decimal(a.inode as int);
    let b3 = b2 + colon + number::decimal(b.inode as int);
    let a4 = a3 + colon + number::decimal(a.changed as int);
    let b4 = b3 + colon + number::decimal(b.changed as int);
    lemma_decimal_chars(a.device as int);
    lemma_decimal_chars(b.device as int);
    lemma_decimal_chars(a.inode as int);
    lemma_decimal_chars(b.inode as int);
    lemma_decimal_chars(a.changed as int);
    lemma_decimal_chars(b.changed as int);
    lemma_decimal_chars(a.changed_nanos as int);
    lemma_decimal_chars(b.changed_nanos as int);
    lemma_last_colon(
        a4,
        number::decimal(a.changed_nanos as int),
        b4,
        number::decimal(b.changed_nanos as int),
    );
    lemma_last_colon(a3, number::decimal(a.changed as int), b3, number::decimal(b.changed as int));
    lemma_last_colon(a2, number::decimal(a.inode as int), b2, number::decimal(b.inode as int));
    lemma_last_colon(a1, number::decimal(a.device as int), b1, number::decimal(b.device as int));
    lemma_decimal_differs(a.device as int, b.device as int);
    lemma_decimal_differs(a.inode as int, b.inode as int);
    lemma_decimal_differs(a.changed as int, b.changed as int);
    lemma_decimal_differs(a.changed_nanos as int, b.changed_nanos as int);
}

/// Whether numbers are in order, each once.
pub open spec fn in_order(s: Seq<u32>) -> bool {
    forall|i: int, j: int| 0 <= i < j < s.len() ==> #[trigger] s[i] < #[trigger] s[j]
}

/// One more number among numbers in order.
proof fn lemma_with_number(s: Seq<u32>, n: u32)
    requires
        in_order(s),
    ensures
        in_order(runtime::with_number(s, n)),
        forall|m: u32|
            #[trigger] runtime::with_number(s, n).contains(m) <==> (m == n || s.contains(m)),
    decreases s.len(),
{
    let r = runtime::with_number(s, n);
    if s.len() == 0 {
        assert(r[0] == n);
    } else if s.last() == n {
        assert(s[s.len() - 1] == n);
    } else if s.last() < n {
        assert(r[s.len() as int] == n);
        assert forall|m: u32| #[trigger] r.contains(m) <==> (m == n || s.contains(m)) by {
            if s.contains(m) {
                let k = choose|k: int| 0 <= k < s.len() && s[k] == m;
                assert(r[k] == m);
            }
        }
    } else {
        let front = s.drop_last();
        lemma_with_number(front, n);
        let inner = runtime::with_number(front, n);
        assert forall|i: int| 0 <= i < inner.len() implies #[trigger] inner[i] < s.last() by {
            assert(inner.contains(inner[i]));
            if inner[i] != n {
                let k = choose|k: int| 0 <= k < front.len() && front[k] == inner[i];
                assert(s[k] < s[s.len() - 1]);
            }
        }
        assert forall|m: u32| #[trigger] r.contains(m) <==> (m == n || s.contains(m)) by {
            if r.contains(m) {
                let k = choose|k: int| 0 <= k < r.len() && r[k] == m;
                if k < inner.len() {
                    assert(inner[k] == m);
                    assert(inner.contains(m));
                    if m != n {
                        let j = choose|j: int| 0 <= j < front.len() && front[j] == m;
                        assert(s[j] == m);
                    }
                } else {
                    assert(s[s.len() - 1] == m);
                }
            }
            if m == n {
                assert(inner.contains(m));
                let k = choose|k: int| 0 <= k < inner.len() && inner[k] == m;
                assert(r[k] == m);
            }
            if s.contains(m) {
                let k = choose|k: int| 0 <= k < s.len() && s[k] == m;
                if k < front.len() {
                    assert(front[k] == m);
                    assert(inner.contains(m));
                    let j = choose|j: int| 0 <= j < inner.len() && inner[j] == m;
                    assert(r[j] == m);
                } else {
                    assert(r[inner.len() as int] == m);
                }
            }
        }
    }
}

/// The candidates are the numbers of the processes that are called as the agent is, and no others,
/// in order and each once.
pub proof fn law_candidates_are_the_agents(processes: Seq<json::JsonTree>, n: u32)
    ensures
        in_order(runtime::candidates(processes)),
        runtime::candidates(processes).contains(n) <==> exists|i: int|
            0 <= i < processes.len() && runtime::candidate(#[trigger] processes[i]) == Some(n),
    decreases processes.len(),
{
    if processes.len() > 0 {
        let front = processes.drop_last();
        law_candidates_are_the_agents(front, n);
        let before = runtime::candidates(front);
        if let Some(m) = runtime::candidate(processes.last()) {
            lemma_with_number(before, m);
            if m == n {
                assert(runtime::candidate(processes[processes.len() - 1]) == Some(n));
            }
        }
        if exists|i: int|
            0 <= i < front.len() && runtime::candidate(#[trigger] front[i]) == Some(n) {
            let i = choose|i: int|
                0 <= i < front.len() && runtime::candidate(#[trigger] front[i]) == Some(n);
            assert(processes[i] == front[i]);
        }
        if exists|i: int|
            0 <= i < processes.len() && runtime::candidate(#[trigger] processes[i]) == Some(n) {
            let i = choose|i: int|
                0 <= i < processes.len() && runtime::candidate(#[trigger] processes[i]) == Some(n);
            if i < front.len() {
                assert(front[i] == processes[i]);
            } else {
                assert(processes[i] == processes.last());
            }
        }
    }
}

/// An agent that is found runs in the foreground of its pane under its own name, is listed by the
/// system, has no other such process above it, and started its caller.
pub proof fn law_identity_is_running(
    endpoint: Seq<char>,
    pane: json::JsonTree,
    info: json::JsonTree,
    table: Map<u32, Process>,
    caller: Option<u32>,
)
    requires
        runtime::identity_of(endpoint, pane, info, table, caller) is Ok,
    ensures
        ({
            let id = runtime::identity_of(endpoint, pane, info, table, caller)->Ok_0;
            let listed = runtime::foreground(info)->0;
            let live = process::running(table, runtime::candidates(listed));
            &&& id.endpoint == endpoint
            &&& id.agent == "devin"@
            &&& id.terminal.len() > 0
            &&& id.session.len() > 0
            &&& table.dom().contains(id.pid)
            &&& id.started == table[id.pid].started@
            &&& exists|i: int|
                0 <= i < listed.len() && runtime::candidate(#[trigger] listed[i]) == Some(id.pid)
            &&& process::outermost(table, live, id.pid)
            &&& caller is Some ==> process::ancestor(table, id.pid, caller->0)
        }),
{
    let id = runtime::identity_of(endpoint, pane, info, table, caller)->Ok_0;
    let listed = runtime::foreground(info)->0;
    process::law_launch_is_outermost(table, runtime::candidates(listed), id.pid);
    law_candidates_are_the_agents(listed, id.pid);
}

// ---------------------------------------------------------------------------
// When an agent is found
// ---------------------------------------------------------------------------

/// A path goes by what stands behind its last slash; slashes and dots at its end do not matter.
pub proof fn law_path_goes_by_its_last_name(dir: Seq<char>, name: Seq<char>)
    requires
        !name.contains('/'),
        name.len() > 0,
        name != seq!['.'],
    ensures
        runtime::names_agent(name) <==> name == "devin"@,
        runtime::names_agent(dir + seq!['/'] + name) <==> name == "devin"@,
        runtime::names_agent(dir + seq!['/']) == runtime::names_agent(dir),
        runtime::names_agent(dir + seq!['/', '.']) == runtime::names_agent(dir),
        !runtime::names_agent(Seq::empty()),
        !runtime::names_agent(seq!['.']),
{
    let nothing = Seq::<char>::empty();
    let dot = seq!['.'];
    text::law_marks_part(name, nothing, '/');
    text::law_marks_part(dir, name, '/');
    text::law_marks_part(dir, nothing, '/');
    text::law_marks_part(dir, dot, '/');
    text::law_marks_part(nothing, nothing, '/');
    assert(!dot.contains('/')) by {
        assert(forall|i: int| 0 <= i < dot.len() ==> dot[i] == '.');
    }
    text::law_marks_part(dot, nothing, '/');
    let parts = text::split(dir, '/');
    assert(dir + seq!['/'] + nothing =~= dir + seq!['/']);
    assert(dir + seq!['/'] + dot =~= dir + seq!['/', '.']);
    assert((parts + seq![name]).last() == name);
    assert((parts + seq![nothing]).drop_last() =~= parts);
    assert((parts + seq![dot]).drop_last() =~= parts);
    assert((parts + seq![nothing]).last() == nothing);
    assert((parts + seq![dot]).last() == dot);
    assert(seq![nothing].drop_last() =~= Seq::empty());
    assert(seq![dot].drop_last() =~= Seq::empty());
    assert(seq![name].last() == name);
    reveal_with_fuel(runtime::last_name, 3);
}

/// Whether the member `key` of `p` is a path that goes by the name of the agent.
pub open spec fn goes_by(p: json::JsonTree, key: Seq<char>) -> bool {
    p.member(key) matches json::JsonTree::Text(path) && runtime::names_agent(path)
}

/// Whether `listed` holds the agent under the number `pid`, and the system lists that number. A number is
/// kept in thirty-two bits.
pub open spec fn runs(listed: Seq<json::JsonTree>, table: Map<u32, Process>, pid: u32) -> bool {
    &&& table.dom().contains(pid)
    &&& exists|i: int|
        0 <= i < listed.len() && (goes_by(#[trigger] listed[i], "name"@) || goes_by(
            listed[i],
            "argv0"@,
        )) && (listed[i].member("pid"@).unsigned() matches Some(n) && n % 0x1_0000_0000 == pid)
}

/// Whether `pid` runs and no line of parents leads up from it to another that runs.
pub open spec fn runs_outermost(
    listed: Seq<json::JsonTree>,
    table: Map<u32, Process>,
    pid: u32,
) -> bool {
    &&& runs(listed, table, pid)
    &&& forall|other: u32|
        other != pid && #[trigger] runs(listed, table, other) ==> !process::leads_up(
            table,
            pid,
            other,
        )
}

/// Whether the member `key` is a text that is not empty.
pub open spec fn names(v: json::JsonTree, key: Seq<char>) -> bool {
    v.member(key) matches json::JsonTree::Text(t) && t.len() > 0
}

/// The candidates that are running are those that run.
proof fn lemma_runs(listed: Seq<json::JsonTree>, table: Map<u32, Process>, pid: u32)
    ensures
        runs(listed, table, pid) <==> table.dom().contains(pid) && runtime::candidates(
            listed,
        ).contains(pid),
{
    law_candidates_are_the_agents(listed, pid);
    law_path_goes_by_its_last_name(Seq::empty(), seq!['x']);
    if exists|i: int|
        0 <= i < listed.len() && runtime::candidate(#[trigger] listed[i]) == Some(pid) {
        let i = choose|i: int|
            0 <= i < listed.len() && runtime::candidate(#[trigger] listed[i]) == Some(pid);
        assert(goes_by(listed[i], "name"@) || goes_by(listed[i], "argv0"@));
    }
    if runs(listed, table, pid) {
        let i = choose|i: int|
            0 <= i < listed.len() && (goes_by(#[trigger] listed[i], "name"@) || goes_by(
                listed[i],
                "argv0"@,
            )) && (listed[i].member("pid"@).unsigned() matches Some(n) && n % 0x1_0000_0000
                == pid);
        assert(runtime::candidate(listed[i]) == Some(pid));
    }
}

/// What a filter leaves of numbers in order is in order.
proof fn lemma_filter_in_order(s: Seq<u32>, wanted: spec_fn(u32) -> bool)
    requires
        in_order(s),
    ensures
        in_order(s.filter(wanted)),
    decreases s.len(),
{
    reveal(Seq::filter);
    if s.len() > 0 {
        let front = s.drop_last();
        lemma_filter_in_order(front, wanted);
        let r = s.filter(wanted);
        assert forall|i: int, j: int| 0 <= i < j < r.len() implies #[trigger] r[i]
            < #[trigger] r[j] by {
            let f = front.filter(wanted);
            if j == f.len() {
                process::lemma_filter_from(front, wanted, i);
                let k = choose|k: int| 0 <= k < front.len() && front[k] == f[i];
                assert(s[k] < s[s.len() - 1]);
            }
        }
    }
}

/// The processes that are found are those that run outermost, each once.
proof fn lemma_roots(listed: Seq<json::JsonTree>, table: Map<u32, Process>)
    ensures
        ({
            let found = process::roots(table, runtime::candidates(listed));
            &&& in_order(found)
            &&& forall|pid: u32|
                #[trigger] runs_outermost(listed, table, pid) <==> found.contains(pid)
        }),
{
    let candidates = runtime::candidates(listed);
    let live = process::running(table, candidates);
    let found = process::roots(table, candidates);
    law_candidates_are_the_agents(listed, 0);
    lemma_filter_in_order(candidates, |pid: u32| table.dom().contains(pid));
    lemma_filter_in_order(live, |pid: u32| process::outermost(table, live, pid));
    assert forall|pid: u32| #[trigger]
        runs_outermost(listed, table, pid) <==> found.contains(pid) by {
        process::law_roots_are_below_no_other(table, candidates, pid);
        lemma_runs(listed, table, pid);
        if runs_outermost(listed, table, pid) {
            assert forall|other: u32|
                #![trigger candidates.contains(other)]
                other != pid && candidates.contains(other) && table.dom().contains(
                    other,
                ) implies !process::leads_up(table, pid, other) by {
                lemma_runs(listed, table, other);
            }
        }
        if process::is_root(table, candidates, pid) {
            assert forall|other: u32| other != pid && #[trigger]
                runs(listed, table, other) implies !process::leads_up(table, pid, other) by {
                lemma_runs(listed, table, other);
            }
        }
    }
}

/// A valid pane is never refused: where it names the agent, its session is the agent's own, the pane, its
/// terminal and its session are named, exactly one process runs outermost, and that is the caller or a
/// line of parents leads up to it from there, the parent of the caller among them, then it is found, as
/// that process and under these names.
pub proof fn law_valid_pane_is_not_refused(
    endpoint: Seq<char>,
    pane: json::JsonTree,
    info: json::JsonTree,
    table: Map<u32, Process>,
    caller: Option<u32>,
    listed: Seq<json::JsonTree>,
    pid: u32,
)
    requires
        pane.member("agent"@) == json::JsonTree::Text("devin"@),
        pane.member("agent_session"@).member("agent"@) == json::JsonTree::Text("devin"@),
        pane.member("agent_session"@).member("kind"@) == json::JsonTree::Text("id"@),
        pane.member("agent_session"@).member("source"@) == json::JsonTree::Text("herdr:devin"@),
        names(pane, "pane_id"@),
        names(pane, "terminal_id"@),
        names(pane.member("agent_session"@), "value"@),
        info.member("process_info"@).member("foreground_processes"@) == json::JsonTree::List(
            listed,
        ),
        runs_outermost(listed, table, pid),
        forall|other: u32| #[trigger] runs_outermost(listed, table, other) ==> other == pid,
        caller is Some ==> process::leads_up(table, caller->0, pid),
    ensures
        ({
            let r = runtime::identity_of(endpoint, pane, info, table, caller);
            &&& r is Ok
            &&& r->Ok_0.pid == pid
            &&& r->Ok_0.started == table[pid].started@
            &&& r->Ok_0.endpoint == endpoint
            &&& r->Ok_0.agent == "devin"@
            &&& json::JsonTree::Text(r->Ok_0.terminal) == pane.member("terminal_id"@)
            &&& json::JsonTree::Text(r->Ok_0.session) == pane.member("agent_session"@).member(
                "value"@,
            )
        }),
{
    reveal_strlit("devin");
    let found = process::roots(table, runtime::candidates(listed));
    lemma_roots(listed, table);
    assert(found.contains(pid));
    assert(found.len() == 1) by {
        if found.len() > 1 {
            assert(found.contains(found[0]) && found.contains(found[1]));
            assert(runs_outermost(listed, table, found[0]));
            assert(runs_outermost(listed, table, found[1]));
            assert(found[0] < found[1]);
        }
    }
    assert(found[0] == pid);
    if caller is Some {
        process::law_ancestors_are_at_the_end_of_a_line(table, pid, caller->0);
    }
}

/// What is found names a valid pane: every condition of a valid pane holds of it.
pub proof fn law_only_valid_panes_are_found(
    endpoint: Seq<char>,
    pane: json::JsonTree,
    info: json::JsonTree,
    table: Map<u32, Process>,
    caller: Option<u32>,
)
    requires
        runtime::identity_of(endpoint, pane, info, table, caller) is Ok,
    ensures
        ({
            let id = runtime::identity_of(endpoint, pane, info, table, caller)->Ok_0;
            let session = pane.member("agent_session"@);
            let listed = info.member("process_info"@).member("foreground_processes"@);
            &&& pane.member("agent"@) == json::JsonTree::Text("devin"@)
            &&& session.member("agent"@) == json::JsonTree::Text("devin"@)
            &&& session.member("kind"@) == json::JsonTree::Text("id"@)
            &&& session.member("source"@) == json::JsonTree::Text("herdr:devin"@)
            &&& names(pane, "pane_id"@) && names(pane, "terminal_id"@) && names(session, "value"@)
            &&& listed is List
            &&& runs_outermost(listed->List_0, table, id.pid)
            &&& forall|other: u32| #[trigger]
                runs_outermost(listed->List_0, table, other) ==> other == id.pid
            &&& caller is Some ==> process::leads_up(table, caller->0, id.pid)
        }),
{
    let id = runtime::identity_of(endpoint, pane, info, table, caller)->Ok_0;
    let listed = runtime::foreground(info)->0;
    let found = process::roots(table, runtime::candidates(listed));
    lemma_roots(listed, table);
    assert(found.contains(found[0]));
    assert(runs_outermost(listed, table, id.pid));
    assert forall|other: u32| #[trigger] runs_outermost(listed, table, other) implies other
        == id.pid by {
        assert(found.contains(other));
    }
    if caller is Some {
        process::law_ancestors_are_at_the_end_of_a_line(table, id.pid, caller->0);
    }
}

/// Which complaint an invalid pane gets: the first condition that fails is named.
pub proof fn law_invalid_pane_is_told_why(
    endpoint: Seq<char>,
    pane: json::JsonTree,
    info: json::JsonTree,
    table: Map<u32, Process>,
    caller: Option<u32>,
)
    ensures
        ({
            let r = runtime::identity_of(endpoint, pane, info, table, caller);
            let session = pane.member("agent_session"@);
            let own = session.member("agent"@) == json::JsonTree::Text("devin"@) && session.member(
                "kind"@,
            ) == json::JsonTree::Text("id"@) && session.member("source"@) == json::JsonTree::Text(
                "herdr:devin"@,
            );
            let agent = pane.member("agent"@) == json::JsonTree::Text("devin"@);
            let pane_named = agent && own && names(pane, "pane_id"@);
            let listed = info.member("process_info"@).member("foreground_processes"@);
            &&& !names(pane, "agent"@) ==> r == Err::<state::IdentityView, runtime::RuntimeFault>(
                runtime::RuntimeFault::Missing("agent"@),
            )
            &&& names(pane, "agent"@) && !agent ==> r == Err::<state::IdentityView, runtime::RuntimeFault>(
                runtime::RuntimeFault::WrongAgent(pane.member("agent"@)->Text_0),
            )
            &&& agent && !own ==> r == Err::<state::IdentityView, runtime::RuntimeFault>(
                runtime::RuntimeFault::NoSession,
            )
            &&& agent && own && !names(pane, "pane_id"@) ==> r == Err::<
                state::IdentityView,
                runtime::RuntimeFault,
            >(runtime::RuntimeFault::Missing("pane_id"@))
            &&& pane_named && !(listed is List) ==> r == Err::<state::IdentityView, runtime::RuntimeFault>(
                runtime::RuntimeFault::NoForeground,
            )
            &&& pane_named && listed is List && (forall|pid: u32|
                !#[trigger] runs_outermost(listed->List_0, table, pid)) ==> r == Err::<
                state::IdentityView,
                runtime::RuntimeFault,
            >(runtime::RuntimeFault::Process(ProcessError::NotRunning))
            &&& pane_named && listed is List && (exists|a: u32, b: u32|
                a != b && #[trigger] runs_outermost(listed->List_0, table, a)
                    && #[trigger] runs_outermost(listed->List_0, table, b)) ==> r == Err::<
                state::IdentityView,
                runtime::RuntimeFault,
            >(runtime::RuntimeFault::Process(ProcessError::Ambiguous))
            &&& r == Err::<state::IdentityView, runtime::RuntimeFault>(runtime::RuntimeFault::NotDescendant)
                ==> caller is Some && listed is List && exists|pid: u32|
                #[trigger] runs_outermost(listed->List_0, table, pid) && !process::leads_up(
                    table,
                    caller->0,
                    pid,
                )
        }),
{
    reveal_strlit("devin");
    let listed = info.member("process_info"@).member("foreground_processes"@)->List_0;
    let found = process::roots(table, runtime::candidates(listed));
    lemma_roots(listed, table);
    if found.len() > 0 {
        assert(found.contains(found[0]));
        assert(runs_outermost(listed, table, found[0]));
        if caller is Some {
            process::law_ancestors_are_at_the_end_of_a_line(table, found[0], caller->0);
        }
    }
    assert forall|a: u32, b: u32|
        a != b && #[trigger] runs_outermost(listed, table, a) && #[trigger] runs_outermost(
            listed,
            table,
            b,
        ) implies found.len() > 1 by {
        let i = choose|i: int| 0 <= i < found.len() && found[i] == a;
        let j = choose|j: int| 0 <= j < found.len() && found[j] == b;
        assert(found.contains(a) && found.contains(b));
        assert(i != j);
    }
}

// ---------------------------------------------------------------------------
// Commands and answers
// ---------------------------------------------------------------------------

/// A command that has ended is never stopped, and one that has not is waited for less than four seconds.
pub proof fn law_commands_are_stopped_late(ended: bool, waited: u64)
    ensures
        runtime::wait_after(ended, waited) == Wait::Collect <==> ended,
        runtime::wait_after(ended, waited) == Wait::Kill <==> !ended && waited >= 4000,
{
}

/// What a command said counts only where it succeeded, and then as it is; where it failed, what it
/// complained of is told, without the white space around it.
pub proof fn law_what_a_command_said(said: Seq<char>, reason: Seq<char>, stderr: Seq<char>)
    ensures
        runtime::output_of(true, Ok(said), stderr) == Ok::<Seq<char>, runtime::RuntimeFault>(said),
        runtime::output_of(true, Err(reason), stderr) == Err::<Seq<char>, runtime::RuntimeFault>(
            runtime::RuntimeFault::Unreadable(reason),
        ),
        runtime::output_of(false, Ok(said), stderr) == Err::<Seq<char>, runtime::RuntimeFault>(
            runtime::RuntimeFault::CommandFailed(text::trim(stderr)),
        ),
        runtime::output_of(false, Err(reason), stderr) == Err::<Seq<char>, runtime::RuntimeFault>(
            runtime::RuntimeFault::CommandFailed(text::trim(stderr)),
        ),
{
}

/// What an answer of Herdr holds: silence is an answer to metadata alone; otherwise it is JSON, an error
/// in it is a failure, even one that is null, and its result is the answer.
pub proof fn law_what_is_answered(args: Seq<Seq<char>>, said: Seq<char>)
    ensures
        ({
            let silent = args.len() >= 2 && args[0] == "pane"@ && args[1] == "report-metadata"@
                && text::trim(said).len() == 0;
            let r = runtime::answer(args, said);
            let parsed = json::json_parsed(said);
            &&& silent ==> r is Ok && r->Ok_0.member("type"@) == json::JsonTree::Text("ok"@)
            &&& !silent && parsed is Err ==> r == Err::<json::JsonTree, runtime::RuntimeFault>(
                runtime::RuntimeFault::NotJson(parsed->Err_0),
            )
            &&& !silent && parsed is Ok && parsed->Ok_0.has("error"@) ==> r == Err::<
                json::JsonTree,
                runtime::RuntimeFault,
            >(
                runtime::RuntimeFault::Api(
                    json::json_written(json::normal(parsed->Ok_0.member("error"@))),
                ),
            )
            &&& !silent && parsed is Ok && !parsed->Ok_0.has("error"@) ==> r == Ok::<
                json::JsonTree,
                runtime::RuntimeFault,
            >(parsed->Ok_0.member("result"@))
        }),
{
    let s = runtime::acknowledged()->Object_0;
    tree::lemma_position_is(s, "type"@, 0);
}

/// An agent still runs only where the one that is found is the same in every part.
pub proof fn law_agent_is_recognised_in_every_part(
    id: state::IdentityView,
    fresh: Option<state::IdentityView>,
)
    ensures
        runtime::still_runs(id, fresh) <==> fresh is Some && fresh->0.endpoint == id.endpoint
            && fresh->0.terminal == id.terminal && fresh->0.session == id.session
            && fresh->0.agent == id.agent && fresh->0.pid == id.pid && fresh->0.started
            == id.started,
{
}

/// Seconds are kept as they are, as a number of sixty-four bits with a sign.
pub proof fn law_seconds_are_kept(seconds: u64)
    ensures
        runtime::kept_seconds(None) == 0,
        i64::MIN <= runtime::kept_seconds(Some(seconds)) <= i64::MAX,
        runtime::kept_seconds(Some(seconds)) == seconds || runtime::kept_seconds(Some(seconds))
            + 0x1_0000_0000_0000_0000 == seconds,
{
}

/// A caller runs in a pane only where its environment says both that it is inside of Herdr and which pane
/// it is.
pub proof fn law_callers_name_their_pane(herdr_env: Seq<char>, pane: bool)
    ensures
        !runtime::in_pane(None, pane),
        runtime::in_pane(Some(herdr_env), pane) <==> herdr_env == "1"@ && pane,
{
}

/// A socket that was replaced is noticed, whatever part of its identity differs.
pub proof fn law_replaced_socket_is_noticed(a: SocketInfo, b: SocketInfo)
    ensures
        runtime::same_endpoint(a.identity(), b.identity()) <==> a.path@ == b.path@ && a.device
            == b.device && a.inode == b.inode && a.changed == b.changed && a.changed_nanos
            == b.changed_nanos,
{
    if a.identity() == b.identity() {
        law_endpoint_tells_sockets_apart(a, b);
    }
}

} // verus!
