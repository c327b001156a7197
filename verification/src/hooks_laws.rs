//! What holds of everything that an agent is told, and of when it is.
use vstd::prelude::*;

use crate::hooks;
use crate::hooks::{Event, HookError, Search, INSTRUCTIONS};
use crate::json;
use crate::number;
use crate::paths;
use crate::runtime;
use crate::runtime::RuntimeError;
use crate::shell;
use crate::state;
use crate::text;
use crate::tree;

verus! {

// ---------------------------------------------------------------------------
// When an agent is told something
// ---------------------------------------------------------------------------

/// A report is due exactly where nothing was said for a minute and either there is no task, or there is
/// one that is not cleared, is short of a hundred, and was not reported on for a minute, if ever.
pub proof fn law_when_a_report_is_due(s: state::SlotView, now: i64)
    ensures
        hooks::due(s, now) <==> {
            &&& now - s.reminded_at >= 60
            &&& s.task is Some ==> {
                &&& !s.task->0.cleared
                &&& s.task->0.percent != Some(100u8)
                &&& s.task->0.reported_at is Some ==> now - s.task->0.reported_at->0 >= 60
            }
        },
{
}

/// What was said is noted with its time; a slot whose agent was told nothing stays as it is, and nothing
/// else of a slot ever changes by it.
pub proof fn law_what_is_said_is_noted(s: state::SlotView, told: bool, now: i64)
    ensures
        ({
            let after = hooks::noted(s, told, now);
            &&& told ==> after.reminded_at == now
            &&& !told ==> after == s
            &&& after.identity == s.identity && after.binding == s.binding && after.revoked
                == s.revoked && after.task == s.task && after.published == s.published
        }),
{
}

/// An event counts exactly where its kind is one of the four, unless a tool was used and what it was
/// given names the program that reports progress.
pub proof fn law_which_events_count(event: json::JsonTree)
    ensures
        ({
            let kind = event.member("hook_event_name"@);
            let reporter = text::occurs(
                json::json_written(json::normal(event.member("tool_input"@))),
                "herdr-progress"@,
            );
            hooks::counts(event) <==> {
                ||| kind == json::JsonTree::Text("SessionStart"@)
                ||| kind == json::JsonTree::Text("PostCompaction"@)
                ||| kind == json::JsonTree::Text("UserPromptSubmit"@)
                ||| kind == json::JsonTree::Text("PostToolUse"@) && !reporter
            }
        }),
{
    lemma_kinds();
}

/// The kinds of events differ, and none is empty.
proof fn lemma_kinds()
    ensures
        "PostToolUse"@.len() == 11,
        "SessionStart"@.len() == 12,
        "PostCompaction"@.len() == 14,
        "UserPromptSubmit"@.len() == 16,
{
    reveal_strlit("PostToolUse");
    reveal_strlit("SessionStart");
    reveal_strlit("PostCompaction");
    reveal_strlit("UserPromptSubmit");
}

/// An event that counts is read as what it says: its kind and its session, both as they are given. One
/// without a session is refused, and one that does not count is passed over.
pub proof fn law_events_are_read_as_they_are(
    event: json::JsonTree,
    r: Result<Option<Event>, RuntimeError>,
)
    requires
        hooks::event_result(event, r),
    ensures
        !hooks::counts(event) ==> r is Ok && r->Ok_0 is None,
        hooks::counts(event) ==> ({
            let session = event.member("session_id"@);
            let named = session is Text && session->Text_0.len() > 0;
            &&& named <==> r is Ok
            &&& named ==> r->Ok_0 is Some && json::JsonTree::Text(r->Ok_0->0.session@) == session
                && json::JsonTree::Text(r->Ok_0->0.kind@) == event.member("hook_event_name"@)
            &&& !named ==> r->Err_0@ == runtime::RuntimeFault::Missing("session_id"@)
        }),
{
}

/// A hook works for the agent of its own session only.
pub proof fn law_hook_is_of_its_session(identity: state::IdentityView, session: Seq<char>)
    ensures
        hooks::session_fault(identity, session) is None <==> identity.agent == "devin"@
            && identity.session == session,
        hooks::session_fault(identity, session) is Some ==> hooks::session_fault(identity, session)
            == Some(HookError::WrongSession),
{
}

/// The agent is looked for again only at the start of a session, and for less than two seconds.
pub proof fn law_search_ends(kind: Seq<char>, found: bool, waited: u64)
    ensures
        hooks::search_after(kind, found, waited) == Search::Found <==> found,
        hooks::search_after(kind, found, waited) == Search::Again <==> !found && kind
            == "SessionStart"@ && waited < 2000,
{
}

/// A hook does its work exactly where the agent is still the one that it was, in every part, and either a
/// session starts or what is kept for its terminal is that agent's and is not revoked.
pub proof fn law_hook_fails_only_for_cause(
    kind: Seq<char>,
    before: state::IdentityView,
    after: state::IdentityView,
    found: Option<state::SlotView>,
)
    ensures
        ({
            let own = found is Some && !found->0.revoked && found->0.identity == before;
            let fault = hooks::run_fault(kind, before, after, found);
            &&& fault is None <==> before == after && (kind == "SessionStart"@ || own)
            &&& before != after ==> fault == Some(HookError::LaunchChanged)
            &&& before == after && kind != "SessionStart"@ && found is None ==> fault == Some(
                HookError::NoBinding,
            )
            &&& before == after && kind != "SessionStart"@ && found is Some && !own ==> fault
                == Some(HookError::Obsolete)
        }),
{
}

/// The slot that a hook works on is the one that is kept, as it is, where it is the agent's own and in use;
/// otherwise it is a new one for the agent, and only the start of a session makes one.
pub proof fn law_hook_works_on_the_agents_slot(
    kind: Seq<char>,
    found: Option<state::SlotView>,
    identity: state::IdentityView,
    slot: state::SlotView,
    new: bool,
)
    requires
        hooks::taken_up(kind, found, identity, slot, new),
    ensures
        ({
            let own = found is Some && !found->0.revoked && found->0.identity == identity;
            &&& new <==> !own
            &&& own ==> slot == found->0
            &&& new ==> kind == "SessionStart"@ && state::is_id(slot.binding) && !slot.revoked
                && slot.reminded_at == 0 && slot.published.len() == 0
            &&& slot.identity == identity
        }),
{
}

// ---------------------------------------------------------------------------
// What an agent is told
// ---------------------------------------------------------------------------

/// What stands at the end of a text stands in it, and still does where more follows.
pub proof fn lemma_occurs(before: Seq<char>, part: Seq<char>, more: Seq<char>)
    ensures
        text::occurs(before + part, part),
        text::occurs(before, more) ==> text::occurs(before + part, more),
{
    let s = before + part;
    assert(s.subrange(before.len() as int, s.len() as int) =~= part);
    assert(text::occurs_at(s, part, before.len() as int));
    if text::occurs(before, more) {
        let i = choose|i: int| text::occurs_at(before, more, i);
        assert(s.subrange(i, i + more.len()) =~= before.subrange(i, i + more.len()));
        assert(text::occurs_at(s, more, i));
    }
}

/// Four parts behind a text, one by one or as one.
proof fn lemma_four(p: Seq<char>, a: Seq<char>, b: Seq<char>, c: Seq<char>, d: Seq<char>)
    ensures
        p + a + b + c + d == p + (a + b + c + d),
{
    assert(p + a + b + c + d =~= p + (a + b + c + d));
}

/// Six parts behind a text, one by one or as one.
proof fn lemma_six(
    p: Seq<char>,
    a: Seq<char>,
    b: Seq<char>,
    c: Seq<char>,
    d: Seq<char>,
    e: Seq<char>,
    f: Seq<char>,
)
    ensures
        p + a + b + c + d + e + f == p + (a + b + c + d + e + f),
{
    lemma_four(p, a, b, c, d);
    let q = a + b + c + d;
    assert(p + q + e + f =~= p + (q + e + f));
}

/// What an agent is told when it is bound starts with the instructions, and holds its binding, the state
/// of its task, and each of the six commands, on a line of its own, with the path of the program, the
/// binding and, to begin a task, the identifier of the current one or the word "none".
pub proof fn law_context_holds_all_commands(s: state::SlotView, config: Seq<char>)
    ensures
        ({
            let told = hooks::context_text(s, config);
            let exe = shell::quoted(paths::joined_path(config, "herdr-progress"@));
            let task = match s.task {
                Some(t) => t.id,
                None => "none"@,
            };
            &&& INSTRUCTIONS@.len() <= told.len()
            &&& told.take(INSTRUCTIONS@.len() as int) == INSTRUCTIONS@
            &&& text::occurs(told, "\n\nVerified binding: "@ + s.binding + "\nCurrent state: "@
                + hooks::task_written(s.task))
            &&& text::occurs(told, exe + " context --binding "@ + s.binding + "\n"@)
            &&& text::occurs(told, exe + " begin --binding "@ + s.binding + " --expected-task "@
                + task + " --title 'Task title'\n"@)
            &&& text::occurs(told, exe + " report --binding "@ + s.binding
                + " --task TASK_ID --percent 25 --activity 'Reading code'\n"@)
            &&& text::occurs(told, exe + " report --binding "@ + s.binding
                + " --task TASK_ID --unknown --activity 'Assessing task'\n"@)
            &&& text::occurs(told, exe + " status --binding "@ + s.binding + "\n"@)
            &&& text::occurs(told, exe + " clear --binding "@ + s.binding + " --task TASK_ID\n"@)
        }),
{
    let exe = hooks::program(config);
    let b = s.binding;
    let task = state::current(s.task);
    let state = "\n\nVerified binding: "@ + b + "\nCurrent state: "@ + hooks::task_written(s.task);
    let c1 = exe + " context --binding "@ + b + "\n"@;
    let c2 = exe + " begin --binding "@ + b + " --expected-task "@ + task
        + " --title 'Task title'\n"@;
    let c3 = exe + " report --binding "@ + b
        + " --task TASK_ID --percent 25 --activity 'Reading code'\n"@;
    let c4 = exe + " report --binding "@ + b
        + " --task TASK_ID --unknown --activity 'Assessing task'\n"@;
    let c5 = exe + " status --binding "@ + b + "\n"@;
    let c6 = exe + " clear --binding "@ + b + " --task TASK_ID\n"@;
    let p0 = INSTRUCTIONS@ + state;
    let p = p0 + "\n\nCommands:\n"@;
    let p1 = p + c1;
    let p2 = p1 + c2;
    let p3 = p2 + c3;
    let p4 = p3 + c4;
    let p5 = p4 + c5;
    let p6 = p5 + c6;
    lemma_four(
        INSTRUCTIONS@,
        "\n\nVerified binding: "@,
        b,
        "\nCurrent state: "@,
        hooks::task_written(s.task),
    );
    lemma_four(p, exe, " context --binding "@, b, "\n"@);
    lemma_six(
        p1,
        exe,
        " begin --binding "@,
        b,
        " --expected-task "@,
        task,
        " --title 'Task title'\n"@,
    );
    lemma_four(
        p2,
        exe,
        " report --binding "@,
        b,
        " --task TASK_ID --percent 25 --activity 'Reading code'\n"@,
    );
    lemma_four(
        p3,
        exe,
        " report --binding "@,
        b,
        " --task TASK_ID --unknown --activity 'Assessing task'\n"@,
    );
    lemma_four(p4, exe, " status --binding "@, b, "\n"@);
    lemma_four(p5, exe, " clear --binding "@, b, " --task TASK_ID\n"@);
    assert(hooks::context_text(s, config) == p6);
    lemma_occurs(INSTRUCTIONS@, state, state);
    lemma_occurs(p0, "\n\nCommands:\n"@, state);
    lemma_occurs(p, c1, state);
    lemma_occurs(p1, c2, state);
    lemma_occurs(p2, c3, state);
    lemma_occurs(p3, c4, state);
    lemma_occurs(p4, c5, state);
    lemma_occurs(p5, c6, state);
    lemma_occurs(p1, c2, c1);
    lemma_occurs(p2, c3, c1);
    lemma_occurs(p3, c4, c1);
    lemma_occurs(p4, c5, c1);
    lemma_occurs(p5, c6, c1);
    lemma_occurs(p2, c3, c2);
    lemma_occurs(p3, c4, c2);
    lemma_occurs(p4, c5, c2);
    lemma_occurs(p5, c6, c2);
    lemma_occurs(p3, c4, c3);
    lemma_occurs(p4, c5, c3);
    lemma_occurs(p5, c6, c3);
    lemma_occurs(p4, c5, c4);
    lemma_occurs(p5, c6, c4);
    lemma_occurs(p5, c6, c5);
    lemma_starts(INSTRUCTIONS@, state, "\n\nCommands:\n"@, c1, c2, c3, c4, c5, c6);
}

/// A text starts with what stands first in it.
proof fn lemma_starts(
    s: Seq<char>,
    a: Seq<char>,
    b: Seq<char>,
    c: Seq<char>,
    d: Seq<char>,
    e: Seq<char>,
    f: Seq<char>,
    g: Seq<char>,
    h: Seq<char>,
)
    ensures
        (s + a + b + c + d + e + f + g + h).take(s.len() as int) == s,
        s.len() <= (s + a + b + c + d + e + f + g + h).len(),
{
    let t = s + a + b + c + d;
    assert(t.take(s.len() as int) =~= s);
    assert((t + e + f + g + h).take(s.len() as int) =~= t.take(s.len() as int));
}

/// Wherever an agent is told something, it is told how to read its bound context: the program, its
/// command and the agent's own binding; and at a request of its user also the state of its task.
pub proof fn law_every_message_names_the_bound_context(
    kind: Seq<char>,
    s: state::SlotView,
    config: Seq<char>,
    now: i64,
)
    requires
        hooks::told(kind, s, config, now) is Some,
    ensures
        ({
            let told = hooks::told(kind, s, config, now)->0;
            let exe = shell::quoted(paths::joined_path(config, "herdr-progress"@));
            &&& text::occurs(told, exe + " context --binding "@ + s.binding)
            &&& kind == "UserPromptSubmit"@ ==> text::occurs(told, hooks::task_written(s.task))
        }),
{
    let exe = hooks::program(config);
    let line = exe + " context --binding "@ + s.binding;
    if kind == "SessionStart"@ || kind == "PostCompaction"@ {
        law_context_holds_all_commands(s, config);
        let told = hooks::context_text(s, config);
        let full = line + "\n"@;
        let i = choose|i: int| text::occurs_at(told, full, i);
        assert(told.subrange(i, i + line.len()) =~= full.take(line.len() as int)) by {
            assert(told.subrange(i, i + full.len()).take(line.len() as int) =~= told.subrange(
                i,
                i + line.len(),
            ));
        }
        assert(full.take(line.len() as int) =~= line);
        assert(text::occurs_at(told, line, i));
        lemma_kinds();
    } else if kind == "UserPromptSubmit"@ {
        let told = hooks::request_text(s, config);
        let lead =
            "Before task tools or a blocking clarification question, check whether this request starts genuinely new work. If so, begin a new generation using the observed current ID; a previous 100% must not describe new work. For continuation, reuse the existing generation. Then report an estimate or --unknown activity before waiting for the user, for example 'Waiting for you'. Current task: "@;
        let task = hooks::task_written(s.task);
        let p = lead + task + ". Bound context: "@;
        assert(p + exe + " context --binding "@ + s.binding =~= p + line);
        lemma_occurs(p, line, line);
        lemma_occurs(lead, task, task);
        lemma_occurs(lead + task, ". Bound context: "@, task);
        lemma_occurs(p, line, task);
    } else {
        let lead =
            "Progress check-in is due if this is a natural boundary. Reassess the current task; do not invent progress. "@;
        assert(lead + exe + " context --binding "@ + s.binding =~= lead + line);
        lemma_occurs(lead, line, line);
    }
}

/// What is told stands in the answer of a hook as it is, under the kind of its event.
pub proof fn law_answer_holds_what_is_told(kind: Seq<char>, told: Seq<char>)
    ensures
        ({
            let inner = hooks::answer_tree(kind, told).member("hookSpecificOutput"@);
            &&& inner.member("hookEventName"@) == json::JsonTree::Text(kind)
            &&& inner.member("additionalContext"@) == json::JsonTree::Text(told)
        }),
{
    let outer = hooks::answer_tree(kind, told)->Object_0;
    let inner = outer[0].1->Object_0;
    reveal_strlit("hookEventName");
    reveal_strlit("additionalContext");
    assert("hookEventName"@.len() == 13 && "additionalContext"@.len() == 17);
    tree::lemma_position_is(outer, "hookSpecificOutput"@, 0);
    tree::lemma_position_is(inner, "hookEventName"@, 0);
    tree::lemma_position_is(inner, "additionalContext"@, 1);
}

/// A task is written in full, each part behind its name, what is not known as null.
pub proof fn law_task_is_written_in_full(t: state::TaskView)
    ensures
        ({
            let told = hooks::task_written(Some(t));
            let percent = match t.percent {
                Some(p) => number::decimal(p as int),
                None => "null"@,
            };
            let at = match t.reported_at {
                Some(at) => number::decimal(at as int),
                None => "null"@,
            };
            let activity = match t.activity {
                Some(a) => json::json_quoted(a),
                None => "null"@,
            };
            &&& text::occurs(told, "{\"id\":"@ + json::json_quoted(t.id))
            &&& text::occurs(told, ",\"title\":"@ + json::json_quoted(t.title))
            &&& text::occurs(told, ",\"percent\":"@ + percent)
            &&& text::occurs(told, ",\"activity\":"@ + activity)
            &&& text::occurs(told, ",\"reported_at\":"@ + at)
            &&& t.cleared ==> text::occurs(told, ",\"cleared\":"@ + "true"@)
            &&& !t.cleared ==> text::occurs(told, ",\"cleared\":"@ + "false"@)
        }),
        hooks::task_written(None) == "null"@,
{
    let percent = hooks::number_or_null(hooks::percent_number(t.percent));
    let at = hooks::number_or_null(hooks::time_number(t.reported_at));
    let activity = json::quoted_or_null(t.activity);
    let cleared = if t.cleared {
        "true"@
    } else {
        "false"@
    };
    let p1 = "{\"id\":"@ + json::json_quoted(t.id);
    let c2 = ",\"title\":"@ + json::json_quoted(t.title);
    let c3 = ",\"percent\":"@ + percent;
    let c4 = ",\"activity\":"@ + activity;
    let c5 = ",\"reported_at\":"@ + at;
    let c6 = ",\"cleared\":"@ + cleared;
    let p2 = p1 + c2;
    let p3 = p2 + c3;
    let p4 = p3 + c4;
    let p5 = p4 + c5;
    let p6 = p5 + c6;
    lemma_two(p1, ",\"title\":"@, json::json_quoted(t.title));
    lemma_two(p2, ",\"percent\":"@, percent);
    lemma_two(p3, ",\"activity\":"@, activity);
    lemma_two(p4, ",\"reported_at\":"@, at);
    lemma_two(p5, ",\"cleared\":"@, cleared);
    assert(hooks::task_written(Some(t)) == p6 + "}"@);
    assert(Seq::<char>::empty() + p1 =~= p1);
    lemma_occurs(Seq::empty(), p1, p1);
    lemma_occurs(p1, c2, p1);
    lemma_occurs(p2, c3, p1);
    lemma_occurs(p3, c4, p1);
    lemma_occurs(p4, c5, p1);
    lemma_occurs(p5, c6, p1);
    lemma_occurs(p6, "}"@, p1);
    lemma_occurs(p2, c3, c2);
    lemma_occurs(p3, c4, c2);
    lemma_occurs(p4, c5, c2);
    lemma_occurs(p5, c6, c2);
    lemma_occurs(p6, "}"@, c2);
    lemma_occurs(p3, c4, c3);
    lemma_occurs(p4, c5, c3);
    lemma_occurs(p5, c6, c3);
    lemma_occurs(p6, "}"@, c3);
    lemma_occurs(p4, c5, c4);
    lemma_occurs(p5, c6, c4);
    lemma_occurs(p6, "}"@, c4);
    lemma_occurs(p5, c6, c5);
    lemma_occurs(p6, "}"@, c5);
    lemma_occurs(p6, "}"@, c6);
}

/// Two parts behind a text, one by one or as one.
proof fn lemma_two(p: Seq<char>, a: Seq<char>, b: Seq<char>)
    ensures
        p + a + b == p + (a + b),
{
    assert(p + a + b =~= p + (a + b));
}

/// A hook does something only inside of Herdr, and only where the plugin is enabled.
pub proof fn law_hooks_are_silent_elsewhere(herdr_env: Seq<char>, enabled: bool)
    ensures
        !hooks::is_active(None, enabled),
        hooks::is_active(Some(herdr_env), enabled) <==> herdr_env == "1"@ && enabled,
{
}

} // verus!
