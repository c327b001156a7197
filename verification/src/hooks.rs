//! The hooks that the agent runs: which events count, and what it is told at them.
use vstd::prelude::*;

use crate::json;
use crate::json::{json_object, json_text, parse_json, quoted, write_json, Json};
use crate::number;
use crate::paths;
use crate::paths::Paths;
use crate::runtime;
use crate::runtime::{string, RuntimeError, AGENT};
use crate::shell;
use crate::shell::quote;
use crate::state;
use crate::state::{bootstrap, same_identity, Identity, Slot, Task};
use crate::text;
use crate::text::{contains, same_text};

verus! {

/// What an agent is told of reporting its progress.
pub const INSTRUCTIONS: &'static str =
    "# Agent progress

When a verified binding is supplied below, report the progress of the user's whole current task through `herdr-progress`. This is your estimate, not a timer or a count of tools. Reporting failures must never stop the actual work. Give one short diagnostic and continue, without retry loops.

Reporting needs access to the local Herdr socket, OS process identity and the plugin's state directory. When Devin CLI's sandbox requires approval for that access, use its normal tool permission request for this reporting command. Never disable the sandbox or bypass hook trust. If permission is denied or requests are unavailable, continue the actual task without progress reporting.

Only the top-level Devin CLI agent that owns this pane reports. Same-pane helpers and subagents must not use or share its binding. Outside Herdr, do nothing.

At genuinely new work, read bound context, then call `begin` with the exact observed task ID, or `none` when no task exists. Do this bookkeeping before task tools or a blocking clarification question, so a prior 100% does not describe new work. Report an initial estimate or unknown activity. This comparison protects against delayed task starts. If it conflicts, re-read context and reconsider which request owns the current task. Never blindly replace the expected ID and retry.

After clarification, continuation or compaction, reuse the existing task ID. Do not start a new task merely because another reply began. If more work is requested after completion, deliberately begin a new generation. Ordinary questions about finished results do not require a task.

Report a rough percentage in five-point increments and a two-to-four-word activity, such as `Reading code`, `Testing changes`, or `Waiting for you`. Revise the estimate downward when you discover more work. Use `--unknown` while the scope is unclear. Activity can change while the percentage stays the same.

Report after meaningful milestones, changes of activity, blockers, and before a substantive reply. During active work, aim for one check-in per minute at a natural tool boundary. Long tools may take longer. Never invent progress to satisfy a timer. Await each reporting command; do not launch competing background reports.

Use 100 only when the entire requested outcome and relevant checks are finished. A tool finishing, a clarification question, or Herdr saying idle/done does not establish completion. Reported 100 displays `Done` and stays complete. Clear only an explicitly cancelled or unwanted task. Stale markers describe the age of your actual last report; rereading context never refreshes it.

The bound command examples below include the executable path, caller binding and current generation. Replace only task-specific arguments. Keep the binding for this live launch. Never discover a binding from the focused pane or borrow another agent's binding.
";

/// Why a hook is of no use.
#[derive(Clone, Copy, Debug, PartialEq, Eq, Structural)]
pub enum HookError {
    /// The agent that runs is not in the session of the hook.
    WrongSession,
    /// Another agent runs than a moment ago.
    LaunchChanged,
    /// No agent is bound.
    NoBinding,
    /// Another agent is bound.
    Obsolete,
}

impl HookError {
    /// What is wrong, in words.
    pub open spec fn message_text(self) -> Seq<char> {
        match self {
            HookError::WrongSession => {
                "Hook session does not match Herdr's official Devin session report"@
            },
            HookError::LaunchChanged => "Agent launch changed while hook waited"@,
            HookError::NoBinding => "SessionStart has not established a progress binding"@,
            HookError::Obsolete => "Hook belongs to an obsolete launch"@,
        }
    }

    /// What is wrong, in words.
    pub fn message(&self) -> (r: String)
        ensures
            r@ == self.message_text(),
    {
        match self {
            HookError::WrongSession => {
                "Hook session does not match Herdr's official Devin session report".to_owned()
            },
            HookError::LaunchChanged => "Agent launch changed while hook waited".to_owned(),
            HookError::NoBinding => {
                "SessionStart has not established a progress binding".to_owned()
            },
            HookError::Obsolete => "Hook belongs to an obsolete launch".to_owned(),
        }
    }
}

// ---------------------------------------------------------------------------
// Tasks as text
// ---------------------------------------------------------------------------

/// A number that may be missing, as JSON writes it.
pub open spec fn number_or_null(n: Option<int>) -> Seq<char> {
    match n {
        Some(n) => number::decimal(n),
        None => "null"@,
    }
}

/// A percentage as a number.
pub open spec fn percent_number(p: Option<u8>) -> Option<int> {
    match p {
        Some(p) => Some(p as int),
        None => None,
    }
}

/// A time as a number.
pub open spec fn time_number(t: Option<i64>) -> Option<int> {
    match t {
        Some(t) => Some(t as int),
        None => None,
    }
}

/// A task that may be missing, as JSON, its parts in the order in which a task has them.
pub open spec fn task_written(task: Option<state::TaskView>) -> Seq<char> {
    match task {
        None => "null"@,
        Some(t) => "{\"id\":"@ + json::json_quoted(t.id) + ",\"title\":"@ + json::json_quoted(
            t.title,
        ) + ",\"percent\":"@ + number_or_null(percent_number(t.percent)) + ",\"activity\":"@
            + json::quoted_or_null(t.activity) + ",\"reported_at\":"@ + number_or_null(
            time_number(t.reported_at),
        ) + ",\"cleared\":"@ + (if t.cleared {
            "true"@
        } else {
            "false"@
        }) + "}"@,
    }
}

/// A task that may be missing, as JSON.
pub fn task_json(task: &Option<Task>) -> (r: String)
    ensures
        r@ == task_written(state::task_view(*task)),
{
    match task {
        None => "null".to_owned(),
        Some(t) => {
            let mut r = "{\"id\":".to_owned();
            r.append(quoted(t.id.as_str()).as_str());
            r.append(",\"title\":");
            r.append(quoted(t.title.as_str()).as_str());
            r.append(",\"percent\":");
            match t.percent {
                Some(p) => r.append(number::write_unsigned(p as u64).as_str()),
                None => r.append("null"),
            }
            r.append(",\"activity\":");
            match &t.activity {
                Some(a) => r.append(quoted(a.as_str()).as_str()),
                None => r.append("null"),
            }
            r.append(",\"reported_at\":");
            match t.reported_at {
                Some(at) => r.append(number::write_signed(at).as_str()),
                None => r.append("null"),
            }
            r.append(",\"cleared\":");
            r.append(
                if t.cleared {
                    "true"
                } else {
                    "false"
                },
            );
            r.append("}");
            r
        },
    }
}

// ---------------------------------------------------------------------------
// What the agent is told
// ---------------------------------------------------------------------------

/// The program that agents call, as a word of a shell command.
pub open spec fn program(config: Seq<char>) -> Seq<char> {
    shell::quoted(paths::joined_path(config, "herdr-progress"@))
}

/// The program that agents call, as a word of a shell command.
fn program_word(paths: &Paths) -> (r: String)
    ensures
        r@ == program(paths.config@),
{
    quote(paths.launcher().as_str())
}

/// What an agent is told when it is bound: how to report, its binding, its task, and the commands.
pub open spec fn context_text(s: state::SlotView, config: Seq<char>) -> Seq<char> {
    let exe = program(config);
    let binding = s.binding;
    INSTRUCTIONS@ + "\n\nVerified binding: "@ + binding + "\nCurrent state: "@ + task_written(
        s.task,
    ) + "\n\nCommands:\n"@ + exe + " context --binding "@ + binding + "\n"@ + exe
        + " begin --binding "@ + binding + " --expected-task "@ + state::current(s.task)
        + " --title 'Task title'\n"@ + exe + " report --binding "@ + binding
        + " --task TASK_ID --percent 25 --activity 'Reading code'\n"@ + exe
        + " report --binding "@ + binding
        + " --task TASK_ID --unknown --activity 'Assessing task'\n"@ + exe
        + " status --binding "@ + binding + "\n"@ + exe + " clear --binding "@ + binding
        + " --task TASK_ID\n"@
}

/// What an agent is told when it is bound.
pub fn context(s: &Slot, paths: &Paths) -> (r: String)
    ensures
        r@ == context_text(s@, paths.config@),
{
    let exe = program_word(paths);
    let exe = exe.as_str();
    let binding = s.binding.as_str();
    let task: String = match &s.task {
        Some(t) => t.id.clone(),
        None => "none".to_owned(),
    };
    let mut r = INSTRUCTIONS.to_owned();
    r.append("\n\nVerified binding: ");
    r.append(binding);
    r.append("\nCurrent state: ");
    r.append(task_json(&s.task).as_str());
    r.append("\n\nCommands:\n");
    r.append(exe);
    r.append(" context --binding ");
    r.append(binding);
    r.append("\n");
    r.append(exe);
    r.append(" begin --binding ");
    r.append(binding);
    r.append(" --expected-task ");
    r.append(task.as_str());
    r.append(" --title 'Task title'\n");
    r.append(exe);
    r.append(" report --binding ");
    r.append(binding);
    r.append(" --task TASK_ID --percent 25 --activity 'Reading code'\n");
    r.append(exe);
    r.append(" report --binding ");
    r.append(binding);
    r.append(" --task TASK_ID --unknown --activity 'Assessing task'\n");
    r.append(exe);
    r.append(" status --binding ");
    r.append(binding);
    r.append("\n");
    r.append(exe);
    r.append(" clear --binding ");
    r.append(binding);
    r.append(" --task TASK_ID\n");
    r
}

/// What an agent is told at a request of its user.
pub open spec fn request_text(s: state::SlotView, config: Seq<char>) -> Seq<char> {
    "Before task tools or a blocking clarification question, check whether this request starts genuinely new work. If so, begin a new generation using the observed current ID; a previous 100% must not describe new work. For continuation, reuse the existing generation. Then report an estimate or --unknown activity before waiting for the user, for example 'Waiting for you'. Current task: "@
        + task_written(s.task) + ". Bound context: "@ + program(config) + " context --binding "@
        + s.binding
}

/// What an agent is told when a report is due.
pub open spec fn reminder_text(s: state::SlotView, config: Seq<char>) -> Seq<char> {
    "Progress check-in is due if this is a natural boundary. Reassess the current task; do not invent progress. "@
        + program(config) + " context --binding "@ + s.binding
}

/// How many seconds lie between two reminders, and between a report and a reminder.
pub const REMINDER_SECONDS: i64 = 60;

/// Whether a report is due at the time `now`: no reminder was given for a while and, where there is a
/// task, it is neither done nor cleared and was not reported on for a while.
pub open spec fn due(s: state::SlotView, now: i64) -> bool {
    now - s.reminded_at >= REMINDER_SECONDS && match s.task {
        None => true,
        Some(t) => t.percent != Some(100u8) && !t.cleared && match t.reported_at {
            None => true,
            Some(at) => now - at >= REMINDER_SECONDS,
        },
    }
}

/// Whether a report is due at the time `now`.
fn is_due(s: &Slot, now: i64) -> (r: bool)
    ensures
        r == due(s@, now),
{
    if (now as i128) - (s.reminded_at as i128) < REMINDER_SECONDS as i128 {
        return false;
    }
    match &s.task {
        None => true,
        Some(t) => {
            let done = match t.percent {
                Some(p) => p == 100,
                None => false,
            };
            let recent = match t.reported_at {
                Some(at) => (now as i128) - (at as i128) < REMINDER_SECONDS as i128,
                None => false,
            };
            !done && !t.cleared && !recent
        },
    }
}

/// What an agent is told at an event of the kind `kind`, if anything.
pub open spec fn told(
    kind: Seq<char>,
    s: state::SlotView,
    config: Seq<char>,
    now: i64,
) -> Option<Seq<char>> {
    if kind == "SessionStart"@ || kind == "PostCompaction"@ {
        Some(context_text(s, config))
    } else if kind == "UserPromptSubmit"@ {
        Some(request_text(s, config))
    } else if due(s, now) {
        Some(reminder_text(s, config))
    } else {
        None
    }
}

/// A slot after its agent was told something, or nothing, at the time `now`.
pub open spec fn noted(s: state::SlotView, told: bool, now: i64) -> state::SlotView {
    state::SlotView {
        reminded_at: if told {
            now
        } else {
            s.reminded_at
        },
        ..s
    }
}

/// Gives what an agent is told at an event of the kind `kind`, if anything, and notes in its slot
/// when that was.
pub fn tell(slot: &mut Slot, kind: &str, paths: &Paths, now: i64) -> (r: Option<String>)
    ensures
        text::option_view(r) == told(kind@, old(slot)@, paths.config@, now),
        final(slot)@ == noted(old(slot)@, r is Some, now),
{
    let told: Option<String> = if same_text(kind, "SessionStart") || same_text(
        kind,
        "PostCompaction",
    ) {
        Some(context(slot, paths))
    } else if same_text(kind, "UserPromptSubmit") {
        let mut r =
            "Before task tools or a blocking clarification question, check whether this request starts genuinely new work. If so, begin a new generation using the observed current ID; a previous 100% must not describe new work. For continuation, reuse the existing generation. Then report an estimate or --unknown activity before waiting for the user, for example 'Waiting for you'. Current task: ".to_owned();
        r.append(task_json(&slot.task).as_str());
        r.append(". Bound context: ");
        r.append(program_word(paths).as_str());
        r.append(" context --binding ");
        r.append(slot.binding.as_str());
        Some(r)
    } else if is_due(slot, now) {
        let mut r =
            "Progress check-in is due if this is a natural boundary. Reassess the current task; do not invent progress. ".to_owned();
        r.append(program_word(paths).as_str());
        r.append(" context --binding ");
        r.append(slot.binding.as_str());
        Some(r)
    } else {
        None
    };
    if told.is_some() {
        slot.reminded_at = now;
    }
    told
}

/// What a hook says to the agent, as a value.
pub open spec fn answer_tree(kind: Seq<char>, told: Seq<char>) -> json::JsonTree {
    json::JsonTree::Object(
        seq![
            (
                "hookSpecificOutput"@,
                json::JsonTree::Object(
                    seq![
                        ("hookEventName"@, json::JsonTree::Text(kind)),
                        ("additionalContext"@, json::JsonTree::Text(told)),
                    ],
                ),
            ),
        ],
    )
}

/// What a hook says to the agent, as JSON.
pub fn answer(kind: &str, told: &str) -> (r: String)
    ensures
        r@ == json::json_written(json::normal(answer_tree(kind@, told@))),
{
    let mut inner: Vec<(String, Json)> = Vec::new();
    inner.push(("hookEventName".to_owned(), json_text(kind)));
    inner.push(("additionalContext".to_owned(), json_text(told)));
    assert(json::member_trees(inner@) =~= answer_tree(
        kind@,
        told@,
    )->Object_0[0].1->Object_0);
    let mut outer: Vec<(String, Json)> = Vec::new();
    outer.push(("hookSpecificOutput".to_owned(), json_object(inner)));
    assert(json::member_trees(outer@) =~= answer_tree(kind@, told@)->Object_0);
    write_json(&json_object(outer))
}

// ---------------------------------------------------------------------------
// Events
// ---------------------------------------------------------------------------

/// Whether `kind` is a kind of event that has a hook.
pub open spec fn is_kind(kind: Seq<char>) -> bool {
    kind == "SessionStart"@ || kind == "PostCompaction"@ || kind == "PostToolUse"@ || kind
        == "UserPromptSubmit"@
}

/// Whether an event counts: it is of a kind that has a hook, and is not the use of the program that
/// reports progress.
pub open spec fn counts(event: json::JsonTree) -> bool {
    let kind = runtime::text_or_empty(event, "hook_event_name"@);
    is_kind(kind) && !(kind == "PostToolUse"@ && text::occurs(
        json::json_written(json::normal(event.member("tool_input"@))),
        "herdr-progress"@,
    ))
}

/// Whether an event counts.
pub fn eligible(event: &Json) -> (r: bool)
    ensures
        r == counts(event@),
{
    let kind: String = match event.text_of("hook_event_name") {
        Some(kind) => kind.clone(),
        None => "".to_owned(),
    };
    proof {
        reveal_strlit("");
        assert(""@ =~= Seq::<char>::empty());
    }
    let kind = kind.as_str();
    let used = match event.get("tool_input") {
        Some(input) => write_json(input),
        None => write_json(&Json::Null),
    };
    (same_text(kind, "SessionStart") || same_text(kind, "PostCompaction") || same_text(
        kind,
        "PostToolUse",
    ) || same_text(kind, "UserPromptSubmit")) && !(same_text(kind, "PostToolUse") && contains(
        used.as_str(),
        "herdr-progress",
    ))
}

/// An event that counts: its kind, and the session that it is of.
#[derive(Debug)]
pub struct Event {
    pub kind: String,
    pub session: String,
}

/// Whether `r` is the event that `event` is, where it counts.
pub open spec fn event_result(
    event: json::JsonTree,
    r: Result<Option<Event>, RuntimeError>,
) -> bool {
    if !counts(event) {
        r is Ok && r->Ok_0 is None
    } else {
        match runtime::some_text(event, "session_id"@) {
            None => r is Err && r->Err_0@ == runtime::RuntimeFault::Missing("session_id"@),
            Some(session) => {
                &&& r is Ok
                &&& r->Ok_0 is Some
                &&& r->Ok_0->0.session@ == session
                &&& event.member("hook_event_name"@) == json::JsonTree::Text(r->Ok_0->0.kind@)
                &&& is_kind(r->Ok_0->0.kind@)
            },
        }
    }
}

/// A kind of event is a name.
proof fn lemma_kind_is_named(kind: Seq<char>)
    requires
        is_kind(kind),
    ensures
        kind.len() > 0,
{
    reveal_strlit("PostToolUse");
    reveal_strlit("SessionStart");
    reveal_strlit("PostCompaction");
    reveal_strlit("UserPromptSubmit");
}

/// The event that `event` is, where it counts.
pub fn event_in(event: &Json) -> (r: Result<Option<Event>, RuntimeError>)
    ensures
        event_result(event@, r),
{
    if !eligible(event) {
        return Ok(None);
    }
    proof {
        lemma_kind_is_named(runtime::text_or_empty(event@, "hook_event_name"@));
    }
    let kind: String = match string(event, "hook_event_name") {
        Ok(kind) => kind,
        Err(e) => return Err(e),
    };
    match string(event, "session_id") {
        Ok(session) => Ok(Some(Event { kind, session })),
        Err(e) => Err(e),
    }
}

/// Reads the event that the agent hands to a hook.
pub fn read_event(input: &str) -> (r: Result<Option<Event>, RuntimeError>)
    ensures
        match json::json_parsed(input@) {
            Err(m) => r is Err && r->Err_0@ == runtime::RuntimeFault::Unreadable(m),
            Ok(event) => event_result(event, r),
        },
{
    match parse_json(input) {
        Err(m) => Err(RuntimeError::Unreadable(m)),
        Ok(event) => event_in(&event),
    }
}

/// Whether a hook does anything.
pub open spec fn is_active(herdr_env: Option<Seq<char>>, enabled: bool) -> bool {
    herdr_env == Some("1"@) && enabled
}

/// Whether a hook does anything: it runs inside of Herdr, and the plugin is enabled.
pub fn active(herdr_env: &Option<String>, enabled: bool) -> (r: bool)
    ensures
        r == is_active(text::option_view(*herdr_env), enabled),
{
    match herdr_env {
        Some(v) => same_text(v.as_str(), "1") && enabled,
        None => false,
    }
}

/// What to do after the agent was looked for.
#[derive(Clone, Copy, Debug, PartialEq, Eq, Structural)]
pub enum Search {
    /// It was found.
    Found,
    /// Look again after a moment.
    Again,
    /// Give up.
    GiveUp,
}

/// Why the agent that was found is not the one in the session `session`, if it is not.
pub open spec fn session_fault(identity: state::IdentityView, session: Seq<char>) -> Option<
    HookError,
> {
    if identity.agent == "devin"@ && identity.session == session {
        None
    } else {
        Some(HookError::WrongSession)
    }
}

/// Whether the agent that was found is the one in the session `session`.
pub fn check_session(identity: &Identity, session: &str) -> (r: Result<(), HookError>)
    ensures
        match session_fault(identity@, session@) {
            None => r is Ok,
            Some(e) => r == Err::<(), HookError>(e),
        },
{
    if same_text(identity.agent.as_str(), AGENT) && same_text(identity.session.as_str(), session) {
        Ok(())
    } else {
        Err(HookError::WrongSession)
    }
}

/// How many milliseconds it may take until the agent is found.
pub const SEARCH_MILLIS: u64 = 2000;

/// What is to be done at an event of the kind `kind` after the agent was looked for, `waited`
/// milliseconds after the first time.
pub open spec fn search_after(kind: Seq<char>, found: bool, waited: u64) -> Search {
    if found {
        Search::Found
    } else if kind == "SessionStart"@ && waited < SEARCH_MILLIS {
        Search::Again
    } else {
        Search::GiveUp
    }
}

/// What to do at an event of the kind `kind` after the agent was looked for, `waited` milliseconds
/// after the first time: only at the start of a session it may take a while until it is found.
pub fn search_step(kind: &str, found: bool, waited: u64) -> (r: Search)
    ensures
        r == search_after(kind@, found, waited),
{
    if found {
        Search::Found
    } else if same_text(kind, "SessionStart") && waited < SEARCH_MILLIS {
        Search::Again
    } else {
        Search::GiveUp
    }
}

/// Whether the agent is still the one that it was a moment ago.
pub fn check_unchanged(before: &Identity, after: &Identity) -> (r: Result<(), HookError>)
    ensures
        if before@ == after@ {
            r is Ok
        } else {
            r == Err::<(), HookError>(HookError::LaunchChanged)
        },
{
    if same_identity(before, after) {
        Ok(())
    } else {
        Err(HookError::LaunchChanged)
    }
}

/// The slot of the agent at an event of the kind `kind`, where `found` is what is kept for its
/// terminal, and whether it is a new one that has to be kept. Only the start of a session makes one.
pub fn slot_at(kind: &str, found: Option<Slot>, identity: Identity) -> (r: Result<
    (Slot, bool),
    HookError,
>)
    ensures
        match run_fault(kind@, identity@, identity@, state::slot_view(found)) {
            Some(e) => r == Err::<(Slot, bool), HookError>(e),
            None => r is Ok && taken_up(
                kind@,
                state::slot_view(found),
                identity@,
                (r->Ok_0).0@,
                (r->Ok_0).1,
            ),
        },
{
    if same_text(kind, "SessionStart") {
        return Ok(bootstrap(found, identity));
    }
    match found {
        None => Err(HookError::NoBinding),
        Some(s) => if !s.revoked && same_identity(&s.identity, &identity) {
            Ok((s, false))
        } else {
            Err(HookError::Obsolete)
        },
    }
}

/// What a hook does to the slot of its agent, and says.
pub struct Outcome {
    /// The slot afterwards.
    pub slot: Slot,
    /// Whether it has to be kept.
    pub save: bool,
    /// What the agent is told, if anything.
    pub told: Option<String>,
}

/// Whether `slot` is the slot that a hook of the kind `kind` finds or makes for the agent `identity`,
/// where `found` is what is kept for its terminal, and `new` whether it is a new one.
pub open spec fn taken_up(
    kind: Seq<char>,
    found: Option<state::SlotView>,
    identity: state::IdentityView,
    slot: state::SlotView,
    new: bool,
) -> bool {
    state::bootstrapped(found, identity, slot, new) && (new ==> kind == "SessionStart"@)
}

/// Why a hook of the kind `kind` does nothing, if it does: another agent runs than a moment ago, or
/// none is bound that it could belong to.
pub open spec fn run_fault(
    kind: Seq<char>,
    before: state::IdentityView,
    after: state::IdentityView,
    found: Option<state::SlotView>,
) -> Option<HookError> {
    if before != after {
        Some(HookError::LaunchChanged)
    } else if kind == "SessionStart"@ || state::serves(found, before) {
        None
    } else if found is None {
        Some(HookError::NoBinding)
    } else {
        Some(HookError::Obsolete)
    }
}

/// Does what a hook of the kind `kind` does at the time `now`, where `before` is the agent that was
/// found, `after` the one that runs once nobody else can change what is kept, and `found` what is
/// kept for its terminal.
pub fn run(
    kind: &str,
    before: Identity,
    after: &Identity,
    found: Option<Slot>,
    paths: &Paths,
    now: i64,
) -> (r: Result<Outcome, HookError>)
    ensures
        match run_fault(kind@, before@, after@, state::slot_view(found)) {
            Some(e) => r is Err && r->Err_0 == e,
            None => r is Ok && exists|slot: state::SlotView, new: bool|
                {
                    &&& #[trigger] taken_up(kind@, state::slot_view(found), before@, slot, new)
                    &&& text::option_view(r->Ok_0.told) == told(kind@, slot, paths.config@, now)
                    &&& r->Ok_0.slot@ == noted(slot, r->Ok_0.told is Some, now)
                    &&& r->Ok_0.save == (new || r->Ok_0.told is Some)
                },
        },
{
    match check_unchanged(&before, after) {
        Ok(()) => {},
        Err(e) => return Err(e),
    }
    let (slot, new) = match slot_at(kind, found, before) {
        Ok(taken) => taken,
        Err(e) => return Err(e),
    };
    let mut slot = slot;
    assert(taken_up(kind@, state::slot_view(found), before@, slot@, new));
    let told = tell(&mut slot, kind, paths, now);
    let save = new || told.is_some();
    Ok(Outcome { slot, save, told })
}

// ---------------------------------------------------------------------------
// What holds of every hook
// ---------------------------------------------------------------------------

/// After an agent was told something, it is not reminded for a while.
pub proof fn law_reminders_keep_their_distance(
    s: state::SlotView,
    config: Seq<char>,
    at: i64,
    now: i64,
)
    requires
        now - at < REMINDER_SECONDS,
    ensures
        !due(state::SlotView { reminded_at: at, ..s }, now),
        told("PostToolUse"@, state::SlotView { reminded_at: at, ..s }, config, now) is None,
{
    lemma_kinds_differ();
}

/// An agent is not reminded of a task that is done or cleared, or that was just reported on.
pub proof fn law_no_reminder_without_need(
    s: state::SlotView,
    percent: Option<u8>,
    activity: Seq<char>,
    at: i64,
    now: i64,
)
    ensures
        !due(state::reported(s, Some(100u8), activity, at), now),
        now - at < REMINDER_SECONDS ==> !due(state::reported(s, percent, activity, at), now),
        s.task is Some && s.task->0.cleared ==> !due(s, now),
{
}

/// The kinds of events differ.
proof fn lemma_kinds_differ()
    ensures
        "PostToolUse"@ != "SessionStart"@,
        "PostToolUse"@ != "PostCompaction"@,
        "PostToolUse"@ != "UserPromptSubmit"@,
        "UserPromptSubmit"@ != "SessionStart"@,
        "UserPromptSubmit"@ != "PostCompaction"@,
{
    reveal_strlit("PostToolUse");
    reveal_strlit("SessionStart");
    reveal_strlit("PostCompaction");
    reveal_strlit("UserPromptSubmit");
    assert("PostToolUse"@.len() == 11 && "SessionStart"@.len() == 12);
    assert("PostCompaction"@.len() == 14 && "UserPromptSubmit"@.len() == 16);
}

/// An agent is always told something at the start of a session, after its memory was compacted, and
/// at a request of its user; at the use of a tool only when a report is due.
pub proof fn law_when_an_agent_is_told(s: state::SlotView, config: Seq<char>, now: i64)
    ensures
        told("SessionStart"@, s, config, now) == Some(context_text(s, config)),
        told("PostCompaction"@, s, config, now) == Some(context_text(s, config)),
        told("UserPromptSubmit"@, s, config, now) == Some(request_text(s, config)),
        told("PostToolUse"@, s, config, now) is Some <==> due(s, now),
{
    lemma_kinds_differ();
}

} // verus!
