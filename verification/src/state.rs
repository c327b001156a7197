//! The state of an agent: who it is, which task it works on, and how far it has come.
use vstd::prelude::*;

use crate::display;
use crate::display::{clean, clean_chars};
use crate::number;
use crate::text;
use crate::text::{same_text, text_of};

verus! {

/// Who an agent is: the endpoint and terminal that it runs in, its session, and its launch.
#[derive(Clone, Debug, PartialEq, Eq)]
pub struct Identity {
    pub endpoint: String,
    pub terminal: String,
    pub session: String,
    pub agent: String,
    pub pid: u32,
    pub started: String,
}

/// A task, from its beginning on. A cleared one is kept so that its successor must name it.
#[derive(Clone, Debug)]
pub struct Task {
    pub id: String,
    pub title: String,
    pub percent: Option<u8>,
    pub activity: Option<String>,
    pub reported_at: Option<i64>,
    pub cleared: bool,
}

/// What is kept for a terminal.
#[derive(Clone, Debug)]
pub struct Slot {
    pub identity: Identity,
    pub binding: String,
    pub task: Option<Task>,
    pub revoked: bool,
    pub reminded_at: i64,
    pub published: String,
}

/// An [`Identity`] as a value.
pub ghost struct IdentityView {
    pub endpoint: Seq<char>,
    pub terminal: Seq<char>,
    pub session: Seq<char>,
    pub agent: Seq<char>,
    pub pid: u32,
    pub started: Seq<char>,
}

/// A [`Task`] as a value.
pub ghost struct TaskView {
    pub id: Seq<char>,
    pub title: Seq<char>,
    pub percent: Option<u8>,
    pub activity: Option<Seq<char>>,
    pub reported_at: Option<i64>,
    pub cleared: bool,
}

/// A [`Slot`] as a value.
pub ghost struct SlotView {
    pub identity: IdentityView,
    pub binding: Seq<char>,
    pub task: Option<TaskView>,
    pub revoked: bool,
    pub reminded_at: i64,
    pub published: Seq<char>,
}

impl View for Identity {
    type V = IdentityView;

    open spec fn view(&self) -> IdentityView {
        IdentityView {
            endpoint: self.endpoint@,
            terminal: self.terminal@,
            session: self.session@,
            agent: self.agent@,
            pid: self.pid,
            started: self.started@,
        }
    }
}

impl View for Task {
    type V = TaskView;

    open spec fn view(&self) -> TaskView {
        TaskView {
            id: self.id@,
            title: self.title@,
            percent: self.percent,
            activity: text::option_view(self.activity),
            reported_at: self.reported_at,
            cleared: self.cleared,
        }
    }
}

impl View for Slot {
    type V = SlotView;

    open spec fn view(&self) -> SlotView {
        SlotView {
            identity: self.identity@,
            binding: self.binding@,
            task: task_view(self.task),
            revoked: self.revoked,
            reminded_at: self.reminded_at,
            published: self.published@,
        }
    }
}

/// The value of a task that may be missing.
pub open spec fn task_view(task: Option<Task>) -> Option<TaskView> {
    match task {
        Some(t) => Some(t@),
        None => None,
    }
}

/// The value of a slot that may be missing.
pub open spec fn slot_view(slot: Option<Slot>) -> Option<SlotView> {
    match slot {
        Some(s) => Some(s@),
        None => None,
    }
}

/// Why a request is refused.
#[derive(Clone, Copy, Debug, PartialEq, Eq, Structural)]
pub enum StateError {
    /// No agent is bound to the terminal.
    NoAgent,
    /// The binding is not that of the agent at the terminal.
    WrongBinding,
    /// Another task than the expected one is there.
    Conflict,
    /// Nothing is left of the title.
    EmptyTitle,
    /// The task is not the current one, or it is cleared.
    WrongTask,
    /// The percentage is over a hundred.
    Percent,
    /// Nothing is left of the activity.
    EmptyActivity,
    /// The task is done.
    Completed,
}

impl StateError {
    /// What is wrong, in words.
    pub open spec fn message_text(self) -> Seq<char> {
        match self {
            StateError::NoAgent => "No bound agent. Resume with the progress hook enabled."@,
            StateError::WrongBinding => "Obsolete or mismatched agent binding"@,
            StateError::Conflict => "Task conflict. Re-read context and reassess the request."@,
            StateError::EmptyTitle => "Task title is empty"@,
            StateError::WrongTask => "Obsolete or cleared task"@,
            StateError::Percent => "Percent must be 0 through 100"@,
            StateError::EmptyActivity => "Activity is empty"@,
            StateError::Completed => "Completed task: begin a new generation before further work"@,
        }
    }

    /// What is wrong, in words.
    pub fn message(&self) -> (r: String)
        ensures
            r@ == self.message_text(),
    {
        match self {
            StateError::NoAgent => "No bound agent. Resume with the progress hook enabled.".to_owned(),
            StateError::WrongBinding => "Obsolete or mismatched agent binding".to_owned(),
            StateError::Conflict => "Task conflict. Re-read context and reassess the request.".to_owned(),
            StateError::EmptyTitle => "Task title is empty".to_owned(),
            StateError::WrongTask => "Obsolete or cleared task".to_owned(),
            StateError::Percent => "Percent must be 0 through 100".to_owned(),
            StateError::EmptyActivity => "Activity is empty".to_owned(),
            StateError::Completed => "Completed task: begin a new generation before further work".to_owned(),
        }
    }
}

// ---------------------------------------------------------------------------
// New identifiers
// ---------------------------------------------------------------------------

/// Whether `c` is a hexadecimal digit, in lower case.
pub open spec fn is_hex(c: char) -> bool {
    ('0' <= c && c <= '9') || ('a' <= c && c <= 'f')
}

/// Whether `s` is a random identifier: five groups of hexadecimal digits with hyphens between them,
/// which tells by one digit that it is random.
pub open spec fn is_id(s: Seq<char>) -> bool {
    &&& s.len() == 36
    &&& s[14] == '4'
    &&& s[19] == '8' || s[19] == '9' || s[19] == 'a' || s[19] == 'b'
    &&& forall|i: int|
        0 <= i < 36 ==> if i == 8 || i == 13 || i == 18 || i == 23 {
            #[trigger] s[i] == '-'
        } else {
            is_hex(s[i])
        }
}

/// `uuid::Uuid::new_v4`, as `<Uuid as Display>::to_string` writes it: an identifier that is drawn at
/// random. Nothing is said of which one it is, or that two of them differ. The call panics where
/// the system has no random numbers to give.
#[verifier::external_body]
pub(crate) fn new_id() -> (r: String)
    ensures
        is_id(r@),
{
    uuid::Uuid::new_v4().to_string()
}

// ---------------------------------------------------------------------------
// The binding of an agent
// ---------------------------------------------------------------------------

/// Whether two identities are the same.
pub fn same_identity(a: &Identity, b: &Identity) -> (r: bool)
    ensures
        r == (a@ == b@),
{
    same_text(a.endpoint.as_str(), b.endpoint.as_str()) && same_text(
        a.terminal.as_str(),
        b.terminal.as_str(),
    ) && same_text(a.session.as_str(), b.session.as_str()) && same_text(
        a.agent.as_str(),
        b.agent.as_str(),
    ) && a.pid == b.pid && same_text(a.started.as_str(), b.started.as_str())
}

/// Whether a slot can go on to serve the agent `identity`.
pub open spec fn serves(old: Option<SlotView>, identity: IdentityView) -> bool {
    old is Some && !old->0.revoked && old->0.identity == identity
}

/// The task that `identity` takes over: that of the same agent in the same session.
pub open spec fn inherited(old: Option<SlotView>, identity: IdentityView) -> Option<TaskView> {
    match old {
        Some(s) if s.identity.session == identity.session && s.identity.agent == identity.agent => {
            s.task
        },
        _ => None,
    }
}

/// The slot of `identity` under a new binding.
pub open spec fn bound_anew(
    old: Option<SlotView>,
    identity: IdentityView,
    binding: Seq<char>,
) -> SlotView {
    SlotView {
        identity,
        binding,
        task: inherited(old, identity),
        revoked: false,
        reminded_at: 0,
        published: Seq::empty(),
    }
}

/// The slot of `identity` under the binding `binding`, where `old` is what was kept for its terminal.
///
/// Only a session that is verified to be the same carries its task over to another launch.
pub fn bind(old: Option<Slot>, identity: Identity, binding: String) -> (r: Slot)
    ensures
        r@ == bound_anew(slot_view(old), identity@, binding@),
{
    let task: Option<Task> = match old {
        Some(s) => if same_text(s.identity.session.as_str(), identity.session.as_str())
            && same_text(s.identity.agent.as_str(), identity.agent.as_str()) {
            s.task
        } else {
            None
        },
        None => None,
    };
    let published = String::new();
    proof {
        reveal_strlit("");
        assert(published@ =~= Seq::<char>::empty());
    }
    Slot { identity, binding, task, revoked: false, reminded_at: 0, published }
}

/// Whether `slot` is the slot of `identity`, where `old` is what was kept for its terminal, and `new`
/// whether it is a new one: the old one still serves, or it is one under a binding that was drawn.
pub open spec fn bootstrapped(
    old: Option<SlotView>,
    identity: IdentityView,
    slot: SlotView,
    new: bool,
) -> bool {
    if serves(old, identity) {
        slot == old->0 && !new
    } else {
        new && is_id(slot.binding) && slot == bound_anew(old, identity, slot.binding)
    }
}

/// The slot of `identity`, where `old` is what was kept for its terminal, and whether it is a new one
/// that has to be kept: the old one still serves, or a binding is drawn for a new one.
pub fn bootstrap(old: Option<Slot>, identity: Identity) -> (r: (Slot, bool))
    ensures
        bootstrapped(slot_view(old), identity@, r.0@, r.1),
{
    let keep = match &old {
        Some(s) => !s.revoked && same_identity(&s.identity, &identity),
        None => false,
    };
    match old {
        Some(s) if keep => (s, false),
        old => (bind(old, identity, new_id()), true),
    }
}

/// Why the agent `identity` that names the binding `binding` may not use the slot `found`, if it may
/// not.
pub open spec fn binding_fault(
    found: Option<SlotView>,
    identity: IdentityView,
    binding: Seq<char>,
) -> Option<StateError> {
    match found {
        None => Some(StateError::NoAgent),
        Some(s) => if serves(found, identity) && s.binding == binding {
            None
        } else {
            Some(StateError::WrongBinding)
        },
    }
}

/// The slot that `found` is for the agent `identity` that names the binding `binding`.
pub fn bound(found: Option<Slot>, identity: &Identity, binding: &str) -> (r: Result<
    Slot,
    StateError,
>)
    ensures
        match binding_fault(slot_view(found), identity@, binding@) {
            Some(e) => r == Err::<Slot, StateError>(e),
            None => r is Ok && found is Some && r->Ok_0@ == found->0@,
        },
{
    match found {
        None => Err(StateError::NoAgent),
        Some(s) => if !s.revoked && same_text(s.binding.as_str(), binding) && same_identity(
            &s.identity,
            identity,
        ) {
            Ok(s)
        } else {
            Err(StateError::WrongBinding)
        },
    }
}

// ---------------------------------------------------------------------------
// The task
// ---------------------------------------------------------------------------

/// The name of the current task, which one that begins must give.
pub open spec fn current(task: Option<TaskView>) -> Seq<char> {
    match task {
        Some(t) => t.id,
        None => "none"@,
    }
}

/// The columns that a title may take.
pub const TITLE_COLUMNS: usize = 80;

/// The columns that an activity may take.
pub const ACTIVITY_COLUMNS: usize = 40;

/// Why a task cannot begin, if it cannot.
pub open spec fn begin_fault(s: SlotView, expected: Seq<char>, title: Seq<char>) -> Option<
    StateError,
> {
    if current(s.task) != expected {
        Some(StateError::Conflict)
    } else if display::cleaned(title, TITLE_COLUMNS as nat).len() == 0 {
        Some(StateError::EmptyTitle)
    } else {
        None
    }
}

/// The slot after a task has begun.
pub open spec fn begun(s: SlotView, title: Seq<char>, id: Seq<char>) -> SlotView {
    SlotView {
        task: Some(
            TaskView {
                id,
                title: display::cleaned(title, TITLE_COLUMNS as nat),
                percent: None,
                activity: None,
                reported_at: None,
                cleared: false,
            },
        ),
        ..s
    }
}

/// Begins a task under the identifier `id`.
pub fn begin_as(s: &mut Slot, expected: &str, title: &str, id: String) -> (r: Result<
    (),
    StateError,
>)
    ensures
        match begin_fault(old(s)@, expected@, title@) {
            None => r is Ok && final(s)@ == begun(old(s)@, title@, id@),
            Some(e) => r == Err::<(), StateError>(e) && final(s)@ == old(s)@,
        },
{
    let expected_now = match &s.task {
        Some(t) => same_text(t.id.as_str(), expected),
        None => same_text("none", expected),
    };
    if !expected_now {
        return Err(StateError::Conflict);
    }
    let title: Vec<char> = clean_chars(title, TITLE_COLUMNS);
    if title.len() == 0 {
        return Err(StateError::EmptyTitle);
    }
    s.task =
    Some(
        Task {
            id,
            title: text_of(&title),
            percent: None,
            activity: None,
            reported_at: None,
            cleared: false,
        },
    );
    Ok(())
}

/// Begins a task, where `expected` names the task that is there.
pub fn begin(s: &mut Slot, expected: &str, title: &str) -> (r: Result<(), StateError>)
    ensures
        match begin_fault(old(s)@, expected@, title@) {
            None => {
                &&& r is Ok
                &&& final(s)@.task is Some
                &&& is_id(final(s)@.task->0.id)
                &&& final(s)@ == begun(old(s)@, title@, final(s)@.task->0.id)
            },
            Some(e) => r == Err::<(), StateError>(e) && final(s)@ == old(s)@,
        },
{
    begin_as(s, expected, title, new_id())
}

/// Whether `id` names the current task, and it is not cleared.
pub open spec fn open_task(task: Option<TaskView>, id: Seq<char>) -> bool {
    task is Some && task->0.id == id && !task->0.cleared
}

/// The current task, if `id` names it and it is not cleared.
pub fn task<'a>(s: &'a mut Slot, id: &str) -> (r: Result<&'a mut Task, StateError>)
    ensures
        match r {
            Ok(t) => {
                &&& open_task(old(s)@.task, id@)
                &&& old(s)@.task == Some(t@)
                &&& final(s)@ == (SlotView { task: Some(final(t)@), ..old(s)@ })
            },
            Err(e) => {
                &&& !open_task(old(s)@.task, id@)
                &&& e == StateError::WrongTask
                &&& final(s)@ == old(s)@
            },
        },
{
    let found = match &s.task {
        Some(t) => same_text(t.id.as_str(), id) && !t.cleared,
        None => false,
    };
    if !found {
        return Err(StateError::WrongTask);
    }
    match &mut s.task {
        Some(t) => Ok(t),
        None => Err(StateError::WrongTask),
    }
}

/// Why a report is refused, if it is.
pub open spec fn report_fault(
    s: SlotView,
    id: Seq<char>,
    percent: Option<u8>,
    activity: Seq<char>,
) -> Option<StateError> {
    if percent is Some && percent->0 > 100 {
        Some(StateError::Percent)
    } else if display::cleaned(activity, ACTIVITY_COLUMNS as nat).len() == 0 {
        Some(StateError::EmptyActivity)
    } else if !open_task(s.task, id) {
        Some(StateError::WrongTask)
    } else if s.task->0.percent == Some(100u8) {
        Some(StateError::Completed)
    } else {
        None
    }
}

/// The slot after a report.
pub open spec fn reported(
    s: SlotView,
    percent: Option<u8>,
    activity: Seq<char>,
    now: i64,
) -> SlotView {
    SlotView {
        task: Some(
            TaskView {
                percent,
                activity: Some(
                    if percent == Some(100u8) {
                        "Done"@
                    } else {
                        display::cleaned(activity, ACTIVITY_COLUMNS as nat)
                    },
                ),
                reported_at: Some(now),
                ..s.task->0
            },
        ),
        ..s
    }
}

/// Reports how far the task `id` has come, or only what is being done where that is not known.
pub fn report(s: &mut Slot, id: &str, percent: Option<u8>, activity: &str, now: i64) -> (r: Result<
    (),
    StateError,
>)
    ensures
        match report_fault(old(s)@, id@, percent, activity@) {
            None => r is Ok && final(s)@ == reported(old(s)@, percent, activity@, now),
            Some(e) => r == Err::<(), StateError>(e) && final(s)@ == old(s)@,
        },
        r is Ok ==> final(s)@.task is Some && final(s)@.task->0.percent == percent
            && final(s)@.task->0.reported_at == Some(now),
{
    let done = match percent {
        Some(p) => {
            if p > 100 {
                return Err(StateError::Percent);
            }
            p == 100
        },
        None => false,
    };
    let activity: Vec<char> = clean_chars(activity, ACTIVITY_COLUMNS);
    if activity.len() == 0 {
        return Err(StateError::EmptyActivity);
    }
    match task(s, id) {
        Err(e) => Err(e),
        Ok(t) => {
            if let Some(p) = t.percent {
                if p == 100 {
                    return Err(StateError::Completed);
                }
            }
            t.percent = percent;
            t.activity =
            Some(
                if done {
                    "Done".to_owned()
                } else {
                    text_of(&activity)
                },
            );
            t.reported_at = Some(now);
            Ok(())
        },
    }
}

/// A slot whose task is cleared.
pub open spec fn cleared(s: SlotView) -> SlotView {
    SlotView { task: Some(TaskView { cleared: true, ..s.task->0 }), ..s }
}

/// Clears the task `id`. It stays as the one that the next task must name.
pub fn clear(s: &mut Slot, id: &str) -> (r: Result<(), StateError>)
    ensures
        if open_task(old(s)@.task, id@) {
            r is Ok && final(s)@ == cleared(old(s)@)
        } else {
            r == Err::<(), StateError>(StateError::WrongTask) && final(s)@ == old(s)@
        },
{
    match task(s, id) {
        Err(e) => Err(e),
        Ok(t) => {
            t.cleared = true;
            Ok(())
        },
    }
}

// ---------------------------------------------------------------------------
// What is shown
// ---------------------------------------------------------------------------

/// How many seconds a report is fresh.
pub const STALE_SECONDS: i64 = 300;

/// Whether a slot has something to show: a task that was reported on, in a slot that is in use.
pub open spec fn showing(s: SlotView) -> bool {
    s.task is Some && !s.task->0.cleared && !s.revoked && s.task->0.reported_at is Some
}

/// The percentage of a task, as it is shown: marked as an estimate until it is done.
pub open spec fn percent_text(p: u8) -> Seq<char> {
    if p == 100 {
        "100%"@
    } else {
        "~"@ + number::decimal(p as int) + "%"@
    }
}

/// Whether the last report on a task is stale at the time `now`.
pub open spec fn stale(t: TaskView, now: i64) -> bool {
    t.percent != Some(100u8) && now - t.reported_at->0 >= STALE_SECONDS
}

/// What is shown of a slot at the time `now`: how far its task has come, whether that is stale, and
/// what is being done.
pub open spec fn token_texts(s: SlotView, now: i64) -> Seq<Option<Seq<char>>> {
    if !showing(s) {
        seq![None, None, None]
    } else {
        let t = s.task->0;
        seq![
            match t.percent {
                Some(p) => Some(percent_text(p)),
                None => None,
            },
            if stale(t, now) {
                Some("stale"@)
            } else {
                None
            },
            t.activity,
        ]
    }
}

/// The values of texts that may be missing.
pub open spec fn option_views(v: Seq<Option<String>>) -> Seq<Option<Seq<char>>> {
    v.map_values(|s: Option<String>| text::option_view(s))
}

/// The percentage of a task, as it is shown.
fn percent_shown(p: u8) -> (r: String)
    ensures
        r@ == percent_text(p),
{
    if p == 100 {
        "100%".to_owned()
    } else {
        let mut r = "~".to_owned();
        r.append(number::write_unsigned(p as u64).as_str());
        r.append("%");
        r
    }
}

/// What is shown of a slot at the time `now`.
pub fn tokens(s: &Slot, now: i64) -> (r: [Option<String>; 3])
    ensures
        option_views(r@) == token_texts(s@, now),
{
    let mut percent: Option<String> = None;
    let mut freshness: Option<String> = None;
    let mut activity: Option<String> = None;
    if let Some(t) = &s.task {
        if let Some(at) = t.reported_at {
            if !t.cleared && !s.revoked {
                let mut done = false;
                if let Some(p) = t.percent {
                    percent = Some(percent_shown(p));
                    done = p == 100;
                }
                if !done && (now as i128) - (at as i128) >= STALE_SECONDS as i128 {
                    freshness = Some("stale".to_owned());
                }
                if let Some(a) = &t.activity {
                    activity = Some(a.clone());
                }
            }
        }
    }
    let r = [percent, freshness, activity];
    assert(option_views(r@) =~= token_texts(s@, now));
    r
}

/// The texts that are not missing.
pub open spec fn present(tokens: Seq<Option<Seq<char>>>) -> Seq<Seq<char>>
    decreases tokens.len(),
{
    if tokens.len() == 0 {
        Seq::empty()
    } else {
        let front = present(tokens.drop_last());
        match tokens.last() {
            Some(t) => front.push(t),
            None => front,
        }
    }
}

/// The texts that are not missing, on one line.
pub open spec fn summary_text(tokens: Seq<Option<Seq<char>>>) -> Option<Seq<char>> {
    let s = text::join(present(tokens), " · "@);
    if s.len() == 0 {
        None
    } else {
        Some(display::cleaned(s, SUMMARY_COLUMNS as nat))
    }
}

/// The columns that a summary may take.
pub const SUMMARY_COLUMNS: usize = 80;

/// The first two tokens on one line: how far a task has come, and whether that is stale.
pub open spec fn status_text(tokens: Seq<Option<Seq<char>>>) -> Seq<char> {
    text::join(present(tokens.take(2)), " · "@)
}

/// Whether `s` is a text that a line keeps at its start: of narrow characters, with no white space at
/// either end, and short enough.
pub open spec fn keeps(s: Seq<char>) -> bool {
    &&& 0 < s.len() <= SUMMARY_COLUMNS
    &&& display::all_narrow(s)
    &&& !text::white(s[0])
    &&& !text::white(s.last())
}

/// The tokens that are there, on one line. A status that takes no more than the line stands at its
/// start in full: only the activity is cut.
pub fn summary(tokens: &[Option<String>; 3]) -> (r: Option<String>)
    ensures
        text::option_view(r) == summary_text(option_views(tokens@)),
        keeps(status_text(option_views(tokens@))) ==> r is Some && status_text(
            option_views(tokens@),
        ).is_prefix_of(r->0@),
{
    let mut parts: Vec<String> = Vec::new();
    let ghost all = option_views(tokens@);
    assert(all.take(0) =~= Seq::empty());
    assert(text::views(parts@) =~= Seq::empty());
    for i in 0..3usize
        invariant
            all == option_views(tokens@),
            all.len() == 3,
            text::views(parts@) == present(all.take(i as int)),
    {
        let ghost before = parts@;
        proof {
            assert(all.take(i + 1).drop_last() =~= all.take(i as int));
            assert(all.take(i + 1).last() == text::option_view(tokens@[i as int]));
        }
        if let Some(t) = &tokens[i] {
            parts.push(t.clone());
            assert(text::views(parts@) =~= text::views(before).push(t@));
        }
    }
    assert(all.take(3) =~= all);
    let line = text::joined(&parts, " · ");
    let chars: Vec<char> = text::chars_of(line.as_str());
    if chars.len() == 0 {
        proof {
            lemma_status_starts(all);
        }
        None
    } else {
        let r = clean(line.as_str(), SUMMARY_COLUMNS);
        proof {
            lemma_status_starts(all);
            if keeps(status_text(all)) {
                lemma_start_kept(line@, status_text(all));
            }
        }
        Some(r)
    }
}

/// The status stands at the start of the line.
proof fn lemma_status_starts(tokens: Seq<Option<Seq<char>>>)
    requires
        tokens.len() == 3,
    ensures
        status_text(tokens).is_prefix_of(text::join(present(tokens), " · "@)),
{
    let two = tokens.take(2);
    assert(tokens.drop_last() =~= two);
    let s = present(two);
    match tokens.last() {
        Some(t) => {
            let all = s.push(t);
            assert(all.drop_last() =~= s);
            assert(present(tokens) == all);
        },
        None => {},
    }
}

/// A start that a line keeps is at the start of what is left of it.
proof fn lemma_start_kept(input: Seq<char>, start: Seq<char>)
    requires
        start.is_prefix_of(input),
        keeps(start),
        display::plain_widths(input),
    ensures
        start.is_prefix_of(display::cleaned(input, SUMMARY_COLUMNS as nat)),
{
    let n = start.len() as int;
    let limit = SUMMARY_COLUMNS as nat;
    let s = display::first(display::visible(input), display::MAX_CHARS as nat);
    lemma_visible_start(input, start);
    assert(s.take(n) =~= start);
    let l = display::line(input, limit);
    display::lemma_fitting(s, limit);
    display::lemma_narrow_stays(input, limit, n);
    let (i, j) = text::lemma_trim(l);
    assert(l[0] == start[0]);
    assert(l[n - 1] == start.last());
    assert(i == 0);
    assert(j >= n);
    assert(display::cleaned(input, limit).take(n) =~= start);
}

/// A start of narrow characters is visible in full.
proof fn lemma_visible_start(input: Seq<char>, start: Seq<char>)
    requires
        start.is_prefix_of(input),
        display::all_narrow(start),
    ensures
        start.is_prefix_of(display::visible(input)),
    decreases input.len(),
{
    reveal(Seq::filter);
    if input.len() > 0 {
        let front = input.drop_last();
        if start.len() < input.len() {
            assert(start.is_prefix_of(front));
            lemma_visible_start(front, start);
        } else {
            assert(start =~= input);
            assert(display::all_narrow(front)) by {
                assert forall|k: int| 0 <= k < front.len() implies display::narrow(
                    #[trigger] front[k],
                ) by {
                    assert(front[k] == start[k]);
                }
            }
            lemma_visible_start(front, front);
            assert(display::narrow(start[input.len() - 1]));
            assert(display::shown(input.last()));
            assert(display::visible(input) =~= display::visible(front).push(input.last()));
        }
    }
}

} // verus!
