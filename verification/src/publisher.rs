//! Publishing what is shown of each agent: what is sent, when, and how often it is tried.
use std::collections::hash_map::DefaultHasher;
use std::hash::Hasher;
use vstd::prelude::*;

use crate::json;
use crate::json::Json;
use crate::number;
use crate::paths;
use crate::paths::{join_path, Paths};
use crate::runtime;
use crate::runtime::Runtime;
use crate::state;
use crate::state::{summary, tokens, Slot};
use crate::text;
use crate::text::same_text;

verus! {

/// Why nothing is published.
#[derive(Clone, Copy, Debug, PartialEq, Eq, Structural)]
pub enum PublisherError {
    /// The plugin is not configured.
    NotConfigured,
    /// Herdr does not tell the panes.
    NoPanes,
    /// The publisher ended when it was started.
    Exited,
    /// The publisher did not come up.
    NotStarted,
    /// The publisher does not end.
    NotStopped,
}

impl PublisherError {
    /// What is wrong, in words.
    pub open spec fn message_text(self) -> Seq<char> {
        match self {
            PublisherError::NotConfigured => "Plugin is not configured"@,
            PublisherError::NoPanes => "Snapshot has no panes"@,
            PublisherError::Exited => "Publisher exited during startup; inspect publisher.log"@,
            PublisherError::NotStarted => {
                "Publisher did not acquire its endpoint lock; inspect publisher.log"@
            },
            PublisherError::NotStopped => "Publisher has not stopped; inspect publisher.log"@,
        }
    }

    /// What is wrong, in words.
    pub fn message(&self) -> (r: String)
        ensures
            r@ == self.message_text(),
    {
        match self {
            PublisherError::NotConfigured => "Plugin is not configured".to_owned(),
            PublisherError::NoPanes => "Snapshot has no panes".to_owned(),
            PublisherError::Exited => {
                "Publisher exited during startup; inspect publisher.log".to_owned()
            },
            PublisherError::NotStarted => {
                "Publisher did not acquire its endpoint lock; inspect publisher.log".to_owned()
            },
            PublisherError::NotStopped => {
                "Publisher has not stopped; inspect publisher.log".to_owned()
            },
        }
    }
}

// ---------------------------------------------------------------------------
// Files
// ---------------------------------------------------------------------------

/// The name of the publisher whose endpoint has the hash `hash`.
pub open spec fn hashed_name(hash: u64) -> Seq<char> {
    "publisher-"@ + number::numeral(hash as nat, 16)
}

/// The name of the publisher of an endpoint: there is one for each.
pub open spec fn publisher_name(endpoint: Seq<char>) -> Seq<char> {
    hashed_name(
        <DefaultHasher as vstd::std_specs::hash::DefaultHasherAdditionalSpecFns>::spec_finish(
            seq![vstd::utf8::encode_utf8(endpoint), seq![0xffu8]],
        ),
    )
}

/// The name of the publisher whose endpoint has the hash `hash`.
pub fn name_of_hash(hash: u64) -> (r: String)
    ensures
        r@ == hashed_name(hash),
{
    let mut r = "publisher-".to_owned();
    r.append(number::write_numeral(hash, 16).as_str());
    r
}

/// The name of the publisher of an endpoint.
pub fn name(rt: &Runtime) -> (r: String)
    ensures
        r@ == publisher_name(rt.endpoint@),
{
    let mut h = DefaultHasher::new();
    h.write(rt.endpoint.as_str().as_bytes());
    let end: [u8; 1] = [0xff];
    h.write(&end);
    proof {
        assert(end@ =~= seq![0xffu8]);
        assert(h@ =~= seq![vstd::utf8::encode_utf8(rt.endpoint@), seq![0xffu8]]);
    }
    name_of_hash(h.finish())
}

/// A file of the publisher of an endpoint.
fn file_of(rt: &Runtime, paths: &Paths, ending: &str) -> (r: String)
    ensures
        r@ == paths::joined_path(paths.state@, publisher_name(rt.endpoint@) + ending@),
{
    let mut file = name(rt);
    file.append(ending);
    join_path(paths.state.as_str(), file.as_str())
}

/// The file that the publisher of an endpoint locks.
pub fn lock_file(rt: &Runtime, paths: &Paths) -> (r: String)
    ensures
        r@ == paths::joined_path(paths.state@, publisher_name(rt.endpoint@) + ".lock"@),
{
    file_of(rt, paths, ".lock")
}

/// The file that asks the publisher of an endpoint to end.
pub fn stop_file(rt: &Runtime, paths: &Paths) -> (r: String)
    ensures
        r@ == paths::joined_path(paths.state@, publisher_name(rt.endpoint@) + ".stop"@),
{
    file_of(rt, paths, ".stop")
}

/// The file that publishers write their complaints to.
pub fn log_file(paths: &Paths) -> (r: String)
    ensures
        r@ == paths::joined_path(paths.state@, "publisher.log"@),
{
    join_path(paths.state.as_str(), "publisher.log")
}

// ---------------------------------------------------------------------------
// Starting, stopping, serving
// ---------------------------------------------------------------------------

/// What to do about a publisher that is to come up or to end.
#[derive(Clone, Copy, Debug, PartialEq, Eq, Structural)]
pub enum Progress {
    /// It has.
    Done,
    /// Look again after a moment.
    Wait,
    /// It will not, for the reason given.
    Failed(PublisherError),
}

/// How many milliseconds a publisher may take to come up.
pub const START_MILLIS: u64 = 2000;

/// How many milliseconds a publisher may take to end.
pub const STOP_MILLIS: u64 = 12000;

/// Whether a publisher is to be started, where `enabled` tells whether the plugin is enabled and
/// `locked` whether a publisher holds the lock: there is never a second one.
pub fn start_first(enabled: bool, locked: bool) -> (r: Result<bool, PublisherError>)
    ensures
        !enabled ==> r == Err::<bool, PublisherError>(PublisherError::NotConfigured),
        enabled ==> r == Ok::<bool, PublisherError>(!locked),
{
    if enabled {
        Ok(!locked)
    } else {
        Err(PublisherError::NotConfigured)
    }
}

/// What is to be done about a publisher that was started.
pub open spec fn start_after(waited: u64, locked: bool, exited: bool) -> Progress {
    if waited >= START_MILLIS {
        Progress::Failed(PublisherError::NotStarted)
    } else if locked {
        Progress::Done
    } else if exited {
        Progress::Failed(PublisherError::Exited)
    } else {
        Progress::Wait
    }
}

/// What is to be done about a publisher that was asked to end.
pub open spec fn stop_after(waited: u64, locked: bool) -> Progress {
    if waited >= STOP_MILLIS {
        Progress::Failed(PublisherError::NotStopped)
    } else if locked {
        Progress::Wait
    } else {
        Progress::Done
    }
}

/// What to do about a publisher that was started: `waited` tells how many milliseconds it has been
/// waited for, `locked` whether a publisher holds the lock, and `exited` whether this one has ended.
pub fn start(waited: u64, locked: bool, exited: bool) -> (r: Progress)
    ensures
        r == start_after(waited, locked, exited),
{
    if waited >= START_MILLIS {
        Progress::Failed(PublisherError::NotStarted)
    } else if locked {
        Progress::Done
    } else if exited {
        Progress::Failed(PublisherError::Exited)
    } else {
        Progress::Wait
    }
}

/// What to do about a publisher that was asked to end: `waited` tells how many milliseconds it has
/// been waited for, and `locked` whether a publisher holds the lock.
pub fn stop(waited: u64, locked: bool) -> (r: Progress)
    ensures
        r == stop_after(waited, locked),
{
    if waited >= STOP_MILLIS {
        Progress::Failed(PublisherError::NotStopped)
    } else if locked {
        Progress::Wait
    } else {
        Progress::Done
    }
}

/// How many failures in a row end a publisher.
pub const MAX_FAILURES: u32 = 4;

/// How many seconds lie between two looks for reports that have become stale.
pub const SCAN_SECONDS: u64 = 15;

/// Where a publisher is: which version of the database it has published, if any, and how often it
/// has failed since.
#[derive(Clone, Copy, Debug, PartialEq, Eq, Structural)]
pub struct Serving {
    pub version: i64,
    pub failures: u32,
}

/// What to do after something was to be published.
#[derive(Clone, Copy, Debug, PartialEq, Eq, Structural)]
pub enum Next {
    /// Go on.
    Continue,
    /// Go on after so many seconds.
    Pause(u64),
    /// End with the failure.
    Fail,
}

/// What a publisher does in a round.
#[derive(Clone, Copy, Debug, PartialEq, Eq, Structural)]
pub enum Turn {
    /// Nothing.
    Rest,
    /// Publish what is shown.
    Publish,
    /// Take every slot out of use and publish that nothing is shown.
    Clear,
}

/// What a publisher does after a round.
#[derive(Clone, Copy, Debug, PartialEq, Eq, Structural)]
pub enum Step {
    /// Go on with another round after a moment.
    Again,
    /// End.
    End,
    /// End with the failure.
    Fail,
}

/// Whether a process that is to be a publisher becomes one, where `locked` tells whether another holds
/// the lock.
pub fn serve_first(locked: bool) -> (r: bool)
    ensures
        r == !locked,
{
    !locked
}

/// Whether a publisher is to end, where `enabled` tells whether the plugin is enabled and `asked`
/// whether it was asked to end.
pub fn is_ending(enabled: bool, asked: bool) -> (r: bool)
    ensures
        r == (!enabled || asked),
{
    !enabled || asked
}

/// What a publisher does after a round in which it was to end or not, and in which `next` came of what
/// was published, if anything was. It ends after the last round whether or not that succeeded, but
/// for a failure too many.
pub open spec fn step_after(ending: bool, next: Next) -> Step {
    if next is Fail {
        Step::Fail
    } else if ending {
        Step::End
    } else {
        Step::Again
    }
}

/// What a publisher does after a round.
pub fn after(ending: bool, next: Next) -> (r: Step)
    ensures
        r == step_after(ending, next),
{
    match next {
        Next::Fail => Step::Fail,
        _ => if ending {
            Step::End
        } else {
            Step::Again
        },
    }
}

impl Serving {
    /// What the publisher does in a round: it publishes at the end, when the database has changed, and
    /// when the last time is `elapsed` seconds ago and that is long. At the end it clears.
    pub open spec fn turn(self, ending: bool, version: i64, elapsed: u64) -> Turn {
        if ending {
            Turn::Clear
        } else if version != self.version || elapsed >= SCAN_SECONDS {
            Turn::Publish
        } else {
            Turn::Rest
        }
    }

    /// The publisher after something was to be published, and what to do then. After each failure the
    /// pause doubles.
    pub open spec fn having_served(self, success: bool, version: i64) -> (Serving, Next) {
        if success {
            (Serving { version, failures: 0 }, Next::Continue)
        } else {
            let after = Serving { version: self.version, failures: (self.failures + 1) as u32 };
            (
                after,
                if after.running() {
                    Next::Pause(pause(after.failures as nat) as u64)
                } else {
                    Next::Fail
                },
            )
        }
    }

    /// Whether the publisher is still running.
    pub open spec fn running(self) -> bool {
        self.failures < MAX_FAILURES
    }

    /// A publisher that has published nothing.
    pub fn new() -> (r: Serving)
        ensures
            r.version == -1,
            r.failures == 0,
            r.running(),
    {
        Serving { version: -1, failures: 0 }
    }

    /// What the publisher does in a round.
    pub fn serve(&self, ending: bool, version: i64, elapsed: u64) -> (r: Turn)
        ensures
            r == self.turn(ending, version, elapsed),
    {
        if ending {
            Turn::Clear
        } else if version != self.version || elapsed >= SCAN_SECONDS {
            Turn::Publish
        } else {
            Turn::Rest
        }
    }

    /// Notes whether the version `version` was published.
    pub fn served(&mut self, success: bool, version: i64) -> (r: Next)
        requires
            old(self).running(),
        ensures
            (*final(self), r) == old(self).having_served(success, version),
    {
        if success {
            self.version = version;
            self.failures = 0;
            return Next::Continue;
        }
        self.failures = self.failures + 1;
        if self.failures >= MAX_FAILURES {
            return Next::Fail;
        }
        let mut seconds: u64 = 1;
        for i in 0..self.failures
            invariant
                self.failures < MAX_FAILURES,
                seconds == pause(i as nat),
                seconds <= 8,
                pause(0) == 1,
                pause(1) == 2,
                pause(2) == 4,
                pause(3) == 8,
        {
            seconds = seconds * 2;
        }
        proof {
            reveal_with_fuel(pause, 5);
        }
        Next::Pause(seconds)
    }
}

/// The pause after so many failures in a row, in seconds.
pub open spec fn pause(failures: nat) -> nat
    decreases failures,
{
    if failures == 0 {
        1
    } else {
        2 * pause((failures - 1) as nat)
    }
}

// ---------------------------------------------------------------------------
// What is sent
// ---------------------------------------------------------------------------

/// The panes in what Herdr says of itself.
pub open spec fn panes_in(snapshot: json::JsonTree) -> Option<Seq<json::JsonTree>> {
    snapshot.member("snapshot"@).member("panes"@).list()
}

/// The panes in what Herdr says of itself.
pub fn panes<'a>(snapshot: &'a Json) -> (r: Result<&'a Vec<Json>, PublisherError>)
    ensures
        match panes_in(snapshot@) {
            Some(s) => r is Ok && json::trees(r->Ok_0@) == s,
            None => r is Err && r->Err_0 == PublisherError::NoPanes,
        },
{
    let listed: Option<&'a Json> = match snapshot.get("snapshot") {
        Some(inner) => inner.get("panes"),
        None => None,
    };
    match listed {
        Some(listed) => match listed.list() {
            Some(v) => Ok(v),
            None => Err(PublisherError::NoPanes),
        },
        None => Err(PublisherError::NoPanes),
    }
}

/// Whether a pane is that of a terminal.
pub open spec fn shows(pane: json::JsonTree, terminal: Seq<char>) -> bool {
    pane.member("terminal_id"@) == json::JsonTree::Text(terminal)
}

/// The first of `panes` that is that of a terminal.
pub open spec fn first_pane(panes: Seq<json::JsonTree>, terminal: Seq<char>) -> Option<
    json::JsonTree,
>
    decreases panes.len(),
{
    if panes.len() == 0 {
        None
    } else if shows(panes[0], terminal) {
        Some(panes[0])
    } else {
        first_pane(panes.drop_first(), terminal)
    }
}

/// The pane of a terminal. Where there is none, the terminal is closed for good, and what is kept for
/// it can go.
pub fn find_pane<'a>(panes: &'a Vec<Json>, terminal: &str) -> (r: Option<&'a Json>)
    ensures
        match r {
            Some(p) => first_pane(json::trees(panes@), terminal@) == Some(p@),
            None => first_pane(json::trees(panes@), terminal@) is None,
        },
{
    let n: usize = panes.len();
    let ghost all = json::trees(panes@);
    assert(all.skip(0) =~= all);
    for i in 0..n
        invariant
            n == panes@.len(),
            all == json::trees(panes@),
            first_pane(all, terminal@) == first_pane(all.skip(i as int), terminal@),
    {
        proof {
            assert(all.skip(i as int)[0] == panes@[i as int]@);
            assert(all.skip(i as int).drop_first() =~= all.skip(i + 1));
        }
        if let Some(id) = panes[i].text_of("terminal_id") {
            if same_text(id.as_str(), terminal) {
                return Some(&panes[i]);
            }
        }
    }
    None
}

/// What is shown of a slot: the tokens, the line that sums them up, and both as one text, by which it
/// is known whether they have changed.
pub struct Shown {
    pub tokens: [Option<String>; 3],
    pub summary: Option<String>,
    pub rendered: String,
}

/// Tokens and their summary as one text, in the form of JSON.
pub open spec fn rendered_text(
    tokens: Seq<Option<Seq<char>>>,
    summary: Option<Seq<char>>,
) -> Seq<char> {
    "[["@ + json::quoted_or_null(tokens[0]) + ","@ + json::quoted_or_null(tokens[1]) + ","@
        + json::quoted_or_null(tokens[2]) + "],"@ + json::quoted_or_null(summary) + "]"@
}

/// `serde_json::to_string` of the tokens and their summary: it does not fail, and writes them as an
/// array of the tokens, an array themselves, and the summary.
#[verifier::external_body]
fn render(tokens: &[Option<String>; 3], summary: &Option<String>) -> (r: String)
    ensures
        r@ == rendered_text(state::option_views(tokens@), text::option_view(*summary)),
{
    serde_json::to_string(&(tokens, summary)).unwrap()
}

/// What is shown of a slot at the time `now`, as one text.
pub open spec fn rendering(s: state::SlotView, now: i64) -> Seq<char> {
    let shown = state::token_texts(s, now);
    rendered_text(shown, state::summary_text(shown))
}

/// What is shown of a slot at the time `now`.
pub fn show(s: &Slot, now: i64) -> (r: Shown)
    ensures
        state::option_views(r.tokens@) == state::token_texts(s@, now),
        text::option_view(r.summary) == state::summary_text(state::token_texts(s@, now)),
        r.rendered@ == rendering(s@, now),
{
    let tokens: [Option<String>; 3] = tokens(s, now);
    let summary: Option<String> = summary(&tokens);
    let rendered = render(&tokens, &summary);
    Shown { tokens, summary, rendered }
}

/// What to do about a terminal.
pub enum Plan {
    /// Nothing: nothing is kept for it.
    Skip,
    /// Remove what is kept for it: it is closed for good.
    Remove,
    /// Keep this slot. What is shown of it was published.
    Keep(Slot),
    /// Send what is shown and, where that was done, keep this slot.
    Send(Slot, Shown),
}

/// A slot that is taken out of use where `revoke` says so.
pub open spec fn revoked_if(s: state::SlotView, revoke: bool) -> state::SlotView {
    state::SlotView { revoked: s.revoked || revoke, ..s }
}

/// Whether `r` is what there is to do about a terminal.
pub open spec fn planned(
    found: Option<state::SlotView>,
    open: bool,
    revoke: bool,
    now: i64,
    r: Plan,
) -> bool {
    match found {
        None => r is Skip,
        Some(s) => if !open {
            r is Remove
        } else {
            let after = revoked_if(s, revoke);
            let text = rendering(after, now);
            if s.published == text {
                r matches Plan::Keep(kept) && kept@ == after
            } else {
                &&& r is Send
                &&& r->Send_0@ == (state::SlotView { published: text, ..after })
                &&& state::option_views(r->Send_1.tokens@) == state::token_texts(after, now)
                &&& text::option_view(r->Send_1.summary) == state::summary_text(
                    state::token_texts(after, now),
                )
                &&& r->Send_1.rendered@ == text
            }
        },
    }
}

/// Whether `r` is what there is to do about a terminal: its slot is taken out of use where everything is
/// cleared or its agent no longer runs.
pub open spec fn published(
    found: Option<state::SlotView>,
    open: bool,
    clear: bool,
    live: bool,
    now: i64,
    r: Plan,
) -> bool {
    planned(found, open, clear || !live, now, r)
}

/// What to do about a terminal, where `found` is what is kept for it, `open` tells whether it has a
/// pane, `clear` whether everything is to be cleared, and `live` whether its agent still runs.
pub fn publish(found: Option<Slot>, open: bool, clear: bool, live: bool, now: i64) -> (r: Plan)
    ensures
        published(state::slot_view(found), open, clear, live, now, r),
{
    match found {
        None => Plan::Skip,
        Some(slot) => {
            if !open {
                return Plan::Remove;
            }
            let mut s = slot;
            if clear || !live {
                s.revoked = true;
            }
            let shown = show(&s, now);
            if same_text(s.published.as_str(), shown.rendered.as_str()) {
                Plan::Keep(s)
            } else {
                s.published = shown.rendered.clone();
                Plan::Send(s, shown)
            }
        },
    }
}

/// The names of what is sent, in order.
pub open spec fn token_names() -> Seq<Seq<char>> {
    seq![
        "agent_progress_percent"@,
        "agent_progress_freshness"@,
        "agent_progress_activity"@,
        "agent_progress_summary"@,
    ]
}

/// The arguments that set a token, or clear it where it is missing.
pub open spec fn token_args(name: Seq<char>, value: Option<Seq<char>>) -> Seq<Seq<char>> {
    match value {
        Some(v) => seq!["--token"@, name + "="@ + v],
        None => seq!["--clear-token"@, name],
    }
}

/// The arguments of a report.
pub open spec fn report_args(
    pane: Seq<char>,
    sequence: int,
    tokens: Seq<Option<Seq<char>>>,
    summary: Option<Seq<char>>,
) -> Seq<Seq<char>> {
    seq![
        "pane"@,
        "report-metadata"@,
        pane,
        "--source"@,
        "agent-progress"@,
        "--seq"@,
        number::decimal(sequence),
    ] + token_args(token_names()[0], tokens[0]) + token_args(token_names()[1], tokens[1])
        + token_args(token_names()[2], tokens[2]) + token_args(token_names()[3], summary)
}

/// Adds the arguments that set a token, or clear it where it is missing.
fn push_token(args: &mut Vec<String>, name: &str, value: &Option<String>)
    ensures
        text::views(final(args)@) == text::views(old(args)@) + token_args(
            name@,
            text::option_view(*value),
        ),
{
    match value {
        Some(v) => {
            let mut set = name.to_owned();
            set.append("=");
            set.append(v.as_str());
            args.push("--token".to_owned());
            args.push(set);
        },
        None => {
            args.push("--clear-token".to_owned());
            args.push(name.to_owned());
        },
    }
    assert(text::views(args@) =~= text::views(old(args)@) + token_args(
        name@,
        text::option_view(*value),
    ));
}

/// The arguments that report what is shown in the pane `pane`, under the number `sequence`.
pub fn metadata_args(pane: &str, sequence: i64, shown: &Shown) -> (r: Vec<String>)
    ensures
        text::views(r@) == report_args(
            pane@,
            sequence as int,
            state::option_views(shown.tokens@),
            text::option_view(shown.summary),
        ),
{
    let mut args: Vec<String> = Vec::new();
    args.push("pane".to_owned());
    args.push("report-metadata".to_owned());
    args.push(pane.to_owned());
    args.push("--source".to_owned());
    args.push("agent-progress".to_owned());
    args.push("--seq".to_owned());
    args.push(number::write_signed(sequence));
    assert(text::views(args@) =~= seq![
        "pane"@,
        "report-metadata"@,
        pane@,
        "--source"@,
        "agent-progress"@,
        "--seq"@,
        number::decimal(sequence as int),
    ]);
    push_token(&mut args, "agent_progress_percent", &shown.tokens[0]);
    push_token(&mut args, "agent_progress_freshness", &shown.tokens[1]);
    push_token(&mut args, "agent_progress_activity", &shown.tokens[2]);
    push_token(&mut args, "agent_progress_summary", &shown.summary);
    args
}

// ---------------------------------------------------------------------------
// What holds of every publication
// ---------------------------------------------------------------------------

/// A report is one that Herdr may answer with nothing, carries its number, and sets or clears each of
/// the four tokens.
pub proof fn law_report_is_complete(
    pane: Seq<char>,
    sequence: int,
    tokens: Seq<Option<Seq<char>>>,
    summary: Option<Seq<char>>,
    k: int,
)
    requires
        tokens.len() == 3,
        0 <= k < 4,
    ensures
        ({
            let args = report_args(pane, sequence, tokens, summary);
            let value = if k < 3 {
                tokens[k]
            } else {
                summary
            };
            &&& runtime::is_report(args)
            &&& args.len() == 15
            &&& args[5] == "--seq"@
            &&& args[6] == number::decimal(sequence)
            &&& args.subrange(7 + 2 * k, 9 + 2 * k) == token_args(token_names()[k], value)
        }),
{
    let args = report_args(pane, sequence, tokens, summary);
    let value = if k < 3 {
        tokens[k]
    } else {
        summary
    };
    assert(args.subrange(7 + 2 * k, 9 + 2 * k) =~= token_args(token_names()[k], value));
}

/// What was sent is not sent again until something else is to be shown.
pub proof fn law_sent_is_not_sent_again(
    s: state::SlotView,
    revoke: bool,
    at: i64,
    now: i64,
    first: Plan,
    second: Plan,
)
    requires
        planned(Some(s), true, revoke, at, first),
        first is Send,
        planned(Some(first->Send_0@), true, false, now, second),
        rendering(revoked_if(s, revoke), now) == rendering(revoked_if(s, revoke), at),
    ensures
        second is Keep,
        second->Keep_0@ == first->Send_0@,
{
    let after = first->Send_0@;
    assert(state::token_texts(revoked_if(after, false), now) == state::token_texts(
        revoked_if(s, revoke),
        now,
    ));
    assert(revoked_if(after, false) == after);
}

/// A slot that was taken out of use stays so, whatever is published of it.
pub proof fn law_revoked_stays_revoked(
    s: state::SlotView,
    revoke: bool,
    now: i64,
    r: Plan,
)
    requires
        s.revoked || revoke,
        planned(Some(s), true, revoke, now, r),
    ensures
        r is Keep ==> r->Keep_0@.revoked,
        r is Send ==> r->Send_0@.revoked,
{
}

/// A slot that is taken out of use is published as one of which nothing is shown: every token is
/// cleared.
pub proof fn law_revoked_slot_is_cleared(
    s: state::SlotView,
    pane: Seq<char>,
    sequence: int,
    now: i64,
    k: int,
)
    requires
        s.revoked,
        0 <= k < 4,
    ensures
        ({
            let shown = state::token_texts(s, now);
            let args = report_args(pane, sequence, shown, state::summary_text(shown));
            args.subrange(7 + 2 * k, 9 + 2 * k) == seq!["--clear-token"@, token_names()[k]]
        }),
{
    let shown = state::token_texts(s, now);
    reveal_with_fuel(state::present, 4);
    assert(shown =~= seq![None::<Seq<char>>, None, None]);
    assert(state::present(shown) =~= Seq::<Seq<char>>::empty());
    law_report_is_complete(pane, sequence, shown, state::summary_text(shown), k);
}

/// A publisher that keeps failing ends, after pauses of two, four and eight seconds.
pub proof fn law_pauses_double(failures: nat)
    ensures
        pause(failures + 1) == 2 * pause(failures),
        pause(1) == 2,
        pause(2) == 4,
        pause(3) == 8,
{
    reveal_with_fuel(pause, 5);
}

/// Tokens and a summary can be told from the text that they are known by.
pub proof fn law_rendering_tells_tokens_apart(
    a: Seq<Option<Seq<char>>>,
    x: Option<Seq<char>>,
    b: Seq<Option<Seq<char>>>,
    y: Option<Seq<char>>,
)
    requires
        a.len() == 3,
        b.len() == 3,
        rendered_text(a, x) == rendered_text(b, y),
    ensures
        a == b,
        x == y,
{
    let s3 = json::quoted_or_null(x) + "]"@;
    let t3 = json::quoted_or_null(y) + "]"@;
    let s2 = json::quoted_or_null(a[2]) + ("],"@ + s3);
    let t2 = json::quoted_or_null(b[2]) + ("],"@ + t3);
    let s1 = json::quoted_or_null(a[1]) + (","@ + s2);
    let t1 = json::quoted_or_null(b[1]) + (","@ + t2);
    let s0 = json::quoted_or_null(a[0]) + (","@ + s1);
    let t0 = json::quoted_or_null(b[0]) + (","@ + t1);
    lemma_nested(
        json::quoted_or_null(a[0]),
        json::quoted_or_null(a[1]),
        json::quoted_or_null(a[2]),
        json::quoted_or_null(x),
    );
    lemma_nested(
        json::quoted_or_null(b[0]),
        json::quoted_or_null(b[1]),
        json::quoted_or_null(b[2]),
        json::quoted_or_null(y),
    );
    lemma_same_rest("[["@, s0, t0);
    json::law_quoted_strings_are_told_apart(a[0], ","@ + s1, b[0], ","@ + t1);
    lemma_same_rest(","@, s1, t1);
    json::law_quoted_strings_are_told_apart(a[1], ","@ + s2, b[1], ","@ + t2);
    lemma_same_rest(","@, s2, t2);
    json::law_quoted_strings_are_told_apart(a[2], "],"@ + s3, b[2], "],"@ + t3);
    lemma_same_rest("],"@, s3, t3);
    json::law_quoted_strings_are_told_apart(x, "]"@, y, "]"@);
    assert(a =~= b);
}

/// The parts of a rendered text, each with all that follows it.
proof fn lemma_nested(p: Seq<char>, q: Seq<char>, r: Seq<char>, s: Seq<char>)
    ensures
        "[["@ + p + ","@ + q + ","@ + r + "],"@ + s + "]"@ == "[["@ + (p + (","@ + (q + (","@ + (r
            + ("],"@ + (s + "]"@))))))),
{
    assert("[["@ + p + ","@ + q + ","@ + r + "],"@ + s + "]"@ =~= "[["@ + (p + (","@ + (q + (","@ + (
    r + ("],"@ + (s + "]"@))))))));
}

/// Texts that start alike and are the same go on alike.
proof fn lemma_same_rest(start: Seq<char>, a: Seq<char>, b: Seq<char>)
    requires
        start + a == start + b,
    ensures
        a == b,
{
    let n = start.len() as int;
    assert(a =~= (start + a).skip(n));
    assert(b =~= (start + b).skip(n));
}

/// Whatever differs from what was published last is sent.
pub proof fn law_what_differs_is_sent(
    s: state::SlotView,
    revoke: bool,
    now: i64,
    tokens: Seq<Option<Seq<char>>>,
    summary: Option<Seq<char>>,
    r: Plan,
)
    requires
        tokens.len() == 3,
        s.published == rendered_text(tokens, summary),
        ({
            let shown = state::token_texts(revoked_if(s, revoke), now);
            tokens != shown || summary != state::summary_text(shown)
        }),
        planned(Some(s), true, revoke, now, r),
    ensures
        r is Send,
{
    let shown = state::token_texts(revoked_if(s, revoke), now);
    if rendering(revoked_if(s, revoke), now) == s.published {
        law_rendering_tells_tokens_apart(
            shown,
            state::summary_text(shown),
            tokens,
            summary,
        );
    }
}

/// A publisher that has published nothing.
pub open spec fn nothing_published() -> Serving {
    Serving { version: (-1) as i64, failures: 0 }
}

/// A round of a publisher: whether it was to end, the version of the database, how many seconds ago it
/// had published, and whether publishing succeeded.
pub ghost struct Round {
    pub ending: bool,
    pub version: i64,
    pub elapsed: u64,
    pub success: bool,
}

/// A publisher after a round, and what it does then.
pub open spec fn after_round(s: Serving, round: Round) -> (Serving, Step) {
    if s.turn(round.ending, round.version, round.elapsed) is Rest {
        (s, step_after(round.ending, Next::Continue))
    } else {
        let (then, next) = s.having_served(round.success, round.version);
        (then, step_after(round.ending, next))
    }
}

/// A publisher after the given rounds, where it goes on after all of them.
pub open spec fn after_rounds(rounds: Seq<Round>) -> Option<Serving>
    decreases rounds.len(),
{
    if rounds.len() == 0 {
        Some(nothing_published())
    } else {
        match after_rounds(rounds.drop_last()) {
            None => None,
            Some(s) => {
                let (then, step) = after_round(s, rounds.last());
                if step is Again {
                    Some(then)
                } else {
                    None
                }
            },
        }
    }
}

/// A publisher goes on exactly as long as it is not to end and has not failed too often in a row.
pub proof fn law_publisher_goes_on(rounds: Seq<Round>)
    ensures
        match after_rounds(rounds) {
            Some(s) => s.running() && forall|i: int|
                0 <= i < rounds.len() ==> !(#[trigger] rounds[i]).ending,
            None => true,
        },
    decreases rounds.len(),
{
    if rounds.len() > 0 {
        let front = rounds.drop_last();
        law_publisher_goes_on(front);
        if after_rounds(rounds) is Some {
            assert forall|i: int| 0 <= i < rounds.len() implies !(#[trigger] rounds[i]).ending by {
                if i < front.len() {
                    assert(front[i] == rounds[i]);
                }
            }
        }
    }
}

/// A publisher that ends has cleared, or tried to: it ends after a round in which it was to end, and in
/// that it took every slot out of use. One that fails has failed as often in a row as it may.
pub proof fn law_publisher_clears_before_it_ends(rounds: Seq<Round>, last: Round)
    requires
        after_rounds(rounds) is Some,
    ensures
        ({
            let s = after_rounds(rounds)->0;
            let (then, step) = after_round(s, last);
            &&& step is End ==> last.ending
            &&& last.ending ==> s.turn(last.ending, last.version, last.elapsed) is Clear && !(
            step is Again)
            &&& step is Fail <==> !last.success && s.failures == MAX_FAILURES - 1 && !(s.turn(
                last.ending,
                last.version,
                last.elapsed,
            ) is Rest)
        }),
{
    law_publisher_goes_on(rounds);
}

/// Clearing takes every slot of an open terminal out of use; what is then sent of it clears every token,
/// and where nothing is sent, nothing was shown.
pub proof fn law_clearing_leaves_nothing_shown(
    s: state::SlotView,
    live: bool,
    now: i64,
    r: Plan,
    pane: Seq<char>,
    sequence: int,
    k: int,
)
    requires
        planned(Some(s), true, true || !live, now, r),
        0 <= k < 4,
    ensures
        r is Keep || r is Send,
        r is Keep ==> r->Keep_0@.revoked && s.published == rendered_text(
            seq![None::<Seq<char>>, None, None],
            None,
        ),
        r is Send ==> r->Send_0@.revoked && ({
            let args = report_args(
                pane,
                sequence,
                state::option_views(r->Send_1.tokens@),
                text::option_view(r->Send_1.summary),
            );
            args.subrange(7 + 2 * k, 9 + 2 * k) == seq!["--clear-token"@, token_names()[k]]
        }),
{
    let after = revoked_if(s, true);
    let shown = state::token_texts(after, now);
    law_revoked_slot_is_cleared(after, pane, sequence, now, k);
    reveal_with_fuel(state::present, 4);
    assert(shown =~= seq![None::<Seq<char>>, None, None]);
    assert(state::present(shown) =~= Seq::<Seq<char>>::empty());
}

} // verus!
