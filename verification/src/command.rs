//! What is asked for on the command line, and what is answered.
use vstd::prelude::*;

use crate::display;
use crate::hooks;
use crate::hooks::context;
use crate::json;
use crate::json::{
    json_list, json_number, json_object, json_signed, json_text, write_json, Json,
};
use crate::number;
use crate::paths;
use crate::paths::{join_path, Paths};
use crate::setup::Configure;
use crate::state;
use crate::state::{
    begin, bootstrap, bound, clear, report, same_identity, tokens, Identity, Slot, StateError, Task,
};
use crate::text;

verus! {

/// What an agent asks for in its own name.
#[derive(Debug)]
pub enum Request {
    /// To be told of its binding and its task.
    Context,
    /// What is shown of it.
    Status,
    /// That a task begins.
    Begin { expected_task: String, title: String },
    /// How far its task has come.
    Report { task: String, percent: Option<u8>, activity: String },
    /// That its task is cleared.
    Clear { task: String },
}

/// What is asked for.
#[derive(Debug)]
pub enum Action {
    /// Something that the agent with this binding asks for.
    Bound { binding: String, request: Request },
    /// To set the plugin up.
    Configure(Configure),
    /// To take the plugin down.
    Unconfigure,
    /// How the plugin is set up.
    Doctor,
    /// To bind the agent in a pane.
    Activate { pane: Option<String> },
    /// To start the publisher.
    Start,
    /// To start the publisher where the plugin is configured.
    Startup,
    /// To stop the publisher.
    Stop,
    /// To be the publisher.
    Serve,
    /// To be a hook.
    Hook,
}

/// Why something that is asked for is not done.
#[derive(Clone, Copy, Debug, PartialEq, Eq, Structural)]
pub enum CommandError {
    /// Nothing is asked for.
    NoCommand,
    /// A report is to go to another endpoint than the caller's.
    OtherEndpoint,
    /// The plugin is not configured.
    NotConfigured,
    /// The plugin is not configured, or no longer.
    NotEnabled,
    /// No pane is named.
    NoPane,
    /// Another agent runs than when it was to be bound.
    ActivationChanged,
    /// Another agent runs than when it asked.
    CommandChanged,
}

impl CommandError {
    /// What is wrong, in words.
    pub open spec fn message_text(self) -> Seq<char> {
        match self {
            CommandError::NoCommand => "Choose a command; see --help"@,
            CommandError::OtherEndpoint => {
                "Reporting commands cannot override the caller endpoint"@
            },
            CommandError::NotConfigured => "Plugin is not configured"@,
            CommandError::NotEnabled => {
                "Plugin is not configured or its Herdr registration is disabled/missing"@
            },
            CommandError::NoPane => "Select a live pane with --pane or a Herdr plugin action"@,
            CommandError::ActivationChanged => "Agent changed while activation waited"@,
            CommandError::CommandChanged => "Agent changed while command waited"@,
        }
    }

    /// What is wrong, in words.
    pub fn message(&self) -> (r: String)
        ensures
            r@ == self.message_text(),
    {
        match self {
            CommandError::NoCommand => "Choose a command; see --help".to_owned(),
            CommandError::OtherEndpoint => {
                "Reporting commands cannot override the caller endpoint".to_owned()
            },
            CommandError::NotConfigured => "Plugin is not configured".to_owned(),
            CommandError::NotEnabled => {
                "Plugin is not configured or its Herdr registration is disabled/missing".to_owned()
            },
            CommandError::NoPane => {
                "Select a live pane with --pane or a Herdr plugin action".to_owned()
            },
            CommandError::ActivationChanged => "Agent changed while activation waited".to_owned(),
            CommandError::CommandChanged => "Agent changed while command waited".to_owned(),
        }
    }
}

// ---------------------------------------------------------------------------
// What is allowed
// ---------------------------------------------------------------------------

/// What to do with something that is asked for.
#[derive(Clone, Copy, Debug, PartialEq, Eq, Structural)]
pub enum Gate {
    /// Do it.
    Pass,
    /// Say how to configure the plugin, and no more.
    Hint,
    /// Be a hook, whose failures stop nobody.
    Hook,
    /// Refuse it.
    Refuse(CommandError),
}

/// What is to be done with `action`.
pub open spec fn gated(action: Action, endpoint: bool, enabled: bool) -> Gate {
    match action {
        Action::Startup => if enabled {
            Gate::Pass
        } else {
            Gate::Hint
        },
        Action::Hook => Gate::Hook,
        Action::Bound { .. } => if endpoint {
            Gate::Refuse(CommandError::OtherEndpoint)
        } else {
            Gate::Pass
        },
        _ => Gate::Pass,
    }
}

/// Why `action` cannot be done, if it cannot, for want of a plugin that is enabled.
pub open spec fn enabled_fault(action: Action, enabled: bool) -> Option<CommandError> {
    match action {
        Action::Activate { .. } => if enabled {
            None
        } else {
            Some(CommandError::NotConfigured)
        },
        Action::Bound { .. } => if enabled {
            None
        } else {
            Some(CommandError::NotEnabled)
        },
        _ => None,
    }
}

/// What to do with `action`, where `endpoint` tells whether an endpoint is named and `enabled` whether
/// the plugin is enabled.
pub fn gate(action: &Action, endpoint: bool, enabled: bool) -> (r: Gate)
    ensures
        r == gated(*action, endpoint, enabled),
{
    match action {
        Action::Startup => if enabled {
            Gate::Pass
        } else {
            Gate::Hint
        },
        Action::Hook => Gate::Hook,
        Action::Bound { .. } => if endpoint {
            Gate::Refuse(CommandError::OtherEndpoint)
        } else {
            Gate::Pass
        },
        _ => Gate::Pass,
    }
}

/// Whether `action` can be done where `enabled` tells whether the plugin is enabled: an agent can be
/// bound, and report, only then.
pub fn check_enabled(action: &Action, enabled: bool) -> (r: Result<(), CommandError>)
    ensures
        match enabled_fault(*action, enabled) {
            None => r is Ok,
            Some(e) => r == Err::<(), CommandError>(e),
        },
{
    match action {
        Action::Activate { .. } => if enabled {
            Ok(())
        } else {
            Err(CommandError::NotConfigured)
        },
        Action::Bound { .. } => if enabled {
            Ok(())
        } else {
            Err(CommandError::NotEnabled)
        },
        _ => Ok(()),
    }
}

/// The pane whose agent is to be bound: the one that was named, or else the caller's.
pub fn choose_pane(pane: Option<String>, inherited: Option<String>) -> (r: Result<
    String,
    CommandError,
>)
    ensures
        match text::named_or(text::option_view(pane), text::option_view(inherited)) {
            Some(p) => r is Ok && r->Ok_0@ == p,
            None => r == Err::<String, CommandError>(CommandError::NoPane),
        },
{
    match (pane, inherited) {
        (Some(p), _) => Ok(p),
        (None, Some(p)) => Ok(p),
        (None, None) => Err(CommandError::NoPane),
    }
}

// ---------------------------------------------------------------------------
// What an agent asks for
// ---------------------------------------------------------------------------

/// A text that may be missing, as a value.
pub open spec fn text_tree(s: Option<Seq<char>>) -> json::JsonTree {
    match s {
        Some(s) => json::JsonTree::Text(s),
        None => json::JsonTree::Null,
    }
}

/// A number that may be missing, as a value.
pub open spec fn number_tree(n: Option<int>) -> json::JsonTree {
    match n {
        Some(n) => json::JsonTree::Number(number::decimal(n)),
        None => json::JsonTree::Null,
    }
}

/// A task that may be missing, as a value.
pub open spec fn task_tree(task: Option<state::TaskView>) -> json::JsonTree {
    match task {
        None => json::JsonTree::Null,
        Some(t) => json::JsonTree::Object(
            seq![
                ("id"@, json::JsonTree::Text(t.id)),
                ("title"@, json::JsonTree::Text(t.title)),
                ("percent"@, number_tree(hooks::percent_number(t.percent))),
                ("activity"@, text_tree(t.activity)),
                ("reported_at"@, number_tree(hooks::time_number(t.reported_at))),
                ("cleared"@, json::JsonTree::Bool(t.cleared)),
            ],
        ),
    }
}

/// A text that may be missing, as a value.
fn optional_text(s: &Option<String>) -> (r: Json)
    ensures
        r@ == text_tree(text::option_view(*s)),
{
    match s {
        Some(s) => json_text(s.as_str()),
        None => Json::Null,
    }
}

/// A task that may be missing, as a value.
fn task_value(task: &Option<Task>) -> (r: Json)
    ensures
        r@ == task_tree(state::task_view(*task)),
{
    match task {
        None => Json::Null,
        Some(t) => {
            let percent = match t.percent {
                Some(p) => json_number(p as u64),
                None => Json::Null,
            };
            let reported_at = match t.reported_at {
                Some(at) => json_signed(at),
                None => Json::Null,
            };
            let cleared = Json::Bool(t.cleared);
            let mut members: Vec<(String, Json)> = Vec::new();
            members.push(("id".to_owned(), json_text(t.id.as_str())));
            members.push(("title".to_owned(), json_text(t.title.as_str())));
            members.push(("percent".to_owned(), percent));
            members.push(("activity".to_owned(), optional_text(&t.activity)));
            members.push(("reported_at".to_owned(), reported_at));
            members.push(("cleared".to_owned(), cleared));
            assert(json::member_trees(members@) =~= task_tree(Some(t@))->Object_0);
            json_object(members)
        },
    }
}

/// The answer that tells a task, as a value.
pub open spec fn task_answer(task: Option<state::TaskView>) -> json::JsonTree {
    json::JsonTree::Object(seq![("task"@, task_tree(task))])
}

/// The answer that tells what is shown of an agent, as a value.
pub open spec fn status_answer(s: state::SlotView, now: i64) -> json::JsonTree {
    let shown = state::token_texts(s, now);
    json::JsonTree::Object(
        seq![
            ("task"@, task_tree(s.task)),
            ("binding"@, json::JsonTree::Text(s.binding)),
            (
                "tokens"@,
                json::JsonTree::List(
                    seq![text_tree(shown[0]), text_tree(shown[1]), text_tree(shown[2])],
                ),
            ),
        ],
    )
}

/// The answer that tells a task.
fn answer_task(task: &Option<Task>) -> (r: String)
    ensures
        r@ == json::json_written(json::normal(task_answer(state::task_view(*task)))),
{
    let mut members: Vec<(String, Json)> = Vec::new();
    members.push(("task".to_owned(), task_value(task)));
    assert(json::member_trees(members@) =~= task_answer(state::task_view(*task))->Object_0);
    write_json(&json_object(members))
}

/// The answer that tells what is shown of an agent.
fn answer_status(s: &Slot, now: i64) -> (r: String)
    ensures
        r@ == json::json_written(json::normal(status_answer(s@, now))),
{
    let shown: [Option<String>; 3] = tokens(s, now);
    let ghost views = state::option_views(shown@);
    let mut list: Vec<Json> = Vec::new();
    list.push(optional_text(&shown[0]));
    list.push(optional_text(&shown[1]));
    list.push(optional_text(&shown[2]));
    proof {
        assert(views[0] == text::option_view(shown@[0]));
        assert(views[1] == text::option_view(shown@[1]));
        assert(views[2] == text::option_view(shown@[2]));
        assert(json::trees(list@) =~= status_answer(s@, now)->Object_0[2].1->List_0);
    }
    let mut members: Vec<(String, Json)> = Vec::new();
    members.push(("task".to_owned(), task_value(&s.task)));
    members.push(("binding".to_owned(), json_text(s.binding.as_str())));
    members.push(("tokens".to_owned(), json_list(list)));
    assert(json::member_trees(members@) =~= status_answer(s@, now)->Object_0);
    write_json(&json_object(members))
}

/// Why a request is refused, if it is.
pub open spec fn request_fault(request: Request, s: state::SlotView) -> Option<StateError> {
    match request {
        Request::Context => None,
        Request::Status => None,
        Request::Begin { expected_task, title } => state::begin_fault(s, expected_task@, title@),
        Request::Report { task, percent, activity } => state::report_fault(
            s,
            task@,
            percent,
            activity@,
        ),
        Request::Clear { task } => if state::open_task(s.task, task@) {
            None
        } else {
            Some(StateError::WrongTask)
        },
    }
}

/// The slot after a request, where a task that begins is called `id`.
pub open spec fn after_request(
    request: Request,
    s: state::SlotView,
    now: i64,
    id: Seq<char>,
) -> state::SlotView {
    match request {
        Request::Context => s,
        Request::Status => s,
        Request::Begin { title, .. } => state::begun(s, title@, id),
        Request::Report { percent, activity, .. } => state::reported(s, percent, activity@, now),
        Request::Clear { .. } => state::cleared(s),
    }
}

/// Whether a request changes the slot, so that it has to be kept.
pub open spec fn changes(request: Request) -> bool {
    request is Begin || request is Report || request is Clear
}

/// The answer to a request that was done, where `s` is the slot after it.
pub open spec fn answer(
    request: Request,
    s: state::SlotView,
    config: Seq<char>,
    now: i64,
) -> Seq<char> {
    match request {
        Request::Context => hooks::context_text(s, config),
        Request::Status => json::json_written(json::normal(status_answer(s, now))),
        _ => json::json_written(json::normal(task_answer(s.task))),
    }
}

/// Does what an agent asks for, and gives the answer and whether the slot has to be kept.
pub fn perform(request: &Request, s: &mut Slot, paths: &Paths, now: i64) -> (r: Result<
    (String, bool),
    StateError,
>)
    ensures
        match request_fault(*request, old(s)@) {
            Some(e) => r == Err::<(String, bool), StateError>(e) && final(s)@ == old(s)@,
            None => {
                &&& r is Ok
                &&& final(s)@ == after_request(
                    *request,
                    old(s)@,
                    now,
                    state::current(final(s)@.task),
                )
                &&& request is Begin ==> state::is_id(state::current(final(s)@.task))
                &&& r->Ok_0.0@ == answer(*request, final(s)@, paths.config@, now)
                &&& r->Ok_0.1 == changes(*request)
            },
        },
{
    match request {
        Request::Context => Ok((context(s, paths), false)),
        Request::Status => Ok((answer_status(s, now), false)),
        Request::Begin { expected_task, title } => {
            match begin(s, expected_task.as_str(), title.as_str()) {
                Ok(()) => Ok((answer_task(&s.task), true)),
                Err(e) => Err(e),
            }
        },
        Request::Report { task, percent, activity } => {
            match report(s, task.as_str(), *percent, activity.as_str(), now) {
                Ok(()) => Ok((answer_task(&s.task), true)),
                Err(e) => Err(e),
            }
        },
        Request::Clear { task } => {
            match clear(s, task.as_str()) {
                Ok(()) => Ok((answer_task(&s.task), true)),
                Err(e) => Err(e),
            }
        },
    }
}

/// Why a request is refused.
#[derive(Clone, Copy, Debug, PartialEq, Eq, Structural)]
pub enum Refusal {
    /// Another agent runs.
    Command(CommandError),
    /// The agent is not bound so, or the request cannot be done.
    State(StateError),
}

impl Refusal {
    /// What is wrong, in words.
    pub fn message(&self) -> (r: String)
        ensures
            r@ == (match self {
                Refusal::Command(e) => e.message_text(),
                Refusal::State(e) => e.message_text(),
            }),
    {
        match self {
            Refusal::Command(e) => e.message(),
            Refusal::State(e) => e.message(),
        }
    }
}

/// What comes of a request.
pub struct Outcome {
    /// The slot afterwards.
    pub slot: Slot,
    /// Whether it has to be kept.
    pub save: bool,
    /// The answer.
    pub answer: String,
}

/// Why the request of the agent that names the binding `binding` is refused, if it is: `before` is
/// the agent that asked, `after` the one that runs once nobody else can change what is kept, and
/// `found` what is kept for its terminal.
pub open spec fn run_fault(
    binding: Seq<char>,
    request: Request,
    before: state::IdentityView,
    after: state::IdentityView,
    found: Option<state::SlotView>,
) -> Option<Refusal> {
    if before != after {
        Some(Refusal::Command(CommandError::CommandChanged))
    } else {
        match state::binding_fault(found, before, binding) {
            Some(e) => Some(Refusal::State(e)),
            None => match request_fault(request, found->0) {
                Some(e) => Some(Refusal::State(e)),
                None => None,
            },
        }
    }
}

/// Does what the agent that names the binding `binding` asks for, at the time `now`.
pub fn run(
    binding: &str,
    request: &Request,
    before: &Identity,
    after: &Identity,
    found: Option<Slot>,
    paths: &Paths,
    now: i64,
) -> (r: Result<Outcome, Refusal>)
    ensures
        match run_fault(binding@, *request, before@, after@, state::slot_view(found)) {
            Some(e) => r is Err && r->Err_0 == e,
            None => {
                &&& r is Ok
                &&& r->Ok_0.slot@ == after_request(
                    *request,
                    found->0@,
                    now,
                    state::current(r->Ok_0.slot@.task),
                )
                &&& request is Begin ==> state::is_id(state::current(r->Ok_0.slot@.task))
                &&& r->Ok_0.answer@ == answer(*request, r->Ok_0.slot@, paths.config@, now)
                &&& r->Ok_0.save == changes(*request)
            },
        },
{
    if !same_identity(before, after) {
        return Err(Refusal::Command(CommandError::CommandChanged));
    }
    let mut slot = match bound(found, before, binding) {
        Ok(slot) => slot,
        Err(e) => return Err(Refusal::State(e)),
    };
    match perform(request, &mut slot, paths, now) {
        Ok((answer, save)) => Ok(Outcome { slot, save, answer }),
        Err(e) => Err(Refusal::State(e)),
    }
}

/// Why the agent `before` is not bound, if it is not, where `after` is the one that runs then.
pub open spec fn activation_fault(
    before: state::IdentityView,
    after: state::IdentityView,
) -> Option<CommandError> {
    if before != after {
        Some(CommandError::ActivationChanged)
    } else {
        None
    }
}

/// Binds the agent `before`, where `after` is the one that runs once nobody else can change what is
/// kept, and `found` what is kept for its terminal, and gives its slot and whether that has to be
/// kept.
pub fn activate(before: Identity, after: &Identity, found: Option<Slot>) -> (r: Result<
    (Slot, bool),
    CommandError,
>)
    ensures
        match activation_fault(before@, after@) {
            Some(e) => r is Err && r->Err_0 == e,
            None => r is Ok && state::bootstrapped(
                state::slot_view(found),
                before@,
                (r->Ok_0).0@,
                (r->Ok_0).1,
            ),
        },
{
    if !same_identity(&before, after) {
        return Err(CommandError::ActivationChanged);
    }
    Ok(bootstrap(found, before))
}

// ---------------------------------------------------------------------------
// How the plugin is set up
// ---------------------------------------------------------------------------

/// The answer that tells how the plugin is set up, as a value.
pub open spec fn doctor_answer(
    configured: bool,
    snapshot: json::JsonTree,
    config: Seq<char>,
    state: Seq<char>,
) -> json::JsonTree {
    json::JsonTree::Object(
        seq![
            ("configured"@, json::JsonTree::Bool(configured)),
            ("herdr_version"@, snapshot.member("snapshot"@).member("version"@)),
            ("config_dir"@, json::JsonTree::Text(config)),
            ("state_dir"@, json::JsonTree::Text(state)),
            (
                "automatic_adapter"@,
                json::JsonTree::Text("Devin CLI hooks; native trust review required"@),
            ),
            (
                "platform"@,
                json::JsonTree::Text(
                    "Unix process ancestry and start-time verification; Windows unavailable"@,
                ),
            ),
            ("log"@, json::JsonTree::Text(paths::joined_path(state, "publisher.log"@))),
        ],
    )
}

/// Tells how the plugin is set up, where `snapshot` is what Herdr says of itself.
pub fn doctor(configured: bool, snapshot: &Json, paths: &Paths) -> (r: String)
    ensures
        r@ == json::json_written(
            json::normal(doctor_answer(configured, snapshot@, paths.config@, paths.state@)),
        ),
{
    let found: Option<&Json> = match snapshot.get("snapshot") {
        Some(inner) => inner.get("version"),
        None => None,
    };
    let version = match found {
        Some(version) => version.copy(),
        None => Json::Null,
    };
    let flag = Json::Bool(configured);
    let mut members: Vec<(String, Json)> = Vec::new();
    members.push(("configured".to_owned(), flag));
    members.push(("herdr_version".to_owned(), version));
    members.push(("config_dir".to_owned(), json_text(paths.config.as_str())));
    members.push(("state_dir".to_owned(), json_text(paths.state.as_str())));
    members.push(
        (
            "automatic_adapter".to_owned(),
            json_text("Devin CLI hooks; native trust review required"),
        ),
    );
    members.push(
        (
            "platform".to_owned(),
            json_text("Unix process ancestry and start-time verification; Windows unavailable"),
        ),
    );
    members.push(
        (
            "log".to_owned(),
            json_text(join_path(paths.state.as_str(), "publisher.log").as_str()),
        ),
    );
    assert(json::member_trees(members@) =~= doctor_answer(
        configured,
        snapshot@,
        paths.config@,
        paths.state@,
    )->Object_0);
    write_json(&json_object(members))
}

// ---------------------------------------------------------------------------
// What holds of every request
// ---------------------------------------------------------------------------

/// Nothing is done for an agent that is not the one that the slot was made for, that names another
/// binding, or that was replaced while it waited, whatever it asks for.
pub proof fn law_only_the_bound_agent_is_served(
    named: Seq<char>,
    request: Request,
    before: state::IdentityView,
    after: state::IdentityView,
    old: Option<state::SlotView>,
    identity: state::IdentityView,
    binding: Seq<char>,
)
    requires
        named != binding || before != identity || before != after,
    ensures
        run_fault(
            named,
            request,
            before,
            after,
            Some(state::bound_anew(old, identity, binding)),
        ) is Some,
{
}

/// The agent that a slot was made for is told of its task and of what is shown, and may begin a task
/// by naming the one that is there, at any time.
pub proof fn law_the_bound_agent_is_served(
    old: Option<state::SlotView>,
    identity: state::IdentityView,
    binding: Seq<char>,
    expected_task: String,
    title: String,
)
    requires
        expected_task@ == state::current(state::bound_anew(old, identity, binding).task),
        display::cleaned(title@, state::TITLE_COLUMNS as nat).len() > 0,
    ensures
        ({
            let slot = Some(state::bound_anew(old, identity, binding));
            &&& run_fault(binding, Request::Context, identity, identity, slot) is None
            &&& run_fault(binding, Request::Status, identity, identity, slot) is None
            &&& run_fault(
                binding,
                Request::Begin { expected_task, title },
                identity,
                identity,
                slot,
            ) is None
        }),
{
}

} // verus!
