//! What each request of an agent does, and when it is refused.
use vstd::prelude::*;

use crate::command;
use crate::command::{Action, CommandError, Gate, Refusal, Request};
use crate::display;
use crate::hooks;
use crate::json;
use crate::number;
use crate::paths;
use crate::state;
use crate::state::StateError;
use crate::tree;

verus! {

/// Only what an agent asks for in its own name is refused for naming an endpoint, only the start of a
/// plugin that is not enabled ends with a hint, and everything else is done.
pub proof fn law_what_is_let_through(action: Action, endpoint: bool, enabled: bool)
    ensures
        ({
            let gate = command::gated(action, endpoint, enabled);
            &&& gate == Gate::Hook <==> action is Hook
            &&& gate == Gate::Hint <==> action is Startup && !enabled
            &&& gate == Gate::Refuse(CommandError::OtherEndpoint) <==> action is Bound && endpoint
            &&& gate is Refuse ==> gate == Gate::Refuse(CommandError::OtherEndpoint)
        }),
{
}

/// Agents are bound, and served, only by a plugin that is enabled; everything else can be done without.
pub proof fn law_what_takes_an_enabled_plugin(action: Action, enabled: bool)
    ensures
        command::enabled_fault(action, enabled) is None <==> enabled || !(action is Activate
            || action is Bound),
        action is Activate && !enabled ==> command::enabled_fault(action, enabled) == Some(
            CommandError::NotConfigured,
        ),
        action is Bound && !enabled ==> command::enabled_fault(action, enabled) == Some(
            CommandError::NotEnabled,
        ),
{
}

/// When a request is refused: to be told something never is; a task begins exactly where the one that is
/// there is named and something is left of the title; a report is taken exactly where it is on that task,
/// which is neither cleared nor done, and has a percentage of at most a hundred, if any, and an activity
/// of which something is left; and only that task can be cleared, once.
pub proof fn law_requests_are_refused_only_for_cause(request: Request, s: state::SlotView)
    ensures
        ({
            let refused = command::request_fault(request, s) is Some;
            match request {
                Request::Context => !refused,
                Request::Status => !refused,
                Request::Begin { expected_task, title } => !refused <==> (if s.task is Some {
                    s.task->0.id == expected_task@
                } else {
                    expected_task@ == "none"@
                }) && display::cleaned(title@, 80).len() > 0,
                Request::Report { task, percent, activity } => !refused <==> {
                    &&& percent is None || percent->0 <= 100
                    &&& display::cleaned(activity@, 40).len() > 0
                    &&& s.task is Some && s.task->0.id == task@ && !s.task->0.cleared
                        && s.task->0.percent != Some(100u8)
                },
                Request::Clear { task } => !refused <==> s.task is Some && s.task->0.id == task@
                    && !s.task->0.cleared,
            }
        }),
{
}

/// What a request does to the slot: to be told something changes nothing, and the others change the task
/// alone, as they say.
pub proof fn law_what_a_request_does(
    request: Request,
    s: state::SlotView,
    now: i64,
    id: Seq<char>,
)
    requires
        command::request_fault(request, s) is None,
    ensures
        ({
            let after = command::after_request(request, s, now, id);
            let t = after.task->0;
            &&& command::changes(request) <==> !(request is Context) && !(request is Status)
            &&& request is Context || request is Status ==> after == s
            &&& after.identity == s.identity && after.binding == s.binding && after.revoked
                == s.revoked && after.reminded_at == s.reminded_at && after.published == s.published
            &&& request is Begin ==> after.task is Some && t.id == id && t.title
                == display::cleaned(request->title@, 80) && t.percent is None
                && t.activity is None && t.reported_at is None && !t.cleared
            &&& request is Report ==> after.task is Some && t.id == s.task->0.id && t.title
                == s.task->0.title && t.percent == request->percent && t.reported_at == Some(now)
                && !t.cleared
            &&& request is Report && request->percent == Some(100u8) ==> t.activity == Some("Done"@)
            &&& request is Report && request->percent != Some(100u8) ==> t.activity == Some(
                display::cleaned(request->activity@, 40),
            )
            &&& request is Clear ==> after.task is Some && t == (state::TaskView {
                cleared: true,
                ..s.task->0
            })
        }),
{
}

/// An agent is served exactly where it is still the one that asked, what is kept for its terminal is its
/// own, under the binding that it names and in use, and the request itself is not refused.
pub proof fn law_who_is_served(
    binding: Seq<char>,
    request: Request,
    before: state::IdentityView,
    after: state::IdentityView,
    found: Option<state::SlotView>,
)
    ensures
        ({
            let own = found is Some && found->0.identity == before && found->0.binding == binding
                && !found->0.revoked;
            let fault = command::run_fault(binding, request, before, after, found);
            &&& fault is None <==> before == after && own && command::request_fault(
                request,
                found->0,
            ) is None
            &&& before != after ==> fault == Some(Refusal::Command(CommandError::CommandChanged))
            &&& before == after && found is None ==> fault == Some(
                Refusal::State(StateError::NoAgent),
            )
            &&& before == after && found is Some && !own ==> fault == Some(
                Refusal::State(StateError::WrongBinding),
            )
            &&& before == after && own && command::request_fault(request, found->0) is Some
                ==> fault == Some(
                Refusal::State(command::request_fault(request, found->0)->0),
            )
        }),
{
}

/// The answer to a request: the context, the status, or the task as it then is.
pub proof fn law_what_is_answered(
    request: Request,
    s: state::SlotView,
    config: Seq<char>,
    now: i64,
)
    ensures
        ({
            let answer = command::answer(request, s, config, now);
            &&& request is Context ==> answer == hooks::context_text(s, config)
            &&& request is Status ==> answer == json::json_written(
                json::normal(command::status_answer(s, now)),
            )
            &&& !(request is Context) && !(request is Status) ==> answer == json::json_written(
                json::normal(command::task_answer(s.task)),
            )
        }),
{
}

/// The names of the parts of a task differ.
proof fn lemma_part_names()
    ensures
        "id"@.len() == 2,
        "title"@.len() == 5,
        "percent"@.len() == 7,
        "activity"@.len() == 8,
        "reported_at"@.len() == 11,
        "cleared"@.len() == 7,
        "percent"@ != "cleared"@,
        "task"@.len() == 4,
        "binding"@.len() == 7,
        "tokens"@.len() == 6,
{
    reveal_strlit("id");
    reveal_strlit("title");
    reveal_strlit("percent");
    reveal_strlit("activity");
    reveal_strlit("reported_at");
    reveal_strlit("cleared");
    reveal_strlit("task");
    reveal_strlit("binding");
    reveal_strlit("tokens");
    assert("percent"@[0] == 'p' && "cleared"@[0] == 'c');
}

/// A task is told in full, each part under its name, what is not known as null.
pub proof fn law_task_is_told_in_full(t: state::TaskView)
    ensures
        ({
            let told = command::task_tree(Some(t));
            &&& told.member("id"@) == json::JsonTree::Text(t.id)
            &&& told.member("title"@) == json::JsonTree::Text(t.title)
            &&& told.member("percent"@) == (match t.percent {
                Some(p) => json::JsonTree::Number(number::decimal(p as int)),
                None => json::JsonTree::Null,
            })
            &&& told.member("activity"@) == (match t.activity {
                Some(a) => json::JsonTree::Text(a),
                None => json::JsonTree::Null,
            })
            &&& told.member("reported_at"@) == (match t.reported_at {
                Some(at) => json::JsonTree::Number(number::decimal(at as int)),
                None => json::JsonTree::Null,
            })
            &&& told.member("cleared"@) == json::JsonTree::Bool(t.cleared)
        }),
        command::task_tree(None) is Null,
        command::task_answer(Some(t)).member("task"@) == command::task_tree(Some(t)),
        command::task_answer(None).member("task"@) is Null,
{
    lemma_part_names();
    let s = command::task_tree(Some(t))->Object_0;
    lemma_member(s, 0);
    lemma_member(s, 1);
    lemma_member(s, 2);
    lemma_member(s, 3);
    lemma_member(s, 4);
    lemma_member(s, 5);
    lemma_member(command::task_answer(Some(t))->Object_0, 0);
    lemma_member(command::task_answer(None)->Object_0, 0);
}

/// What is shown of an agent is told with its task and its binding.
pub proof fn law_status_is_told_in_full(s: state::SlotView, now: i64)
    ensures
        ({
            let told = command::status_answer(s, now);
            let shown = state::token_texts(s, now);
            let tokens = told.member("tokens"@);
            &&& told.member("task"@) == command::task_tree(s.task)
            &&& told.member("binding"@) == json::JsonTree::Text(s.binding)
            &&& tokens is List && tokens->List_0.len() == 3
            &&& forall|i: int|
                0 <= i < 3 ==> (#[trigger] tokens->List_0[i]) == (match shown[i] {
                    Some(text) => json::JsonTree::Text(text),
                    None => json::JsonTree::Null,
                })
        }),
{
    lemma_part_names();
    let t = command::status_answer(s, now)->Object_0;
    lemma_member(t, 0);
    lemma_member(t, 1);
    lemma_member(t, 2);
}

/// A member whose name no earlier one has is found under it.
proof fn lemma_member(s: Seq<(Seq<char>, json::JsonTree)>, i: int)
    requires
        0 <= i < s.len(),
        forall|k: int| 0 <= k < i ==> (#[trigger] s[k]).0 != s[i].0,
    ensures
        json::JsonTree::Object(s).member(s[i].0) == s[i].1,
{
    tree::lemma_position_is(s, s[i].0, i);
}

/// How the plugin is set up is told in full: whether it is configured, which Herdr runs, and where its
/// directories and its log are.
pub proof fn law_setup_is_told_in_full(
    configured: bool,
    snapshot: json::JsonTree,
    config: Seq<char>,
    state: Seq<char>,
)
    ensures
        ({
            let told = command::doctor_answer(configured, snapshot, config, state);
            &&& told.member("configured"@) == json::JsonTree::Bool(configured)
            &&& told.member("herdr_version"@) == snapshot.member("snapshot"@).member("version"@)
            &&& told.member("config_dir"@) == json::JsonTree::Text(config)
            &&& told.member("state_dir"@) == json::JsonTree::Text(state)
            &&& told.member("log"@) == json::JsonTree::Text(
                paths::joined_path(state, "publisher.log"@),
            )
        }),
{
    reveal_strlit("configured");
    reveal_strlit("herdr_version");
    reveal_strlit("config_dir");
    reveal_strlit("state_dir");
    reveal_strlit("automatic_adapter");
    reveal_strlit("platform");
    reveal_strlit("log");
    assert("configured"@.len() == 10 && "herdr_version"@.len() == 13 && "config_dir"@.len() == 10);
    assert("state_dir"@.len() == 9 && "automatic_adapter"@.len() == 17 && "platform"@.len() == 8);
    assert("log"@.len() == 3);
    assert("configured"@[6] == 'u' && "config_dir"@[6] == '_');
    let s = command::doctor_answer(configured, snapshot, config, state)->Object_0;
    lemma_member(s, 0);
    lemma_member(s, 1);
    lemma_member(s, 2);
    lemma_member(s, 3);
    lemma_member(s, 6);
}

/// An agent is bound exactly where it is still the one that it was, in every part.
pub proof fn law_who_is_bound(before: state::IdentityView, after: state::IdentityView)
    ensures
        command::activation_fault(before, after) is None <==> before.endpoint == after.endpoint
            && before.terminal == after.terminal && before.session == after.session && before.agent
            == after.agent && before.pid == after.pid && before.started == after.started,
        command::activation_fault(before, after) is Some ==> command::activation_fault(
            before,
            after,
        ) == Some(CommandError::ActivationChanged),
{
}

} // verus!
