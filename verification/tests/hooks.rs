use herdr_progress::command::{
    activate, check_enabled, choose_pane, doctor, gate, perform, run, Action, CommandError, Gate,
    Refusal, Request,
};
use herdr_progress::hooks::{
    active, answer, check_session, context, eligible, event_in, read_event, search_step, slot_at,
    task_json, tell, HookError, Search, INSTRUCTIONS,
};
use herdr_progress::json::{parse_json, Json};
use herdr_progress::paths::Paths;
use herdr_progress::state::{begin_as, bind, report, Identity, Slot, StateError};

fn event(text: &str) -> Json {
    parse_json(text).unwrap()
}

#[test]
fn devin_lifecycle_events_are_eligible_without_reporter_recursion() {
    assert!(!eligible(&event(
        "{\"hook_event_name\":\"PostToolUse\",\"tool_input\":{\"command\":\"/path/herdr-progress report\"}}"
    )));
    assert!(!eligible(&event("{\"hook_event_name\":\"PreToolUse\"}")));
    assert!(eligible(&event("{\"hook_event_name\":\"SessionStart\"}")));
    assert!(eligible(&event("{\"hook_event_name\":\"PostCompaction\"}")));
    assert!(eligible(&event("{\"hook_event_name\":\"UserPromptSubmit\"}")));
}

#[test]
fn other_tools_and_other_events_are_told_apart() {
    assert!(eligible(&event(
        "{\"hook_event_name\":\"PostToolUse\",\"tool_input\":{\"command\":\"ls\"}}"
    )));
    assert!(eligible(&event("{\"hook_event_name\":\"PostToolUse\"}")));
    assert!(eligible(&event(
        "{\"hook_event_name\":\"UserPromptSubmit\",\"tool_input\":\"herdr-progress\"}"
    )));
    assert!(!eligible(&event(
        "{\"hook_event_name\":\"PostToolUse\",\"tool_input\":[[\"a herdr-progress b\"]]}"
    )));
    assert!(!eligible(&event("{\"hook_event_name\":3}")));
    assert!(!eligible(&event("[]")));
}

#[test]
fn events_are_read_from_what_the_agent_says() {
    let found = read_event("{\"hook_event_name\":\"PostToolUse\",\"session_id\":\"s\"}")
        .unwrap()
        .unwrap();
    assert_eq!((found.kind.as_str(), found.session.as_str()), ("PostToolUse", "s"));
    assert!(read_event("{\"hook_event_name\":\"Stop\"}").unwrap().is_none());
    assert!(event_in(&Json::Null).unwrap().is_none());
    assert_eq!(
        read_event("{\"hook_event_name\":\"SessionStart\"}")
            .unwrap_err()
            .message(),
        "Missing session_id"
    );
    let cause = serde_json::from_str::<serde_json::Value>("{").unwrap_err();
    assert_eq!(read_event("{").unwrap_err().message(), cause.to_string());
    assert!(active(&Some("1".into()), true));
    assert!(!active(&Some("1".into()), false));
    assert!(!active(&Some("".into()), true));
    assert!(!active(&None, true));
}

fn identity() -> Identity {
    Identity {
        endpoint: "e".into(),
        terminal: "t".into(),
        session: "s".into(),
        agent: "devin".into(),
        pid: 12,
        started: "launch1".into(),
    }
}

fn slot() -> Slot {
    bind(None, identity(), "B".into())
}

fn paths() -> Paths {
    Paths {
        config: "/c".into(),
        state: "/s".into(),
    }
}

#[test]
fn context_tells_the_binding_and_the_commands() {
    let mut s = slot();
    let text = context(&s, &paths());
    assert_eq!(
        text,
        format!("{INSTRUCTIONS}\n\nVerified binding: B\nCurrent state: null\n\nCommands:\n'/c/herdr-progress' context --binding B\n'/c/herdr-progress' begin --binding B --expected-task none --title 'Task title'\n'/c/herdr-progress' report --binding B --task TASK_ID --percent 25 --activity 'Reading code'\n'/c/herdr-progress' report --binding B --task TASK_ID --unknown --activity 'Assessing task'\n'/c/herdr-progress' status --binding B\n'/c/herdr-progress' clear --binding B --task TASK_ID\n")
    );
    assert!(INSTRUCTIONS.starts_with("# Agent progress\n\nWhen a verified binding"));
    assert!(INSTRUCTIONS.ends_with("borrow another agent's binding.\n"));
    begin_as(&mut s, "none", "A \"task\"", "one".into()).unwrap();
    assert_eq!(
        task_json(&s.task),
        "{\"id\":\"one\",\"title\":\"A \\\"task\\\"\",\"percent\":null,\"activity\":null,\"reported_at\":null,\"cleared\":false}"
    );
    report(&mut s, "one", Some(35), "x", -4).unwrap();
    assert_eq!(
        task_json(&s.task),
        "{\"id\":\"one\",\"title\":\"A \\\"task\\\"\",\"percent\":35,\"activity\":\"x\",\"reported_at\":-4,\"cleared\":false}"
    );
    assert!(context(&s, &paths()).contains("--expected-task one --title"));
    let all: String = (0..0x80u8).map(char::from).chain(['é', '\u{7f}', '世']).collect();
    let mut t = s.task.clone().unwrap();
    t.id = all.clone();
    let quoted = serde_json::to_string(&all).unwrap();
    assert!(task_json(&Some(t)).starts_with(&format!("{{\"id\":{quoted},")));
}

#[test]
fn agents_are_told_when_it_is_time() {
    let mut s = slot();
    let told = tell(&mut s, "SessionStart", &paths(), 1000).unwrap();
    assert!(told.starts_with("# Agent progress"));
    assert_eq!(s.reminded_at, 1000);
    assert_eq!(tell(&mut s, "PostToolUse", &paths(), 1059), None);
    assert_eq!(s.reminded_at, 1000);
    let told = tell(&mut s, "PostToolUse", &paths(), 1060).unwrap();
    assert_eq!(
        told,
        "Progress check-in is due if this is a natural boundary. Reassess the current task; do not invent progress. '/c/herdr-progress' context --binding B"
    );
    assert_eq!(s.reminded_at, 1060);
    let told = tell(&mut s, "UserPromptSubmit", &paths(), 1061).unwrap();
    assert!(told.ends_with(
        "for example 'Waiting for you'. Current task: null. Bound context: '/c/herdr-progress' context --binding B"
    ));
    begin_as(&mut s, "none", "Task", "one".into()).unwrap();
    report(&mut s, "one", Some(5), "x", 1100).unwrap();
    assert_eq!(tell(&mut s, "PostToolUse", &paths(), 1159), None);
    assert!(tell(&mut s, "PostToolUse", &paths(), 1160).is_some());
    report(&mut s, "one", Some(100), "x", 1161).unwrap();
    assert_eq!(tell(&mut s, "PostToolUse", &paths(), 9999), None);
    assert!(tell(&mut s, "PostCompaction", &paths(), 9999).is_some());
}

#[test]
fn hook_answers_are_json() {
    assert_eq!(
        answer("SessionStart", "a\n\"b\""),
        "{\"hookSpecificOutput\":{\"additionalContext\":\"a\\n\\\"b\\\"\",\"hookEventName\":\"SessionStart\"}}"
    );
}

#[test]
fn only_session_start_waits_and_binds() {
    assert_eq!(search_step("SessionStart", false, 1999), Search::Again);
    assert_eq!(search_step("SessionStart", false, 2000), Search::GiveUp);
    assert_eq!(search_step("PostToolUse", false, 0), Search::GiveUp);
    assert_eq!(search_step("PostToolUse", true, 2000), Search::Found);
    assert!(check_session(&identity(), "s").is_ok());
    assert_eq!(
        check_session(&identity(), "x"),
        Err(HookError::WrongSession)
    );
    assert!(herdr_progress::hooks::check_unchanged(&identity(), &identity()).is_ok());
    let mut other = identity();
    other.pid = 13;
    assert_eq!(
        herdr_progress::hooks::check_unchanged(&identity(), &other),
        Err(HookError::LaunchChanged)
    );
    assert!(matches!(
        slot_at("PostToolUse", None, identity()),
        Err(HookError::NoBinding)
    ));
    assert!(matches!(
        slot_at("PostToolUse", Some(slot()), other),
        Err(HookError::Obsolete)
    ));
    let (s, new) = slot_at("PostToolUse", Some(slot()), identity()).unwrap();
    assert!(!new);
    assert_eq!(s.binding, "B");
    let (s, new) = slot_at("SessionStart", Some(slot()), identity()).unwrap();
    assert!(!new);
    assert_eq!(s.binding, "B");
    let (s, new) = slot_at("SessionStart", None, identity()).unwrap();
    assert!(new);
    assert_eq!(s.binding.len(), 36);
    assert_eq!(
        HookError::NoBinding.message(),
        "SessionStart has not established a progress binding"
    );
}

fn bound() -> Action {
    Action::Bound {
        binding: "B".into(),
        request: Request::Context,
    }
}

#[test]
fn actions_pass_their_gates() {
    assert_eq!(gate(&Action::Startup, false, false), Gate::Hint);
    assert_eq!(gate(&Action::Startup, false, true), Gate::Pass);
    assert_eq!(gate(&Action::Hook, true, false), Gate::Hook);
    assert_eq!(gate(&Action::Start, true, false), Gate::Pass);
    assert_eq!(gate(&bound(), false, false), Gate::Pass);
    assert_eq!(
        gate(&bound(), true, true),
        Gate::Refuse(CommandError::OtherEndpoint)
    );
    assert_eq!(
        check_enabled(&bound(), false),
        Err(CommandError::NotEnabled)
    );
    assert_eq!(
        check_enabled(&Action::Activate { pane: None }, false),
        Err(CommandError::NotConfigured)
    );
    assert_eq!(check_enabled(&Action::Doctor, false), Ok(()));
    assert_eq!(choose_pane(None, Some("p".into())), Ok("p".to_string()));
    assert_eq!(choose_pane(None, None), Err(CommandError::NoPane));
    assert_eq!(
        CommandError::NoCommand.message(),
        "Choose a command; see --help"
    );
}

#[test]
fn requests_are_performed_and_answered() {
    let mut s = slot();
    let (text, save) = perform(&Request::Context, &mut s, &paths(), 0).unwrap();
    assert_eq!(text, context(&s, &paths()));
    assert!(!save);
    let begin = Request::Begin {
        expected_task: "none".into(),
        title: "Task".into(),
    };
    let (text, save) = perform(&begin, &mut s, &paths(), 0).unwrap();
    assert!(save);
    let id = s.task.as_ref().unwrap().id.clone();
    assert_eq!(
        text,
        format!("{{\"task\":{{\"activity\":null,\"cleared\":false,\"id\":\"{id}\",\"percent\":null,\"reported_at\":null,\"title\":\"Task\"}}}}")
    );
    assert!(matches!(
        perform(&begin, &mut s, &paths(), 0),
        Err(StateError::Conflict)
    ));
    let report = Request::Report {
        task: id.clone(),
        percent: Some(40),
        activity: "Testing".into(),
    };
    let (text, save) = perform(&report, &mut s, &paths(), 50).unwrap();
    assert!(save);
    assert!(text.contains("\"percent\":40"));
    let (text, save) = perform(&Request::Status, &mut s, &paths(), 350).unwrap();
    assert!(!save);
    assert_eq!(
        text,
        format!("{{\"binding\":\"B\",\"task\":{{\"activity\":\"Testing\",\"cleared\":false,\"id\":\"{id}\",\"percent\":40,\"reported_at\":50,\"title\":\"Task\"}},\"tokens\":[\"~40%\",\"stale\",\"Testing\"]}}")
    );
    let clear = Request::Clear { task: id };
    let (text, save) = perform(&clear, &mut s, &paths(), 60).unwrap();
    assert!(save);
    assert!(text.contains("\"cleared\":true"));
    assert!(matches!(
        perform(&clear, &mut s, &paths(), 61),
        Err(StateError::WrongTask)
    ));
}

#[test]
fn doctor_tells_the_setup() {
    let snapshot = event("{\"snapshot\":{\"version\":\"0.9.0\"}}");
    assert_eq!(
        doctor(true, &snapshot, &paths()),
        "{\"automatic_adapter\":\"Devin CLI hooks; native trust review required\",\"config_dir\":\"/c\",\"configured\":true,\"herdr_version\":\"0.9.0\",\"log\":\"/s/publisher.log\",\"platform\":\"Unix process ancestry and start-time verification; Windows unavailable\",\"state_dir\":\"/s\"}"
    );
    assert!(doctor(false, &Json::Null, &paths()).contains("\"herdr_version\":null"));
}

#[test]
fn only_the_bound_agent_is_served() {
    let mut other = identity();
    other.started = "launch2".into();
    let asked = |binding: &str, before: &Identity, after: &Identity, found: Option<Slot>| {
        run(binding, &Request::Status, before, after, found, &paths(), 0)
            .map(|outcome| (outcome.answer, outcome.save))
    };
    let me = identity();
    assert_eq!(
        asked("B", &me, &other, Some(slot())),
        Err(Refusal::Command(CommandError::CommandChanged))
    );
    assert_eq!(
        asked("C", &me, &me, Some(slot())),
        Err(Refusal::State(StateError::WrongBinding))
    );
    assert_eq!(
        asked("B", &other, &other, Some(slot())),
        Err(Refusal::State(StateError::WrongBinding))
    );
    assert_eq!(
        asked("B", &me, &me, None),
        Err(Refusal::State(StateError::NoAgent))
    );
    assert_eq!(
        asked("B", &me, &me, Some(slot())).unwrap().0,
        "{\"binding\":\"B\",\"task\":null,\"tokens\":[null,null,null]}"
    );
    let clear = Request::Clear { task: "x".into() };
    let refused = run("B", &clear, &me, &me, Some(slot()), &paths(), 0).err();
    assert_eq!(refused.unwrap().message(), "Obsolete or cleared task");
    let changed = Refusal::Command(CommandError::CommandChanged);
    assert_eq!(changed.message(), "Agent changed while command waited");
    assert!(matches!(
        activate(identity(), &other, None),
        Err(CommandError::ActivationChanged)
    ));
    let (s, new) = activate(identity(), &me, Some(slot())).unwrap();
    assert_eq!((s.binding.as_str(), new), ("B", false));
}

#[test]
fn hooks_run_for_the_agent_that_they_belong_to() {
    let mut other = identity();
    other.pid = 13;
    let ran = |kind: &str, after: &Identity, found: Option<Slot>| {
        herdr_progress::hooks::run(kind, identity(), after, found, &paths(), 100)
    };
    let me = identity();
    assert_eq!(
        ran("SessionStart", &other, None).err(),
        Some(HookError::LaunchChanged)
    );
    assert_eq!(
        ran("PostToolUse", &me, None).err(),
        Some(HookError::NoBinding)
    );
    let outcome = ran("SessionStart", &me, None).unwrap();
    assert!(outcome.save);
    assert_eq!(outcome.slot.reminded_at, 100);
    assert_eq!(outcome.told, Some(context(&outcome.slot, &paths())));
    let mut settled = slot();
    settled.reminded_at = 90;
    let outcome = ran("PostToolUse", &me, Some(settled)).unwrap();
    assert!(!outcome.save);
    assert_eq!(outcome.told, None);
    assert_eq!(outcome.slot.reminded_at, 90);
}
