use herdr_progress::json::parse_json;
use herdr_progress::paths::Paths;
use herdr_progress::publisher::{
    after, find_pane, is_ending, lock_file, log_file, metadata_args, name, name_of_hash, panes,
    publish, serve_first, show, start, start_first, stop, stop_file, Next, Plan, Progress,
    PublisherError, Serving, Shown, Step, Turn,
};
use herdr_progress::runtime::Runtime;
use herdr_progress::state::{begin_as, bind, report, Identity, Slot};
use std::hash::{DefaultHasher, Hash, Hasher};

fn slot() -> Slot {
    let identity = Identity {
        endpoint: "e".into(),
        terminal: "t".into(),
        session: "s".into(),
        agent: "devin".into(),
        pid: 12,
        started: "launch1".into(),
    };
    bind(None, identity, "B".into())
}

fn paths() -> Paths {
    Paths {
        config: "/c".into(),
        state: "/s".into(),
    }
}

#[test]
fn publishers_are_named_by_their_endpoint() {
    for endpoint in ["", "e", "/tmp/世界.sock:1:2:3:4"] {
        let rt = Runtime::new("s".into(), endpoint.into(), None);
        let mut h = DefaultHasher::new();
        rt.endpoint.hash(&mut h);
        let expected = format!("publisher-{:x}", h.finish());
        assert_eq!(name(&rt), expected);
        assert_eq!(lock_file(&rt, &paths()), format!("/s/{expected}.lock"));
        assert_eq!(stop_file(&rt, &paths()), format!("/s/{expected}.stop"));
    }
    assert_eq!(name_of_hash(0xab01), "publisher-ab01");
    assert_eq!(log_file(&paths()), "/s/publisher.log");
}

fn sent(plan: Plan) -> (Slot, Shown) {
    match plan {
        Plan::Send(slot, shown) => (slot, shown),
        _ => panic!("expected something to send"),
    }
}

fn kept(plan: Plan) -> Slot {
    match plan {
        Plan::Keep(slot) => slot,
        _ => panic!("expected nothing to send"),
    }
}

#[test]
fn what_is_shown_is_sent_once() {
    let mut s = slot();
    begin_as(&mut s, "none", "First", "one".into()).unwrap();
    report(&mut s, "one", Some(35), "Waiting for you", 0).unwrap();
    let (s, shown) = sent(publish(Some(s), true, false, true, 301));
    assert_eq!(
        shown.rendered,
        "[[\"~35%\",\"stale\",\"Waiting for you\"],\"~35% · stale · Waiting for you\"]"
    );
    assert_eq!(s.published, shown.rendered);
    assert_eq!(
        metadata_args("w1:p1", 1, &shown),
        vec![
            "pane",
            "report-metadata",
            "w1:p1",
            "--source",
            "agent-progress",
            "--seq",
            "1",
            "--token",
            "agent_progress_percent=~35%",
            "--token",
            "agent_progress_freshness=stale",
            "--token",
            "agent_progress_activity=Waiting for you",
            "--token",
            "agent_progress_summary=~35% · stale · Waiting for you",
        ]
    );
    let mut s = kept(publish(Some(s), true, false, true, 302));
    report(&mut s, "one", Some(70), "Testing changes", 303).unwrap();
    let (s, shown) = sent(publish(Some(s), true, false, true, 303));
    let line = metadata_args("w1:p1", 2, &shown).join(" ");
    assert!(line.contains("--seq 2"));
    assert!(line.contains("agent_progress_percent=~70%"));
    assert!(!line.contains("=stale"));
    assert!(line.contains("--clear-token agent_progress_freshness"));
    let (s, shown) = sent(publish(Some(s), true, true, true, 304));
    assert!(s.revoked);
    let args = metadata_args("w1:p1", 3, &shown);
    assert_eq!(args.len(), 15);
    assert_eq!(
        args[7..],
        [
            "--clear-token",
            "agent_progress_percent",
            "--clear-token",
            "agent_progress_freshness",
            "--clear-token",
            "agent_progress_activity",
            "--clear-token",
            "agent_progress_summary"
        ]
    );
    assert!(kept(publish(Some(s), true, false, true, 305)).revoked);
}

#[test]
fn agents_that_are_gone_are_revoked() {
    let mut s = slot();
    begin_as(&mut s, "none", "First", "one".into()).unwrap();
    report(&mut s, "one", Some(35), "x", 0).unwrap();
    let (s, shown) = sent(publish(Some(s), true, false, false, 1));
    assert!(s.revoked);
    assert_eq!(shown.rendered, "[[null,null,null],null]");
    assert!(kept(publish(Some(s), true, true, true, 2)).revoked);
}

#[test]
fn publishers_clear_before_they_end() {
    let mut serving = Serving::new();
    assert_eq!(serving.serve(true, -1, 0), Turn::Clear);
    assert_eq!(serving.serve(false, -1, 0), Turn::Rest);
    let next = serving.served(true, 1);
    assert_eq!(after(true, next), Step::End);
    assert_eq!(after(false, next), Step::Again);
    let next = serving.served(false, 1);
    assert_eq!(after(true, next), Step::End);
    assert_eq!(after(true, Next::Fail), Step::Fail);
    assert_eq!(after(false, Next::Fail), Step::Fail);
    assert!(is_ending(false, false));
    assert!(is_ending(true, true));
    assert!(!is_ending(true, false));
    assert!(serve_first(false));
    assert!(!serve_first(true));
    assert_eq!(start_first(false, true), Err(PublisherError::NotConfigured));
    assert_eq!(start_first(true, true), Ok(false));
    assert_eq!(start_first(true, false), Ok(true));
}

#[test]
fn closed_terminals_are_forgotten() {
    assert!(matches!(publish(None, true, false, true, 0), Plan::Skip));
    assert!(matches!(publish(None, false, false, true, 0), Plan::Skip));
    assert!(matches!(publish(Some(slot()), false, false, true, 0), Plan::Remove));
}

#[test]
fn nothing_reported_shows_nothing() {
    let mut s = slot();
    assert_eq!(show(&s, 0).rendered, "[[null,null,null],null]");
    begin_as(&mut s, "none", "First", "one".into()).unwrap();
    assert_eq!(show(&s, 0).rendered, "[[null,null,null],null]");
}

#[test]
fn panes_are_found_by_their_terminal() {
    let snapshot = parse_json(
        "{\"snapshot\":{\"panes\":[{\"terminal_id\":\"a\"},{\"terminal_id\":\"b\",\"n\":1},{\"terminal_id\":\"b\",\"n\":2}]}}",
    )
    .unwrap();
    let listed = panes(&snapshot).unwrap();
    assert_eq!(
        find_pane(listed, "b").unwrap().get("n").unwrap().unsigned(),
        Some(1)
    );
    assert!(find_pane(listed, "c").is_none());
    let error = panes(&parse_json("{}").unwrap()).unwrap_err();
    assert_eq!(error.message(), "Snapshot has no panes");
}

#[test]
fn publishers_start_stop_and_give_up() {
    assert_eq!(start(1999, true, true), Progress::Done);
    assert_eq!(start(0, false, false), Progress::Wait);
    assert_eq!(
        start(0, false, true),
        Progress::Failed(PublisherError::Exited)
    );
    assert_eq!(
        start(2000, true, false),
        Progress::Failed(PublisherError::NotStarted)
    );
    assert_eq!(stop(11999, true), Progress::Wait);
    assert_eq!(stop(0, false), Progress::Done);
    assert_eq!(
        stop(12000, false),
        Progress::Failed(PublisherError::NotStopped)
    );
    let mut serving = Serving::new();
    assert_eq!(serving.serve(false, 1, 14), Turn::Publish);
    assert_eq!(serving.served(false, 1), Next::Pause(2));
    assert_eq!(serving.served(false, 1), Next::Pause(4));
    assert_eq!(serving.served(true, 1), Next::Continue);
    assert_eq!(serving.serve(false, 1, 14), Turn::Rest);
    assert_eq!(serving.serve(false, 2, 0), Turn::Publish);
    assert_eq!(serving.serve(true, 1, 0), Turn::Clear);
    assert_eq!(serving.serve(false, 1, 15), Turn::Publish);
    assert_eq!(serving.served(false, 2), Next::Pause(2));
    assert_eq!(serving.served(false, 2), Next::Pause(4));
    assert_eq!(serving.served(false, 2), Next::Pause(8));
    assert_eq!(serving.served(false, 2), Next::Fail);
}
