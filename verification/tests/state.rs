use herdr_progress::display::{clean, fit};
use herdr_progress::state::{
    begin, begin_as, bind, bootstrap, bound, clear, report, same_identity, summary, task, tokens,
    Identity, Slot, StateError,
};
use std::collections::HashMap;
use unicode_width::UnicodeWidthChar;

#[test]
fn summary_preserves_status_prefix_and_omits_missing_fields() {
    assert_eq!(summary(&[None, None, None]), None);
    assert_eq!(
        summary(&[None, None, Some("Assessing task".into())]),
        Some("Assessing task".into())
    );
    let rendered = summary(&[
        Some("~95%".into()),
        Some("stale".into()),
        Some("界".repeat(80)),
    ])
    .unwrap();
    assert!(rendered.starts_with("~95% · stale · "));
    assert!(rendered.chars().count() <= 80);
    assert!(
        rendered
            .chars()
            .map(|c| c.width().unwrap_or(0))
            .sum::<usize>()
            <= 80
    );
}

fn identity() -> Identity {
    Identity {
        endpoint: "e".into(),
        terminal: "t".into(),
        session: "s".into(),
        agent: "devin".into(),
        pid: 12,
        started: "launch1".into(),
    }
}

fn initial() -> Slot {
    bootstrap(None, identity()).0
}

#[test]
fn generations_survive_clear_and_reject_delayed_begin() {
    let mut s = initial();
    begin(&mut s, "none", "First").unwrap();
    let first = s.task.as_ref().unwrap().id.clone();
    assert!(begin(&mut s, "none", "Delayed").is_err());
    clear(&mut s, &first).unwrap();
    assert!(begin(&mut s, "none", "Delayed").is_err());
    assert!(report(&mut s, &first, Some(20), "Old report", 0).is_err());
    begin(&mut s, &first, "Next").unwrap();
    let next = s.task.as_ref().unwrap().id.clone();
    assert_ne!(first, next);
    assert!(clear(&mut s, &first).is_err());
    assert!(begin(&mut s, &first, "Delayed").is_err());
    assert_eq!(next, s.task.unwrap().id);
}

#[test]
fn unknown_decreasing_stale_and_finished() {
    let mut s = initial();
    begin(&mut s, "none", "Task").unwrap();
    let id = s.task.as_ref().unwrap().id.clone();
    report(&mut s, &id, None, "Assessing task", 100).unwrap();
    assert_eq!(
        tokens(&s, 400),
        [None, Some("stale".into()), Some("Assessing task".into())]
    );
    report(&mut s, &id, Some(65), "Testing changes", 401).unwrap();
    report(&mut s, &id, Some(40), "Found more work", 402).unwrap();
    assert_eq!(tokens(&s, 701)[1], None);
    assert_eq!(tokens(&s, 702)[1], Some("stale".into()));
    assert_eq!(s.task.as_ref().unwrap().reported_at, Some(402));
    report(&mut s, &id, Some(100), "All checks passed", 703).unwrap();
    assert_eq!(
        tokens(&s, 9999),
        [Some("100%".into()), None, Some("Done".into())]
    );
    assert!(report(&mut s, &id, Some(70), "More work", 704).is_err());
}

/// Slots by endpoint and terminal, as a database would keep them.
struct Store(HashMap<(String, String), Slot>);

impl Store {
    fn slot(&self, identity: &Identity) -> Option<Slot> {
        self.0
            .get(&(identity.endpoint.clone(), identity.terminal.clone()))
            .cloned()
    }

    fn save(&mut self, s: &Slot) {
        let key = (s.identity.endpoint.clone(), s.identity.terminal.clone());
        self.0.insert(key, s.clone());
    }

    fn bootstrap(&mut self, identity: Identity) -> Slot {
        let (s, new) = bootstrap(self.slot(&identity), identity);
        if new {
            self.save(&s);
        }
        s
    }

    fn bound(&self, identity: &Identity, binding: &str) -> Result<Slot, StateError> {
        bound(self.slot(identity), identity, binding)
    }
}

#[test]
fn launch_rotation_compaction_and_endpoint_isolation() {
    let mut c = Store(HashMap::new());
    let mut s = c.bootstrap(identity());
    begin(&mut s, "none", "Task").unwrap();
    c.save(&s);
    assert_eq!(c.bootstrap(identity()).binding, s.binding);
    let mut resumed = identity();
    resumed.started = "launch2".into();
    let new = c.bootstrap(resumed.clone());
    assert_ne!(new.binding, s.binding);
    assert_eq!(new.task.as_ref().unwrap().id, s.task.unwrap().id);
    assert!(c.bound(&resumed, &s.binding).is_err());
    assert!(c.bound(&identity(), &s.binding).is_err());
    resumed.session = "different".into();
    assert!(c.bootstrap(resumed.clone()).task.is_none());
    resumed.endpoint = "other".into();
    assert!(c.bootstrap(resumed).task.is_none());
}

#[test]
fn activity_has_display_width_cap_and_no_controls() {
    assert_eq!(clean("Hi\n\u{202e}世界", 6), "Hi世界");
    assert_eq!(clean("界界界", 5), "界界");
    assert!(
        clean(&format!("a{}", "\u{0301}".repeat(100)), 40)
            .chars()
            .count()
            <= 80
    );
}

#[test]
fn clean_trims_cuts_and_is_settled() {
    assert_eq!(clean("  a b \t", 40), "a b");
    assert_eq!(clean("abcdef", 3), "abc");
    assert_eq!(clean("abc def", 4), "abc");
    assert_eq!(clean("", 40), "");
    assert_eq!(clean("\u{2066}\u{2069}\u{7f}\u{85}", 40), "");
    assert_eq!(clean(&"x".repeat(100), 200).chars().count(), 80);
    assert_eq!(clean("\u{17d8}a", 3), "\u{17d8}");
    assert_eq!(clean("\u{17d8}a", 2), "");
    for text in ["a  b界\u{202e} c ", "界 界 界 ", "\u{a0}x\u{3000}"] {
        for columns in [0, 1, 2, 3, 5, 80] {
            let once = clean(text, columns);
            assert_eq!(clean(&once, columns), once);
            let width: usize = once.chars().map(|c| c.width().unwrap_or(0)).sum();
            assert!(width <= columns);
        }
    }
}

#[test]
fn widths_fit_as_far_as_they_go() {
    assert_eq!(fit(&vec![], 0), 0);
    assert_eq!(fit(&vec![1, 2, 3], 3), 2);
    assert_eq!(fit(&vec![1, 2, 3], 6), 3);
    assert_eq!(fit(&vec![4, 0], 3), 0);
    assert_eq!(fit(&vec![0, 0, 1], 0), 2);
    assert_eq!(fit(&vec![usize::MAX, 1], usize::MAX), 1);
}

#[test]
fn narrow_characters_take_one_column() {
    let printable: String = (' '..='~').collect();
    for c in printable.chars().chain(['·']) {
        assert_eq!(c.width(), Some(1));
    }
    for c in (0..0x20u8).chain([0x7f]).map(char::from) {
        assert_eq!(c.width(), None);
    }
    let widest = (0..=0x10ffffu32)
        .filter_map(char::from_u32)
        .filter_map(|c| c.width())
        .max();
    assert_eq!(widest, Some(3));
    let without = (0..=0x10ffffu32)
        .filter_map(char::from_u32)
        .filter(|c| c.width().is_none() != c.is_control())
        .count();
    assert_eq!(without, 0);
}

#[test]
fn white_space_and_controls_are_those_of_unicode() {
    for n in 0..=0x10ffffu32 {
        let Some(c) = char::from_u32(n) else { continue };
        assert_eq!(herdr_progress::text::is_white(c), c.is_whitespace());
        assert_eq!(herdr_progress::text::is_control(c), c.is_control());
    }
}

#[test]
fn identifiers_are_random_and_never_none() {
    let mut s = initial();
    begin(&mut s, "none", "Task").unwrap();
    let id = s.task.as_ref().unwrap().id.clone();
    assert_eq!(id.len(), 36);
    for (i, c) in id.chars().enumerate() {
        match i {
            8 | 13 | 18 | 23 => assert_eq!(c, '-'),
            14 => assert_eq!(c, '4'),
            19 => assert!("89ab".contains(c)),
            _ => assert!(c.is_ascii_digit() || ('a'..='f').contains(&c)),
        }
    }
    assert_ne!(s.binding, id);
}

#[test]
fn begin_names_its_task_and_keeps_the_rest() {
    let mut s = bind(None, identity(), "binding".into());
    s.reminded_at = 7;
    s.published = "shown".into();
    begin_as(&mut s, "none", "  A\ttitle ", "one".into()).unwrap();
    let t = s.task.as_ref().unwrap();
    assert_eq!(t.id, "one");
    assert_eq!(t.title, "Atitle");
    assert_eq!(t.percent, None);
    assert_eq!(t.activity, None);
    assert_eq!(t.reported_at, None);
    assert!(!t.cleared);
    assert_eq!(s.binding, "binding");
    assert_eq!(s.reminded_at, 7);
    assert_eq!(s.published, "shown");
    assert_eq!(
        begin_as(&mut s, "none", "Other", "two".into()),
        Err(StateError::Conflict)
    );
    assert_eq!(
        begin_as(&mut s, "one", " \n ", "two".into()),
        Err(StateError::EmptyTitle)
    );
    assert_eq!(s.task.as_ref().unwrap().id, "one");
    begin_as(&mut s, "one", "Other", "two".into()).unwrap();
    assert_eq!(s.task.as_ref().unwrap().id, "two");
}

#[test]
fn refused_reports_leave_the_task_alone() {
    let mut s = bind(None, identity(), "binding".into());
    assert_eq!(
        report(&mut s, "one", Some(1), "x", 0),
        Err(StateError::WrongTask)
    );
    begin_as(&mut s, "none", "Task", "one".into()).unwrap();
    assert_eq!(
        report(&mut s, "one", Some(101), "x", 0),
        Err(StateError::Percent)
    );
    assert_eq!(
        report(&mut s, "one", Some(1), "\u{202a}", 0),
        Err(StateError::EmptyActivity)
    );
    assert_eq!(
        report(&mut s, "two", Some(1), "x", 0),
        Err(StateError::WrongTask)
    );
    assert_eq!(s.task.as_ref().unwrap().percent, None);
    report(&mut s, "one", Some(0), &"y".repeat(50), 5).unwrap();
    assert_eq!(
        s.task.as_ref().unwrap().activity,
        Some("y".repeat(40))
    );
    assert_eq!(tokens(&s, 5)[0], Some("~0%".into()));
    report(&mut s, "one", Some(100), "x", 6).unwrap();
    assert_eq!(
        report(&mut s, "one", Some(1), "x", 7),
        Err(StateError::Completed)
    );
    clear(&mut s, "one").unwrap();
    assert_eq!(
        report(&mut s, "one", Some(1), "x", 7),
        Err(StateError::WrongTask)
    );
    assert_eq!(clear(&mut s, "one"), Err(StateError::WrongTask));
    assert_eq!(tokens(&s, 7), [None, None, None]);
}

#[test]
fn task_gives_the_open_task() {
    let mut s = bind(None, identity(), "binding".into());
    assert!(task(&mut s, "none").is_err());
    begin_as(&mut s, "none", "Task", "one".into()).unwrap();
    task(&mut s, "one").unwrap().percent = Some(3);
    assert_eq!(s.task.as_ref().unwrap().percent, Some(3));
}

#[test]
fn revoked_slots_serve_nobody() {
    let mut s = bind(None, identity(), "binding".into());
    assert!(bound(Some(s.clone()), &identity(), "binding").is_ok());
    assert_eq!(
        bound(None, &identity(), "binding").unwrap_err(),
        StateError::NoAgent
    );
    assert_eq!(
        bound(Some(s.clone()), &identity(), "other").unwrap_err(),
        StateError::WrongBinding
    );
    s.revoked = true;
    assert_eq!(
        bound(Some(s.clone()), &identity(), "binding").unwrap_err(),
        StateError::WrongBinding
    );
    let (next, new) = bootstrap(Some(s.clone()), identity());
    assert!(new);
    assert!(!next.revoked);
    assert_ne!(next.binding, s.binding);
    assert!(same_identity(&next.identity, &s.identity));
}

#[test]
fn stale_time_saturates() {
    let mut s = bind(None, identity(), "binding".into());
    begin_as(&mut s, "none", "Task", "one".into()).unwrap();
    report(&mut s, "one", Some(5), "x", i64::MIN).unwrap();
    assert_eq!(tokens(&s, i64::MAX)[1], Some("stale".into()));
    report(&mut s, "one", Some(5), "x", i64::MAX).unwrap();
    assert_eq!(tokens(&s, i64::MIN)[1], None);
}

#[test]
fn summary_joins_what_is_there() {
    assert_eq!(
        summary(&[Some("~15%".into()), None, Some("Reading code".into())]),
        Some("~15% · Reading code".into())
    );
    assert_eq!(summary(&[Some("".into()), None, None]), None);
    assert_eq!(
        summary(&[Some("".into()), Some("".into()), None]),
        Some("·".into())
    );
}

#[test]
fn state_errors_say_what_is_wrong() {
    let messages = [
        (StateError::NoAgent, "No bound agent. Resume with the progress hook enabled."),
        (StateError::WrongBinding, "Obsolete or mismatched agent binding"),
        (StateError::Conflict, "Task conflict. Re-read context and reassess the request."),
        (StateError::EmptyTitle, "Task title is empty"),
        (StateError::WrongTask, "Obsolete or cleared task"),
        (StateError::Percent, "Percent must be 0 through 100"),
        (StateError::EmptyActivity, "Activity is empty"),
        (StateError::Completed, "Completed task: begin a new generation before further work"),
    ];
    for (error, message) in messages {
        assert_eq!(error.message(), message);
    }
}
