use herdr_progress::hook_config::{hook_entry, hooks, is_hook_entry, HooksError, HooksFault};
use herdr_progress::install::{Installation, Phase};
use herdr_progress::json::{parse_json, same_json, write_json, Json};
use herdr_progress::paths::{
    join_path, manifests, parent_path, registry_of, Environment, Paths,
};
use herdr_progress::setup::{
    binary_file, candidate_file, candidate_file_of, check_owner, check_replace, command_of, first_link, hooks_edit,
    journal, launcher, marker,
    plugin_root, removal_baseline, roll_back, sidebar_edit, temporary_name,
    temporary_name_of, unconfigure, Configure, Owned, Restore,
    SetupError,
};
use herdr_progress::sidebar::{
    check_rows, is_progress_row, sidebar, try_sidebar, SidebarError, SidebarFault,
};
use toml_edit::{Array, DocumentMut, InlineTable};

fn row() -> toml_edit::Value {
    let mut a = Array::new();
    let mut style = InlineTable::new();
    style.insert("token", "$agent_progress_summary".into());
    style.insert("dim", true.into());
    a.push(style);
    a.into()
}

fn legacy_row() -> toml_edit::Value {
    let mut a = Array::new();
    a.push("$agent_progress_percent");
    let mut style = InlineTable::new();
    style.insert("token", "$agent_progress_freshness".into());
    style.insert("dim", true.into());
    a.push(style);
    a.push("$agent_progress_activity");
    a.into()
}

#[test]
fn upgrade_removal_keeps_settings_added_after_first_install() {
    let command = "'/stable/herdr-progress' hook";
    let original = "{\"hooks\":{\"SessionStart\":[{\"hooks\":[{\"command\":\"native-hook\"}]}]}}";
    let configured = hooks(original, command, false).unwrap();
    let edited = configured.replacen('{', "{\n// keep my comment\n\"user_setting\":true,", 1);
    let previous = Owned {
        before: Some(original.into()),
        after: configured,
        kind: "hooks".into(),
        command: Some(command.into()),
    };
    let current = Owned {
        before: Some(edited.clone()),
        after: hooks(&edited, command, false).unwrap(),
        kind: "hooks".into(),
        command: Some(command.into()),
    };
    let restored = removal_baseline(previous, &current).unwrap().unwrap();
    assert!(restored.contains("user_setting"));
    assert!(restored.contains("keep my comment"));
    assert!(restored.contains("native-hook"));
    assert!(!restored.contains("herdr-progress"));

    let configured = sidebar("[ui]\nsidebar_width = 26\n", false).unwrap();
    let edited = configured.replace("26", "32") + "\n# keep this too\n";
    let previous = Owned {
        before: Some("[ui]\nsidebar_width = 26\n".into()),
        after: configured,
        kind: "sidebar".into(),
        command: None,
    };
    let current = Owned {
        before: Some(edited.clone()),
        after: sidebar(&edited, false).unwrap(),
        kind: "sidebar".into(),
        command: None,
    };
    let restored = removal_baseline(previous, &current).unwrap().unwrap();
    assert!(restored.contains("sidebar_width = 32"));
    assert!(restored.contains("keep this too"));
    assert!(!restored.contains("$agent_progress_"));
}

#[test]
fn unchanged_upgrade_keeps_original_snapshot_but_deleted_files_stay_deleted() {
    for before in [None, Some("original".to_owned())] {
        let previous = Owned {
            before: before.clone(),
            after: "configured".into(),
            kind: "hooks".into(),
            command: None,
        };
        let current = Owned {
            before: Some("configured".into()),
            after: "configured".into(),
            kind: "hooks".into(),
            command: None,
        };
        assert_eq!(removal_baseline(previous, &current).unwrap(), before);
    }
    let previous = Owned {
        before: Some("original".into()),
        after: "configured".into(),
        kind: "hooks".into(),
        command: None,
    };
    let current = Owned {
        before: None,
        after: "configured".into(),
        kind: "hooks".into(),
        command: None,
    };
    assert_eq!(removal_baseline(previous, &current).unwrap(), None);
}

#[test]
fn existing_hooks_comments_and_user_edits_survive() {
    let original = "{\n// user's comment\n\"theme\": \"dark\",\"hooks\":{\"SessionStart\":[{\"hooks\":[{\"command\":\"keep\"}]}]}}";
    let added = hooks(original, "'/path with space/herdr-progress' hook", false).unwrap();
    assert!(added.contains("// user's comment"));
    assert!(added.contains("keep"));
    assert_eq!(
        hooks(&added, "'/path with space/herdr-progress' hook", false).unwrap(),
        added
    );
    let removed = hooks(&added, "'/path with space/herdr-progress' hook", true).unwrap();
    assert!(!removed.contains("herdr-progress"));
    assert!(removed.contains("keep"));
}

fn member<'a>(v: &'a Json, key: &str) -> &'a Json {
    v.get(key).unwrap()
}

#[test]
fn devin_hooks_use_supported_events_and_empty_matchers() {
    let command = "'/plugin/herdr-progress' hook";
    let text = hooks("{}", command, false).unwrap();
    let configured = parse_json(&text).unwrap();
    for event in [
        "SessionStart",
        "PostCompaction",
        "PostToolUse",
        "UserPromptSubmit",
    ] {
        let entries = member(member(&configured, "hooks"), event).list().unwrap();
        assert!(same_json(&entries[0], &hook_entry(command)));
    }
    let plain: serde_json::Value = serde_json::from_str(&text).unwrap();
    let expected: serde_json::Value = serde_json::from_str(
        "{\"matcher\":\"\",\"hooks\":[{\"type\":\"command\",\"command\":\"'/plugin/herdr-progress' hook\",\"timeout\":10}]}",
    )
    .unwrap();
    assert_eq!(plain["hooks"]["PostToolUse"][0], expected);
    assert_eq!(write_json(&hook_entry(command)), expected.to_string());
}

#[test]
fn sidebar_defaults_overrides_and_budget() {
    assert!(
        sidebar("", false)
            .unwrap()
            .contains("$agent_progress_summary")
    );
    assert!(
        sidebar("[ui.sidebar.agents]\nrows=[[\"agent\"]]", false)
            .unwrap()
            .contains("$agent_progress_summary")
    );
    let original = "# preserved\n[ui.sidebar.agents]\nrows=[[\"agent\"]]\n[ui.sidebar.agents.rows_by_agent]\nopencode=[[\"state_icon\",\"agent\"]]\ndevin=[[\"state_icon\",\"agent\"]]\n";
    let added = sidebar(original, false).unwrap();
    assert!(added.contains("# preserved"));
    assert_eq!(added.matches("$agent_progress_summary").count(), 1);
    let before = original.parse::<DocumentMut>().unwrap();
    let after = added.parse::<DocumentMut>().unwrap();
    assert_eq!(
        before["ui"]["sidebar"]["agents"]["rows_by_agent"]["opencode"].to_string(),
        after["ui"]["sidebar"]["agents"]["rows_by_agent"]["opencode"].to_string()
    );
    assert_eq!(sidebar(&added, false).unwrap(), added);
    assert!(!sidebar(&added, true).unwrap().contains("$agent_progress"));
    let full = format!(
        "[ui.sidebar.agents]\nrows=[{}]",
        vec!["[\"agent\"]"; 16].join(",")
    );
    assert!(sidebar(&full, false).is_err());
}

#[test]
fn upgrade_replaces_legacy_row_without_using_an_extra_slot() {
    let mut rows = vec!["[\"agent\"]".to_string(); 15];
    rows.push(legacy_row().to_string());
    let old = format!("[ui.sidebar.agents]\nrows=[{}]", rows.join(","));
    let upgraded = sidebar(&old, false).unwrap();
    assert_eq!(upgraded.matches("$agent_progress_summary").count(), 1);
    assert!(!upgraded.contains("$agent_progress_percent"));
    assert_eq!(sidebar(&upgraded, false).unwrap(), upgraded);
    let removed = sidebar(&upgraded, true).unwrap();
    assert!(!removed.contains("$agent_progress_"));
    assert_eq!(removed.matches("\"agent\"").count(), 15);
}

#[test]
fn uninstall_keeps_user_modified_hook_and_other_rows() {
    let command = "'/plugin/herdr-progress' hook";
    let added = hooks("{}", command, false).unwrap();
    let edited = added.replace("\"timeout\": 10", "\"timeout\": 20");
    assert!(
        hooks(&edited, command, true)
            .unwrap()
            .contains("herdr-progress")
    );
    let added = sidebar(
        "[ui.sidebar.agents]\nrows=[[\"agent\",\"state_text\"]]",
        false,
    )
    .unwrap();
    let edited = format!("{added}\n[ui.sound]\nenabled = false\n");
    let removed = sidebar(&edited, true).unwrap();
    assert!(removed.contains("state_text"));
    assert!(removed.contains("enabled = false"));
    assert!(!removed.contains("$agent_progress_"));
}

#[test]
fn progress_rows_are_known_however_they_are_spaced() {
    assert_eq!(
        row().to_string(),
        "[{ token = \"$agent_progress_summary\", dim = true }]"
    );
    assert_eq!(
        legacy_row().to_string(),
        "[\"$agent_progress_percent\", { token = \"$agent_progress_freshness\", dim = true }, \"$agent_progress_activity\"]"
    );
    assert!(is_progress_row(&row().to_string()));
    assert!(is_progress_row(&legacy_row().to_string()));
    assert!(is_progress_row("\n [ {token=\"$agent_progress_summary\",dim=true} ]"));
    assert!(!is_progress_row("[\"$agent_progress_summary\"]"));
    assert!(!is_progress_row("[\"agent\"]"));
}

#[test]
fn sidebar_gives_the_reporting_agent_rows_of_its_own() {
    let added = sidebar("[ui.sidebar.agents]\nrows=[[\"agent\"]]\n", false).unwrap();
    assert_eq!(
        added,
        "[ui.sidebar.agents]\nrows=[[\"agent\"]]\n\n[ui.sidebar.agents.rows_by_agent]\ndevin =[[\"agent\"], [{ token = \"$agent_progress_summary\", dim = true }]]\n"
    );
    let fresh = sidebar("", false).unwrap();
    assert!(fresh.contains("[[\"state_icon\", \"machine\", \"workspace\", \"tab\"], [\"agent\"]]"));
    assert_eq!(fresh.matches("$agent_progress_summary").count(), 1);
    let removed = sidebar(&added, true).unwrap();
    assert!(!removed.contains("devin"));
    assert!(removed.contains("rows=[[\"agent\"]]"));
    assert_eq!(sidebar(&removed, true).unwrap(), removed);
}

#[test]
fn removing_undoes_adding_where_overrides_were_configured() {
    let with_devin = "[ui.sidebar.agents]\nrows = [[\"agent\"]] # base\n[ui.sidebar.agents.rows_by_agent]\nother = [[\"a\"]]\ndevin = [[\"b\"]]\n";
    let added = sidebar(with_devin, false).unwrap();
    assert_ne!(added, with_devin);
    assert_eq!(sidebar(&added, true).unwrap(), with_devin);
    let without = "[ui.sidebar.agents]\nrows = [[\"agent\"]]\n[ui.sidebar.agents.rows_by_agent]\nother = [[\"a\"]]\n";
    let added = sidebar(without, false).unwrap();
    assert_eq!(sidebar(&added, true).unwrap(), without);
}

#[test]
fn sidebar_refusals_name_their_reason() {
    let fault = |text: &str, remove: bool| match sidebar(text, remove) {
        Err(SidebarError::Fault(f)) => Some(f),
        _ => None,
    };
    assert_eq!(
        fault("[ui.sidebar.agents]\nrows = 3\n", false),
        Some(SidebarFault::NotRows)
    );
    assert_eq!(
        fault("[ui.sidebar.agents]\nrows = 3\n", true),
        Some(SidebarFault::NotRows)
    );
    assert_eq!(
        fault("[ui.sidebar.agents]\nrows_by_agent = 3\n", false),
        Some(SidebarFault::NotOverrides)
    );
    assert_eq!(
        fault(
            "[ui.sidebar.agents.rows_by_agent]\nother = \"x\"\n",
            true
        ),
        Some(SidebarFault::NotRows)
    );
    assert_eq!(
        fault(
            "[ui.sidebar.agents]\nrows=[[\"$agent_progress_summary\"]]\n",
            false
        ),
        Some(SidebarFault::EditedRow)
    );
    let full = format!(
        "[ui.sidebar.agents]\nrows=[{}]",
        vec!["[\"agent\"]"; 16].join(",")
    );
    assert_eq!(fault(&full, false), Some(SidebarFault::Full));
    match sidebar("= x", true) {
        Err(SidebarError::Parse(m)) => {
            assert_eq!(m, "= x".parse::<DocumentMut>().unwrap_err().to_string())
        }
        _ => panic!("expected a complaint"),
    }
    let messages = [
        (SidebarFault::NotRows, "Sidebar rows must be arrays"),
        (
            SidebarFault::EditedRow,
            "An edited progress row already exists; restore or remove it before configuring",
        ),
        (
            SidebarFault::Full,
            "Sidebar already uses all 16 rows; remove one row before configuring",
        ),
        (SidebarFault::NotOverrides, "rows_by_agent must be a table"),
    ];
    for (f, message) in messages {
        assert_eq!(SidebarError::Fault(f).message(), message);
    }
    assert_eq!(SidebarError::Parse("no".into()).message(), "no");
}

#[test]
fn sidebar_without_agents_comes_back_as_it_is() {
    for text in ["", "x=1", "[ui]\nsidebar=3\n", "ui = 4"] {
        assert_eq!(sidebar(text, true).unwrap(), text);
    }
    assert_eq!(
        sidebar("[ui.sidebar]\nagents = 3\n", true).unwrap(),
        "[ui.sidebar]\nagents = 3\n"
    );
    for text in ["ui = 4", "[ui]\nsidebar=3\n", "[ui.sidebar]\nagents = 3\n"] {
        assert!(try_sidebar(text, false).is_none());
        assert!(try_sidebar(text, true).is_some());
    }
    assert_eq!(
        try_sidebar("", false).unwrap().unwrap(),
        sidebar("", false).unwrap()
    );
    assert!(try_sidebar("=", false).unwrap().is_err());
}

#[test]
fn sidebar_edits_inline_tables() {
    let text = "ui = { sidebar = { agents = { rows = [[\"agent\"]], rows_by_agent = { other = [[\"x\"]] } } } }\n";
    let added = sidebar(text, false).unwrap();
    assert_eq!(added.matches("$agent_progress_summary").count(), 1);
    assert_eq!(sidebar(&added, false).unwrap(), added);
    assert_eq!(sidebar(&added, true).unwrap(), text);
}

#[test]
fn hooks_are_added_once_and_taken_out() {
    let command = "run \"it\"\n\u{1} hook";
    let listed = "{\"hooks\":{\"SessionStart\":[],\"PostCompaction\":[1],\"PostToolUse\":[],\"UserPromptSubmit\":[{}]}}";
    let added = hooks(listed, command, false).unwrap();
    assert_eq!(hooks(&added, command, false).unwrap(), added);
    let removed = hooks(&added, command, true).unwrap();
    let before: serde_json::Value = serde_json::from_str(listed).unwrap();
    let after: serde_json::Value = serde_json::from_str(&removed).unwrap();
    assert_eq!(before, after);
    assert_eq!(hooks(&removed, command, true).unwrap(), removed);
    let value: serde_json::Value = serde_json::from_str(&added).unwrap();
    assert_eq!(
        value["hooks"]["PostCompaction"][1]["hooks"][0]["command"],
        command
    );
    let twice = added.replace("[\n", "[ // note\n");
    assert!(!hooks(&twice, command, true).unwrap().contains("timeout"));
}

#[test]
fn hook_refusals_name_their_reason() {
    let fault = |text: &str, remove: bool| match hooks(text, "c", remove) {
        Err(HooksError::Fault(f)) => Some(f),
        _ => None,
    };
    assert_eq!(fault("[]", false), Some(HooksFault::NotObject));
    assert_eq!(fault("", true), Some(HooksFault::NotObject));
    assert_eq!(
        fault("{\"hooks\":[]}", true),
        Some(HooksFault::HooksNotObject)
    );
    assert_eq!(
        fault("{\"hooks\":{\"PostToolUse\":{}}}", false),
        Some(HooksFault::EventNotArray)
    );
    assert_eq!(
        fault("{\"hooks\":{\"PostToolUse\":null}}", true),
        Some(HooksFault::EventNotArray)
    );
    assert_eq!(fault("{\"hooks\":{\"Other\":3}}", true), None);
    assert_eq!(hooks("{ } // x", "c", true).unwrap(), "{ } // x");
    assert!(matches!(hooks("{", "c", true), Err(HooksError::Parse(_))));
    assert_eq!(
        HooksError::Fault(HooksFault::NotObject).message(),
        "Hook configuration must be an object"
    );
    assert_eq!(
        HooksError::Fault(HooksFault::HooksNotObject).message(),
        "hooks must be an object"
    );
    assert_eq!(
        HooksError::Fault(HooksFault::EventNotArray).message(),
        "Hook event must be an array"
    );
    assert_eq!(HooksError::Parse("no".into()).message(), "no");
}

fn owned(before: Option<&str>, after: &str, kind: &str, command: Option<&str>) -> Owned {
    Owned {
        before: before.map(str::to_owned),
        after: after.to_owned(),
        kind: kind.to_owned(),
        command: command.map(str::to_owned),
    }
}

#[test]
fn missing_hook_of_an_edited_file_is_an_error() {
    let previous = owned(None, "a", "hooks", None);
    let current = owned(Some("{}"), "b", "hooks", None);
    assert!(matches!(
        removal_baseline(previous, &current),
        Err(SetupError::MissingHook)
    ));
}

#[test]
fn edits_note_what_they_replace() {
    let edit = sidebar_edit(None).unwrap().unwrap();
    assert_eq!(edit.before, None);
    assert_eq!(edit.kind, "sidebar");
    assert_eq!(edit.after, sidebar("", false).unwrap());
    let edit = hooks_edit(None, "c".into()).unwrap();
    assert_eq!(edit.after, hooks("{}", "c", false).unwrap());
    assert_eq!(edit.command, Some("c".into()));
    assert!(sidebar_edit(Some("ui=1".into())).is_none());
    assert!(hooks_edit(Some("3".into()), "c".into()).is_err());
}

#[test]
fn owners_are_checked() {
    let edit = owned(Some("x $agent_progress_ y"), "b", "sidebar", None);
    assert!(matches!(
        check_owner(&None, &edit),
        Err(SetupError::Unowned)
    ));
    assert!(check_owner(&Some(owned(None, "z", "sidebar", None)), &edit).is_ok());
    assert!(matches!(
        check_owner(&Some(owned(None, "z", "sidebar", Some("c"))), &edit),
        Err(SetupError::OwnershipDiffers)
    ));
    let edit = owned(Some("has c in it"), "b", "hooks", Some("c in"));
    assert!(check_owner(&None, &edit).is_err());
    let edit = owned(Some("has d in it"), "b", "hooks", Some("c in"));
    assert!(check_owner(&None, &edit).is_ok());
    assert!(check_owner(&None, &owned(None, "b", "sidebar", None)).is_ok());
}

#[test]
fn upgrades_restore_the_first_snapshot() {
    let first = owned(Some("original"), "one", "hooks", Some("c"));
    let edit = owned(Some("one"), "two", "hooks", Some("c"));
    let noted = journal(Some(first), &edit).unwrap();
    assert_eq!(noted.before, Some("original".into()));
    assert_eq!(noted.after, "two");
    let later = owned(Some("two"), "three", "hooks", Some("c"));
    let noted_later = journal(Some(noted.clone()), &later).unwrap();
    assert_eq!(noted_later.before, Some("original".into()));
    match unconfigure(&noted, &Some("two".into())).unwrap() {
        Restore::Write(text) => assert_eq!(text, "original"),
        _ => panic!("expected the original"),
    }
    let noted = journal(None, &edit).unwrap();
    assert_eq!(noted.before, Some("one".into()));
}

#[test]
fn files_are_restored_only_where_nobody_touched_them() {
    let edit = owned(None, "after", "hooks", Some("c"));
    assert!(matches!(
        roll_back(&edit, &Some("after".into())),
        Restore::Delete
    ));
    assert!(matches!(
        roll_back(&edit, &Some("other".into())),
        Restore::Keep
    ));
    assert!(matches!(roll_back(&edit, &None), Restore::Keep));
    assert!(matches!(
        unconfigure(&edit, &Some("after".into())),
        Ok(Restore::Delete)
    ));
    assert!(matches!(unconfigure(&edit, &None), Ok(Restore::Keep)));
    match unconfigure(&edit, &Some("{ /* mine */ }".into())) {
        Ok(Restore::Write(text)) => assert_eq!(text, "{ /* mine */ }"),
        _ => panic!("expected the text"),
    }
    assert!(unconfigure(&edit, &Some("[".into())).is_err());
}

#[test]
fn changed_files_are_not_replaced() {
    assert!(matches!(
        check_replace(&Some("new user edit".into()), &Some("old".into())),
        Err(SetupError::Changed)
    ));
    assert!(check_replace(&None, &None).is_ok());
    assert!(check_replace(&Some("a".into()), &None).is_err());
    assert_eq!(
        SetupError::Changed.message("/x"),
        "Configuration changed concurrently: /x"
    );
    assert_eq!(
        SetupError::Unowned.message("/x"),
        "Existing progress entries have no ownership record at /x; inspect them before configuring"
    );
    assert_eq!(
        SetupError::OwnershipDiffers.message("/x"),
        "Setup ownership differs at /x"
    );
}

#[test]
fn links_are_found() {
    assert_eq!(first_link(&vec![]), None);
    assert_eq!(first_link(&vec![false, false]), None);
    assert_eq!(first_link(&vec![false, true, true]), Some(1));
    assert_eq!(
        SetupError::Link.message("/x"),
        "Refusing symlink configuration path /x"
    );
}

fn phases(files: usize, outcomes: &[bool]) -> Vec<Phase> {
    let mut i = Installation::new(files);
    let mut seen = vec![i.phase];
    for success in outcomes {
        i.advance(*success);
        seen.push(i.phase);
    }
    seen
}

#[test]
fn installations_go_step_by_step() {
    assert_eq!(
        phases(2, &[true, true, true, true, true, false]),
        vec![
            Phase::Checking,
            Phase::Noting,
            Phase::Replacing(0),
            Phase::Replacing(1),
            Phase::Marking,
            Phase::Done,
            Phase::Done
        ]
    );
    assert_eq!(phases(2, &[false])[1], Phase::Failed);
    assert_eq!(phases(2, &[true, false])[2], Phase::Failed);
    assert_eq!(phases(2, &[true, true, false])[3], Phase::Failed);
    assert_eq!(
        phases(3, &[true, true, true, true, false, true, true])[4..],
        [
            Phase::Replacing(2),
            Phase::Restoring(1),
            Phase::Restoring(0),
            Phase::Failed
        ]
    );
    assert_eq!(
        phases(3, &[true, true, true, true, false, false])[6],
        Phase::Failed
    );
    assert_eq!(phases(0, &[true, true])[2], Phase::Marking);
    assert_eq!(phases(0, &[true, true, false])[3], Phase::Failed);
}

fn paths() -> Paths {
    Paths {
        config: "/it's/config".into(),
        state: "/state".into(),
    }
}

#[test]
fn launcher_and_command_quote_their_paths() {
    assert_eq!(
        command_of(&paths()),
        "'/it'\\''s/config/herdr-progress' hook"
    );
    assert_eq!(
        launcher(&paths()),
        "#!/bin/sh\nexport HERDR_PLUGIN_CONFIG_DIR='/it'\\''s/config'\nexport HERDR_PLUGIN_STATE_DIR='/state'\nexec '/it'\\''s/config/herdr-progress-bin' \"$@\"\n"
    );
    assert_eq!(binary_file(&paths()), "/it's/config/herdr-progress-bin");
}

#[test]
fn plugins_are_found_in_the_registry() {
    let registry = parse_json(
        "[{\"plugin_id\":\"other\",\"enabled\":true},{\"plugin_id\":\"agent-progress\",\"enabled\":false,\"plugin_root\":\"/a\"},{\"plugin_id\":\"agent-progress\",\"enabled\":true,\"plugin_root\":\"/b\",\"manifest_path\":\"/b/m\"},{\"plugin_id\":\"agent-progress\",\"enabled\":true,\"plugin_root\":\"/c\",\"manifest_path\":\"/c/m\"}]",
    )
    .unwrap();
    let root = plugin_root(&registry).unwrap();
    assert_eq!(root.text().unwrap(), "/b");
    let text = marker("/reg", root);
    assert_eq!(text, "{\"registry\":\"/reg\",\"root\":\"/b\"}");
    let marker = parse_json(&text).unwrap();
    assert_eq!(registry_of(&marker).unwrap(), "/reg");
    assert_eq!(manifests(&marker, &registry), vec!["/b/m".to_string()]);
    assert!(matches!(
        plugin_root(&parse_json("{}").unwrap()),
        Err(SetupError::NoPlugin)
    ));
    assert_eq!(manifests(&marker, &Json::Null), Vec::<String>::new());
    let (m, r) = (Some(marker), Some(registry));
    assert!(Paths::enabled(&m, &r, &vec![true]));
    assert!(!Paths::enabled(&m, &r, &vec![false, true]));
    assert!(!Paths::enabled(&m, &r, &vec![]));
    assert!(!Paths::enabled(&None, &r, &vec![true]));
    assert!(!Paths::enabled(&m, &None, &vec![true]));
}

#[test]
fn paths_are_joined_as_the_system_does() {
    for base in ["", "/", "a", "a/", "/a/b", "./x"] {
        for rest in ["b", "b/c", "/abs", "", "devin/config.json"] {
            assert_eq!(
                join_path(base, rest),
                std::path::Path::new(base).join(rest).to_str().unwrap()
            );
        }
    }
}

#[test]
fn parents_are_those_of_the_system() {
    let letters = ['/', '.', 'a'];
    let mut paths = vec![String::new()];
    for _ in 0..7 {
        let longer: Vec<String> = paths
            .iter()
            .flat_map(|p| letters.iter().map(move |c| format!("{p}{c}")))
            .collect();
        paths.extend(longer);
        paths.sort();
        paths.dedup();
    }
    assert!(paths.len() > 3000);
    for path in &paths {
        let expected = std::path::Path::new(path)
            .parent()
            .map(|p| p.to_str().unwrap().to_owned());
        assert_eq!(parent_path(path), expected, "{path}");
    }
    assert_eq!(parent_path("/c d/config.toml"), Some("/c d".into()));
}

#[test]
fn temporary_files_have_names_of_their_own() {
    assert_eq!(temporary_name_of("x"), ".agent-progress-x.tmp");
    assert_eq!(temporary_name().len(), ".agent-progress-.tmp".len() + 36);
    assert_ne!(temporary_name(), temporary_name());
    assert_eq!(candidate_file_of(&paths(), "x"), "/it's/config/check-x.toml");
    let drawn = candidate_file(&paths());
    assert!(drawn.starts_with("/it's/config/check-"));
    assert!(drawn.ends_with(".toml"));
    assert_eq!(drawn.len(), "/it's/config/check-.toml".len() + 36);
}

#[test]
fn environment_names_directories() {
    let none = Environment {
        config_path: None,
        config_home: None,
        state_home: None,
        home: Some("/home/u".into()),
        plugin_config: None,
        plugin_state: None,
    };
    let found = Paths::discover(&none);
    assert_eq!(
        found.config,
        "/home/u/.config/herdr/plugins/config/agent-progress"
    );
    assert_eq!(
        found.state,
        "/home/u/.local/state/herdr/plugins/agent-progress"
    );
    assert_eq!(
        found.db(),
        "/home/u/.local/state/herdr/plugins/agent-progress/progress.sqlite3"
    );
    assert_eq!(none.config_path(), "/home/u/.config/herdr/config.toml");
    assert_eq!(none.devin_config_path(), "/home/u/.config/devin/config.json");
    assert_eq!(none.registry_path(), "/home/u/.config/herdr/plugins.json");
    let all = Environment {
        config_path: Some("/c/config.toml".into()),
        config_home: Some("/xdg".into()),
        state_home: Some("/st".into()),
        home: None,
        plugin_config: None,
        plugin_state: None,
    };
    let found = Paths::discover(&all);
    assert_eq!(found.config, "/c/plugins/config/agent-progress");
    assert_eq!(found.state, "/st/herdr/plugins/agent-progress");
    assert_eq!(all.config_path(), "/c/config.toml");
    let options = Configure {
        devin_config: None,
        herdr_config: Some("/mine".into()),
    };
    assert_eq!(options.sidebar_file(&all), "/mine");
    assert_eq!(options.hooks_file(&all), "/xdg/devin/config.json");
    let named = Environment {
        plugin_config: Some("/pc".into()),
        plugin_state: Some("/ps".into()),
        ..none
    };
    let found = Paths::discover(&named);
    assert_eq!((found.config.as_str(), found.state.as_str()), ("/pc", "/ps"));
    assert_eq!(found.marker(), "/pc/enabled");
}

#[test]
fn sidebar_edits_reach_only_the_rows() {
    let text = "top = 1\n[ui]\nwidth = 3 # keep\n[ui.sidebar]\nother = [1, 2]\n[ui.sidebar.agents]\nsort = \"name\"\nrows = [[\"agent\"]]\n[ui.sidebar.agents.rows_by_agent]\nopencode = [[\"x\"], [{ token = \"$agent_progress_summary\", dim = true }], [\"y\"]]\n[last]\nz = {}\n";
    for remove in [false, true] {
        let after = sidebar(text, remove).unwrap();
        for kept in [
            "top = 1\n",
            "width = 3 # keep\n",
            "other = [1, 2]\n",
            "sort = \"name\"\n",
            "rows = [[\"agent\"]]\n",
            "opencode = [[\"x\"], [\"y\"]]\n",
            "[last]\nz = {}\n",
        ] {
            assert!(after.contains(kept));
        }
        assert_eq!(after.contains("devin"), !remove);
    }
}

#[test]
fn hook_edits_reach_only_the_events() {
    let text = "{\"a\":{\"b\":[1.50,\"x\"]},\"hooks\":{\"Stop\":[{\"matcher\":\"\"}],\"PostToolUse\":[true,null]}}";
    let before: serde_json::Value = serde_json::from_str(text).unwrap();
    let added: serde_json::Value =
        serde_json::from_str(&hooks(text, "c", false).unwrap()).unwrap();
    assert_eq!(added["a"], before["a"]);
    assert_eq!(added["hooks"]["Stop"], before["hooks"]["Stop"]);
    assert_eq!(added["hooks"]["PostToolUse"][0], before["hooks"]["PostToolUse"][0]);
    assert_eq!(added["hooks"]["PostToolUse"][1], before["hooks"]["PostToolUse"][1]);
    for event in ["SessionStart", "PostCompaction", "PostToolUse", "UserPromptSubmit"] {
        let entries = added["hooks"][event].as_array().unwrap();
        let last = parse_json(&entries[entries.len() - 1].to_string()).unwrap();
        assert!(is_hook_entry(&last, "c"));
        assert!(!is_hook_entry(&last, "d"));
    }
}

#[test]
fn rows_are_checked_before_one_is_added() {
    let rows = |n: usize| vec!["[\"agent\"]".to_string(); n];
    assert!(check_rows(&rows(15)).is_ok());
    assert_eq!(check_rows(&rows(16)), Err(SidebarFault::Full));
    let mut named = rows(16);
    named[3] = "[\"$agent_progress_activity\"]".into();
    assert_eq!(check_rows(&named), Err(SidebarFault::EditedRow));
}

#[test]
fn settled_hooks_come_back_as_the_same_text() {
    for text in [
        "{ hooks : {SessionStart:[0x1F, +1, .5, 'x', true , null,\r],\t}, // e\r\n 'k' : -0.0e+1 } \n",
        "{\"hooks\":{}}",
        "\n{\"hooks\" : {\"PostToolUse\":[ ] } }  ",
    ] {
        assert_eq!(hooks(text, "c", true).unwrap(), text);
    }
    let added = hooks("{ \"z\" : 1.50 , }", "c", false).unwrap();
    assert_eq!(hooks(&added, "c", false).unwrap(), added);
}

#[test]
fn tables_in_braces_that_end_in_a_comma_take_no_table() {
    let text = "[ui.sidebar]\nagents = { rows = [[\"agent\"]], }\n";
    assert!(try_sidebar(text, false).is_none());
    assert!(sidebar_edit(Some(text.into())).is_none());
    assert_eq!(sidebar(text, true).unwrap(), text);
    let refused = "[ui.sidebar]\nagents = { rows = 3, }\n";
    assert!(matches!(
        try_sidebar(refused, false),
        Some(Err(SidebarError::Fault(SidebarFault::NotRows)))
    ));
    let full = format!(
        "[ui.sidebar]\nagents = {{ rows = [{}], }}\n",
        vec!["[\"agent\"]"; 16].join(",")
    );
    assert!(matches!(
        try_sidebar(&full, false),
        Some(Err(SidebarError::Fault(SidebarFault::Full)))
    ));
    let there = "[ui.sidebar]\nagents = { rows = [[\"agent\"]], rows_by_agent = {}, }\n";
    let added = try_sidebar(there, false).unwrap().unwrap();
    assert_eq!(
        added,
        "[ui.sidebar]\nagents = { rows = [[\"agent\"]], rows_by_agent = { devin = [[\"agent\"], [{ token = \"$agent_progress_summary\", dim = true }]]}, }\n"
    );
    assert_eq!(sidebar(&added, false).unwrap(), added);
    let outer = "ui = { sidebar = { agents = { rows = [[\"agent\"]] }, }, }\n";
    let added = try_sidebar(outer, false).unwrap().unwrap();
    assert_eq!(sidebar(&added, false).unwrap(), added);
}

#[test]
fn edited_sidebars_come_back_as_the_same_text() {
    for text in [
        "",
        "[ui.sidebar.agents]\nrows = []\n",
        "[ui.sidebar.agents]\nrows=[ [\"agent\"] , ]\n[ui.sidebar.agents.rows_by_agent]\nx=[]\ndevin=[\n [\"b\"], # c\n]\n",
    ] {
        let added = sidebar(text, false).unwrap();
        assert_eq!(sidebar(&added, false).unwrap(), added);
        let removed = sidebar(&added, true).unwrap();
        assert!(!removed.contains("$agent_progress_"));
        assert_eq!(sidebar(&removed, true).unwrap(), removed);
    }
}
