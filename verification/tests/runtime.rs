use herdr_progress::json::{parse_json, same_json, write_json, Json};
use herdr_progress::number::{read_unsigned, write_numeral, write_signed};
use herdr_progress::process::{
    is_ancestor, launch_process, processes, Process, ProcessError,
};
use herdr_progress::runtime::{
    choose_socket, endpoint_identity, now, output, pane_of_agent, string, timestamp, timestamp_at,
    wait_step, Runtime, RuntimeError, SocketInfo, Wait,
};
use herdr_progress::shell::quote;
use std::collections::HashMap;
use std::time::{Duration, SystemTime};

#[test]
fn ancestry_requires_the_actual_parent_chain() {
    let table = HashMap::from([
        (
            1,
            Process {
                parent: 0,
                started: "a".into(),
            },
        ),
        (
            2,
            Process {
                parent: 1,
                started: "b".into(),
            },
        ),
        (
            3,
            Process {
                parent: 0,
                started: "c".into(),
            },
        ),
    ]);
    assert!(is_ancestor(&table, 1, 2));
    assert!(!is_ancestor(&table, 3, 2));
    assert_eq!(launch_process(&table, &[1, 2]).unwrap(), 1);
    assert!(launch_process(&table, &[1, 3]).is_err());
    assert!(launch_process(&table, &[4]).is_err());
}

#[test]
fn ancestry_ends() {
    let mut table = HashMap::new();
    for pid in 1..200u32 {
        table.insert(
            pid,
            Process {
                parent: pid - 1,
                started: "x".into(),
            },
        );
    }
    assert!(is_ancestor(&table, 1, 128));
    assert!(!is_ancestor(&table, 1, 129));
    assert!(is_ancestor(&table, 0, 127));
    assert!(is_ancestor(&table, 500, 500));
    table.insert(
        7,
        Process {
            parent: 7,
            started: "x".into(),
        },
    );
    assert!(!is_ancestor(&table, 3, 9));
    assert_eq!(
        launch_process(&table, &[300]),
        Err(ProcessError::NotRunning)
    );
    assert_eq!(
        launch_process(&table, &[7, 8, 6]),
        Err(ProcessError::Ambiguous)
    );
    assert_eq!(launch_process(&table, &[]), Err(ProcessError::NotRunning));
}

#[test]
fn process_lists_are_read() {
    let table = processes(
        "  1     0 Mon Sep 14 10:00:00 2026\n 22 1 Tue  Sep  1 1:2:3 2026\r\nheader line\n 5 x Mon Sep 14 10:00:00 2026\n+7 +22 a b c d e\n 1 9 Mon Sep 14 10:00:01 2026",
    )
    .unwrap();
    assert_eq!(table.len(), 3);
    assert_eq!(table[&1].parent, 9);
    assert_eq!(table[&1].started, "Mon Sep 14 10:00:01 2026");
    assert_eq!(table[&22].parent, 1);
    assert_eq!(table[&22].started, "Tue Sep 1 1:2:3 2026");
    assert_eq!(table[&7].parent, 22);
    assert!(matches!(processes("").err(), Some(ProcessError::NoProcesses)));
    assert!(matches!(
        processes("4294967296 1 a b c d e\n").err(),
        Some(ProcessError::NoProcesses)
    ));
    assert_eq!(
        ProcessError::NoProcesses.message(),
        "OS process start times unavailable"
    );
}

#[test]
fn quoted_words_are_read_back() {
    assert_eq!(quote(""), "''");
    assert_eq!(quote("a b"), "'a b'");
    assert_eq!(quote("it's"), "'it'\\''s'");
    assert_eq!(quote("'$(x)`\\"), "''\\''$(x)`\\'");
}

#[test]
fn numbers_are_written_and_read() {
    assert_eq!(write_signed(i64::MIN), i64::MIN.to_string());
    assert_eq!(write_signed(-7), "-7");
    assert_eq!(write_numeral(u64::MAX, 16), format!("{:x}", u64::MAX));
    assert_eq!(write_numeral(0, 16), "0");
    let digits: Vec<char> = "18446744073709551615".chars().collect();
    assert_eq!(read_unsigned(&digits, u64::MAX), Some(u64::MAX));
    let over: Vec<char> = "18446744073709551616".chars().collect();
    assert_eq!(read_unsigned(&over, u64::MAX), None);
}

fn info(inode: u64) -> SocketInfo {
    SocketInfo {
        is_socket: true,
        path: "/tmp/a:b.sock".into(),
        device: 3,
        inode,
        changed: -5,
        changed_nanos: 17,
    }
}

#[test]
fn endpoints_tell_sockets_apart() {
    assert_eq!(
        endpoint_identity(&Ok(info(9))).unwrap(),
        "/tmp/a:b.sock:3:9:-5:17"
    );
    assert_ne!(
        endpoint_identity(&Ok(info(9))).unwrap(),
        endpoint_identity(&Ok(info(10))).unwrap()
    );
    let mut file = info(1);
    file.is_socket = false;
    assert!(matches!(
        endpoint_identity(&Ok(file)),
        Err(RuntimeError::NotSocket)
    ));
    let missing = endpoint_identity(&Err("gone".into())).unwrap_err();
    assert_eq!(missing.message(), "Herdr socket unavailable: gone");
    let rt = Runtime::new("s".into(), "e".into(), None);
    assert_eq!(rt.bin, "herdr");
    assert!(rt.check_endpoint("e").is_ok());
    assert!(rt
        .check_endpoint("f")
        .unwrap_err()
        .message()
        .contains("replaced"));
    assert_eq!(
        Runtime::new("s".into(), "e".into(), Some("b".into())).bin,
        "b"
    );
}

#[test]
fn sockets_are_chosen() {
    assert_eq!(
        choose_socket(Some("a".into()), Some("b".into())).unwrap(),
        "a"
    );
    assert_eq!(choose_socket(None, Some("b".into())).unwrap(), "b");
    assert_eq!(
        choose_socket(None, None).unwrap_err().message(),
        "HERDR_SOCKET_PATH is missing"
    );
}

#[test]
fn commands_are_waited_for() {
    assert_eq!(wait_step(true, 9000), Wait::Collect);
    assert_eq!(wait_step(false, 4000), Wait::Kill);
    assert_eq!(wait_step(false, 3999), Wait::Sleep);
    assert_eq!(output(true, Ok("x".into()), "y").unwrap(), "x");
    assert_eq!(
        output(false, Ok("x".into()), " y\n").unwrap_err().message(),
        "Command failed: y"
    );
    assert_eq!(
        output(true, Err("bad".into()), "").unwrap_err().message(),
        "bad"
    );
}

#[test]
fn time_is_kept_with_a_sign() {
    assert_eq!(timestamp(None), 0);
    assert_eq!(timestamp(Some(5)), 5);
    assert_eq!(timestamp(Some(u64::MAX)), u64::MAX as i64);
    assert_eq!(timestamp(Some(1 << 63)), (1u64 << 63) as i64);
    let epoch = SystemTime::UNIX_EPOCH;
    assert_eq!(timestamp_at(epoch), 0);
    assert_eq!(timestamp_at(epoch + Duration::from_millis(401_999)), 401);
    assert_eq!(timestamp_at(epoch - Duration::from_secs(5)), 0);
    let before = timestamp_at(SystemTime::now());
    let shown = now();
    let after = timestamp_at(SystemTime::now());
    assert!(before <= shown && shown <= after);
    assert!(shown > 1_600_000_000);
}

fn args(words: &[&str]) -> Vec<String> {
    words.iter().map(|w| w.to_string()).collect()
}

#[test]
fn answers_are_read() {
    let report = args(&["pane", "report-metadata", "p"]);
    let ok = Runtime::call(&report, " \n").unwrap();
    assert_eq!(write_json(&ok), "{\"type\":\"ok\"}");
    let other = args(&["api", "snapshot"]);
    let error = Runtime::call(&other, "").unwrap_err();
    let cause = serde_json::from_str::<serde_json::Value>("").unwrap_err();
    assert_eq!(
        error.message(),
        format!("Herdr did not return JSON: {cause}")
    );
    let error = Runtime::call(&other, "{\"error\":{\"b\":1,\"a\":[null]}}").unwrap_err();
    assert_eq!(error.message(), "Herdr API error: {\"a\":[null],\"b\":1}");
    let result = Runtime::call(&other, "{\"result\":{\"pane\":[1.50,-2,true]}}").unwrap();
    assert_eq!(write_json(&result), "{\"pane\":[1.5,-2,true]}");
    assert_eq!(write_json(&Runtime::current(&result)), "[1.5,-2,true]");
    assert!(matches!(Runtime::call(&other, "3").unwrap(), Json::Null));
    assert!(matches!(Runtime::current(&Json::Null), Json::Null));
}

#[test]
fn callers_run_in_a_pane() {
    assert!(Runtime::check_caller(&Some("1".into()), true).is_ok());
    assert!(Runtime::check_caller(&Some("1".into()), false).is_err());
    assert!(Runtime::check_caller(&Some("0".into()), true).is_err());
    assert!(Runtime::check_caller(&None, true).is_err());
}

fn json(text: &str) -> Json {
    parse_json(text).unwrap()
}

const PANE: &str = "{\"agent\":\"devin\",\"agent_session\":{\"agent\":\"devin\",\"source\":\"herdr:devin\",\"kind\":\"id\",\"value\":\"session\"},\"terminal_id\":\"terminal\",\"pane_id\":\"w1:p1\"}";

fn table() -> HashMap<u32, Process> {
    processes("10 1 a b c d e\n11 10 f g h i j\n12 11 k l m n o\n20 1 p q r s t\n").unwrap()
}

#[test]
fn identities_are_those_of_the_outermost_agent() {
    let rt = Runtime::new("s".into(), "e".into(), None);
    let pane = json(PANE);
    assert_eq!(pane_of_agent(&pane).unwrap(), "w1:p1");
    let info = json(
        "{\"process_info\":{\"foreground_processes\":[{\"name\":\"acp\",\"argv0\":\"/usr/bin/devin/.\",\"pid\":11},{\"name\":\"devin\",\"pid\":10},{\"name\":\"devin\",\"pid\":10},{\"name\":\"sh\",\"pid\":20},{\"name\":\"devin\",\"pid\":-1},{\"name\":\"devin\"}]}}",
    );
    let id = rt.identity(&pane, &info, &table(), Some(12)).unwrap();
    assert_eq!(id.endpoint, "e");
    assert_eq!(id.terminal, "terminal");
    assert_eq!(id.session, "session");
    assert_eq!(id.agent, "devin");
    assert_eq!(id.pid, 10);
    assert_eq!(id.started, "a b c d e");
    assert!(Runtime::live(&id, &Some(id.clone())));
    assert!(!Runtime::live(&id, &None));
    let error = rt.identity(&pane, &info, &table(), Some(20)).unwrap_err();
    assert_eq!(
        error.message(),
        "Caller is not a descendant of the active agent launch"
    );
    let wide = json(
        "{\"process_info\":{\"foreground_processes\":[{\"name\":\"devin\",\"pid\":4294967306}]}}",
    );
    assert_eq!(rt.identity(&pane, &wide, &table(), None).unwrap().pid, 10);
    let two = json(
        "{\"process_info\":{\"foreground_processes\":[{\"name\":\"devin\",\"pid\":20},{\"name\":\"devin\",\"pid\":10}]}}",
    );
    assert_eq!(
        rt.identity(&pane, &two, &table(), None)
            .unwrap_err()
            .message(),
        "Ambiguous foreground Devin CLI launch"
    );
    let none = json("{\"process_info\":{\"foreground_processes\":[]}}");
    assert_eq!(
        rt.identity(&pane, &none, &table(), None)
            .unwrap_err()
            .message(),
        "Foreground Devin CLI process unavailable"
    );
    assert_eq!(
        rt.identity(&pane, &json("{}"), &table(), None)
            .unwrap_err()
            .message(),
        "Foreground process information unavailable"
    );
}

#[test]
fn panes_of_other_agents_are_refused() {
    let message = |text: &str| pane_of_agent(&json(text)).unwrap_err().message();
    assert_eq!(message("{}"), "Missing agent");
    assert_eq!(message("{\"agent\":\"\"}"), "Missing agent");
    assert_eq!(
        message("{\"agent\":\"other\"}"),
        "Runtime binding is unavailable for other; expected Devin CLI"
    );
    assert_eq!(
        message(&PANE.replace("herdr:devin", "else")),
        "Official native Devin session identity is unavailable"
    );
    assert_eq!(message(&PANE.replace("pane_id", "x")), "Missing pane_id");
    let rt = Runtime::new("s".into(), "e".into(), None);
    let info =
        json("{\"process_info\":{\"foreground_processes\":[{\"name\":\"devin\",\"pid\":10}]}}");
    for (key, missing) in [("terminal_id", "terminal_id"), ("value", "value")] {
        let pane = json(&PANE.replace(key, "x"));
        let error = rt.identity(&pane, &info, &table(), None).unwrap_err();
        assert_eq!(error.message(), format!("Missing {missing}"));
    }
    assert_eq!(string(&json("{\"a\":\"b\"}"), "a").unwrap(), "b");
}

#[test]
fn agents_are_known_by_the_name_of_their_file() {
    let rt = Runtime::new("s".into(), "e".into(), None);
    let pane = json(PANE);
    for path in [
        "devin", "/x/devin", "devin/", "a/devin//", "./devin", "devin/.", "devin/..", "x", "",
        "/", ".", "devin2", "a/devin/b", "DEVIN",
    ] {
        let info = json(&format!(
            "{{\"process_info\":{{\"foreground_processes\":[{{\"argv0\":\"{path}\",\"pid\":10}}]}}}}"
        ));
        let expected = std::path::Path::new(path)
            .file_name()
            .and_then(|x| x.to_str())
            == Some("devin");
        assert_eq!(rt.identity(&pane, &info, &table(), None).is_ok(), expected);
    }
}

#[test]
fn json_values_are_compared_and_written() {
    assert!(same_json(&json("{\"a\":[1,2.0],\"b\":null}"), &json("{\"b\":null,\"a\":[1,2.0]}")));
    assert!(same_json(&json("0.0"), &json("-0.0")));
    assert!(!same_json(&json("1"), &json("1.0")));
    assert!(!same_json(&json("[1]"), &json("[1,2]")));
    assert!(!same_json(&json("{\"a\":1}"), &json("{\"b\":1}")));
    for text in [
        "null", "true", "-1", "1e300", "\"\\u0001\\\"\"", "[[],{}]", "{\"b\":1,\"a\":{\"d\":2,\"c\":3}}",
        "{\"a\":1,\"a\":2}",
    ] {
        let plain: serde_json::Value = serde_json::from_str(text).unwrap();
        assert_eq!(write_json(&json(text)), plain.to_string());
        assert_eq!(write_json(&json(text).copy()), plain.to_string());
    }
    assert_eq!(json("18446744073709551615").unsigned(), Some(u64::MAX));
    assert_eq!(json("1.0").unsigned(), None);
    assert!(parse_json("{").is_err());
}
