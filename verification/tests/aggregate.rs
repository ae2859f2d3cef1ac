use logtool::stats::{find_entry, record_event, reached_limit, status_killed_by_limit};
use logtool::{parse_json_event, truncate_for_display, JournalEvent, SourceKind, SourceStats};

fn event(message: &str, priority: Option<u8>, unit: Option<&str>, exe: Option<&str>) -> JournalEvent {
    JournalEvent {
        message: message.to_string(),
        priority,
        unit: unit.map(str::to_string),
        exe: exe.map(str::to_string),
        comm: None,
        identifier: None,
    }
}

fn aggregate(events: &[JournalEvent]) -> Vec<SourceStats> {
    let mut table = Vec::new();
    for e in events {
        record_event(&mut table, e);
    }
    table
}

#[test]
fn example_event_sets_worst_priority() {
    let e = parse_json_event(r#"{"MESSAGE":"oom","PRIORITY":"2","_SYSTEMD_UNIT":"foo.service"}"#)
        .expect("JSON 应解析成功");
    let table = aggregate(&[e]);
    assert_eq!(table.len(), 1);
    assert_eq!(table[0].kind, SourceKind::Unit);
    assert_eq!(table[0].source, "foo.service");
    assert_eq!(table[0].count, 1);
    assert_eq!(table[0].worst_priority, 2);
    assert_eq!(table[0].sample_message, "oom");
    assert_eq!(table[0].sample_unit.as_deref(), Some("foo.service"));
    assert_eq!(table[0].sample_exe, None);
    assert_eq!(table[0].package, None);
}

#[test]
fn two_events_of_one_unit_share_an_entry() {
    let table = aggregate(&[
        event("a", Some(3), Some("foo.service"), None),
        event("b", Some(2), Some("foo.service"), None),
    ]);
    assert_eq!(table.len(), 1);
    assert_eq!(table[0].count, 2);
    assert_eq!(table[0].worst_priority, 2);
}

#[test]
fn worst_priority_starts_at_seven_and_only_sinks() {
    let table = aggregate(&[event("a", None, Some("u"), None)]);
    assert_eq!(table[0].worst_priority, 7);
    let table = aggregate(&[
        event("a", Some(9), Some("u"), None),
        event("a", Some(5), Some("u"), None),
        event("a", None, Some("u"), None),
        event("a", Some(6), Some("u"), None),
    ]);
    assert_eq!(table[0].worst_priority, 5);
    assert_eq!(table[0].count, 4);
}

#[test]
fn samples_follow_arrival_order() {
    let table = aggregate(&[
        event("first", None, Some("u"), None),
        event("", None, Some("u"), Some("/bin/one")),
        event("last", None, Some("u"), Some("/bin/two")),
        event("", None, Some("u"), None),
    ]);
    assert_eq!(table[0].sample_message, "last");
    assert_eq!(table[0].sample_unit.as_deref(), Some("u"));
    assert_eq!(table[0].sample_exe.as_deref(), Some("/bin/one"));
}

#[test]
fn long_messages_are_cut_in_the_sample() {
    let long = "é".repeat(200);
    let table = aggregate(&[event(&long, None, Some("u"), None)]);
    assert_eq!(table[0].sample_message, format!("{}...", "é".repeat(180)));
    let exact = "x".repeat(180);
    let table = aggregate(&[event(&exact, None, Some("u"), None)]);
    assert_eq!(table[0].sample_message, exact);
}

#[test]
fn sources_keep_apart_by_kind_and_name() {
    let mut same_name_other_kind = event("m", None, None, None);
    same_name_other_kind.comm = Some("foo".to_string());
    let table = aggregate(&[
        event("m", None, Some("foo"), None),
        same_name_other_kind,
        event("m", None, None, Some("foo")),
        event("m", None, Some("foo"), None),
    ]);
    let keys: Vec<(SourceKind, &str, u64)> =
        table.iter().map(|s| (s.kind, s.source.as_str(), s.count)).collect();
    assert_eq!(
        keys,
        vec![
            (SourceKind::Unit, "foo", 2),
            (SourceKind::Comm, "foo", 1),
            (SourceKind::Executable, "foo", 1)
        ]
    );
    assert_eq!(find_entry(&table, SourceKind::Comm, "foo"), Some(1));
    assert_eq!(find_entry(&table, SourceKind::Kernel, "foo"), None);
    assert_eq!(find_entry(&table, SourceKind::Unit, "fo"), None);
}

#[test]
fn counts_and_worst_priority_ignore_arrival_order() {
    let events = vec![
        event("a", Some(4), Some("x"), None),
        event("b", Some(1), Some("y"), None),
        event("c", Some(6), Some("x"), Some("/bin/x")),
        event("d", None, None, Some("/bin/z")),
        event("e", Some(2), Some("x"), None),
        event("f", Some(3), Some("y"), None),
    ];
    let summary = |order: &[usize]| {
        let picked: Vec<JournalEvent> = order.iter().map(|&i| events[i].clone()).collect();
        let mut rows: Vec<(SourceKind, String, u64, u8)> = aggregate(&picked)
            .into_iter()
            .map(|s| (s.kind, s.source, s.count, s.worst_priority))
            .collect();
        rows.sort_by(|a, b| a.1.cmp(&b.1));
        rows
    };
    let expected = vec![
        (SourceKind::Executable, "/bin/z".to_string(), 1, 7),
        (SourceKind::Unit, "x".to_string(), 3, 2),
        (SourceKind::Unit, "y".to_string(), 2, 1),
    ];
    let orders: [[usize; 6]; 5] = [
        [0, 1, 2, 3, 4, 5],
        [5, 4, 3, 2, 1, 0],
        [2, 0, 5, 1, 4, 3],
        [3, 5, 1, 4, 0, 2],
        [4, 2, 0, 3, 5, 1],
    ];
    for order in orders {
        assert_eq!(summary(&order), expected);
    }
}

#[test]
fn truncation_counts_characters() {
    assert_eq!(truncate_for_display("hello", 5), "hello");
    assert_eq!(truncate_for_display("hello", 4), "hell...");
    assert_eq!(truncate_for_display("hello", 0), "...");
    assert_eq!(truncate_for_display("", 0), "");
    assert_eq!(truncate_for_display("日志分析", 2), "日志...");
    assert_eq!(truncate_for_display("日志分析", 4), "日志分析");
    assert_eq!(truncate_for_display("abc", usize::MAX), "abc");
}

#[test]
fn limits_are_reached_at_the_ceiling() {
    assert!(!reached_limit(0, None));
    assert!(!reached_limit(usize::MAX, None));
    assert!(reached_limit(0, Some(0)));
    assert!(!reached_limit(4, Some(5)));
    assert!(reached_limit(5, Some(5)));
    assert!(reached_limit(6, Some(5)));
    assert!(status_killed_by_limit(5, Some(5)));
    assert!(!status_killed_by_limit(4, Some(5)));
}
