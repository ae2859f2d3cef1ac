use logtool::{AnalyzeRun, Config, JournalEvent, SourceKind};

fn config(terms: &[&str], max_lines: Option<usize>, top: usize) -> Config {
    let mut config = Config::default();
    config.grep_terms = terms.iter().map(|s| s.to_string()).collect();
    config.max_lines = max_lines;
    config.top = top;
    config
}

fn line(message: &str, priority: u8, unit: &str) -> String {
    format!("{{\"MESSAGE\":\"{message}\",\"PRIORITY\":\"{priority}\",\"_SYSTEMD_UNIT\":\"{unit}\"}}")
}

#[test]
fn run_counts_lines_and_ranks_sources() {
    let mut run = AnalyzeRun::new(&config(&[], None, 5));
    let lines = [
        line("a", 3, "x.service"),
        "   ".to_string(),
        "not json".to_string(),
        line("b", 2, "y.service"),
        "[1]".to_string(),
        line("c", 5, "y.service"),
        String::new(),
        line("d", 4, "x.service"),
        line("e", 6, "y.service"),
    ];
    for l in &lines {
        assert!(run.accept_line(l));
    }
    let metrics = run.metrics();
    assert_eq!(metrics.lines_read, 7);
    assert_eq!(metrics.parsed_ok, 5);
    assert_eq!(metrics.parse_errors, 2);
    assert_eq!(metrics.matched, 5);
    assert!(!run.must_terminate(false));
    assert!(run.must_terminate(true));
    let response = run.conclude(None, true, "exit status: 0").expect("应成功");
    assert_eq!(response.top, 5);
    assert_eq!(response.metrics, metrics);
    let rows: Vec<(&str, u64, u8, &str)> = response
        .suspects
        .iter()
        .map(|s| (s.source.as_str(), s.count, s.worst_priority, s.sample_message.as_str()))
        .collect();
    assert_eq!(rows, vec![("y.service", 3, 2, "e"), ("x.service", 2, 3, "d")]);
    assert!(response.suspects.iter().all(|s| s.kind == SourceKind::Unit && s.package.is_none()));
}

#[test]
fn run_counts_only_matching_records() {
    let mut run = AnalyzeRun::new(&config(&["disk", "error"], None, 10));
    assert!(run.accept_line(&line("Disk ERROR on sda", 3, "a.service")));
    assert!(run.accept_line(&line("disk ok", 3, "a.service")));
    assert!(run.accept_line(&line("error", 3, "disk.service")));
    assert!(run.accept_line(&line("nothing", 3, "b.service")));
    let metrics = run.metrics();
    assert_eq!((metrics.lines_read, metrics.parsed_ok, metrics.matched), (4, 4, 2));
    let response = run.conclude(None, true, "").expect("应成功");
    let names: Vec<&str> = response.suspects.iter().map(|s| s.source.as_str()).collect();
    assert_eq!(names, vec!["a.service", "disk.service"]);
}

#[test]
fn ceiling_stops_the_run_after_exactly_n_matches() {
    let n = 3;
    let mut run = AnalyzeRun::new(&config(&["hit"], Some(n), 10));
    let mut taken = 0;
    let mut matched_lines = 0;
    loop {
        let text = if taken % 2 == 0 { "miss" } else { "hit" };
        let more = run.accept_line(&line(text, 3, "u.service"));
        taken += 1;
        if text == "hit" {
            matched_lines += 1;
        }
        assert_eq!(more, matched_lines < n);
        if !more {
            break;
        }
        assert!(taken < 100);
    }
    assert_eq!(taken, 6);
    assert_eq!(run.metrics().matched, n);
    assert!(run.must_terminate(false));
    let response = run.conclude(None, false, "signal: 9 (SIGKILL)").expect("达到上限不应报错");
    assert_eq!(response.metrics.matched, n);
    assert_eq!(response.suspects.len(), 1);
    assert_eq!(response.suspects[0].count, 3);
}

#[test]
fn ceiling_of_one_stops_at_the_first_match() {
    let mut run = AnalyzeRun::new(&config(&[], Some(1), 10));
    assert!(run.accept_line("garbage"));
    assert!(!run.accept_line(&line("a", 3, "u")));
    assert_eq!(run.metrics().matched, 1);
}

#[test]
fn bad_exit_without_ceiling_is_an_error() {
    let mut run = AnalyzeRun::new(&config(&[], Some(5), 10));
    assert!(run.accept_line(&line("a", 3, "u")));
    assert_eq!(
        run.conclude(None, false, "exit status: 1").unwrap_err(),
        "journalctl 退出状态异常：exit status: 1"
    );
    let run = AnalyzeRun::new(&config(&[], None, 10));
    assert!(run.conclude(None, false, "exit status: 1").is_err());
    let run = AnalyzeRun::new(&config(&[], None, 10));
    let response = run.conclude(None, true, "exit status: 0").expect("应成功");
    assert!(response.suspects.is_empty());
    assert_eq!(response.metrics.lines_read, 0);
}

#[test]
fn read_error_wins_over_everything() {
    let mut run = AnalyzeRun::new(&config(&[], Some(1), 10));
    assert!(!run.accept_line(&line("a", 3, "u")));
    assert_eq!(
        run.conclude(Some("stream did not contain valid UTF-8".to_string()), true, "").unwrap_err(),
        "stream did not contain valid UTF-8"
    );
}

#[test]
fn parsed_records_can_be_handed_in_directly() {
    let mut run = AnalyzeRun::new(&config(&["x"], Some(2), 1));
    let event = JournalEvent {
        message: "X marks".to_string(),
        priority: Some(1),
        unit: None,
        exe: Some("/bin/x".to_string()),
        comm: None,
        identifier: None,
    };
    assert!(run.accept_parsed(Ok(event.clone())));
    assert!(run.accept_parsed(Err("bad".to_string())));
    assert!(!run.accept_parsed(Ok(event)));
    let metrics = run.metrics();
    assert_eq!(
        (metrics.lines_read, metrics.parsed_ok, metrics.parse_errors, metrics.matched),
        (3, 2, 1, 2)
    );
    let response = run.conclude(None, false, "killed").expect("应成功");
    assert_eq!(response.suspects[0].kind, SourceKind::Executable);
    assert_eq!(response.suspects[0].count, 2);
    assert_eq!(response.suspects[0].sample_exe.as_deref(), Some("/bin/x"));
}

#[test]
fn analysis_ignores_the_order_of_the_lines() {
    let lines = [
        line("a", 3, "x.service"),
        "{\"MESSAGE\":\"i\",\"PRIORITY\":\"3\",\"SYSLOG_IDENTIFIER\":\"foo\"}".to_string(),
        "not json".to_string(),
        line("u", 3, "foo"),
        line("b", 1, "x.service"),
        String::new(),
        line("c", 5, "y.service"),
        "{\"MESSAGE\":\"j\",\"PRIORITY\":\"9\",\"_EXE\":\"foo\"}".to_string(),
    ];
    let answer = |order: &[usize]| {
        let mut run = AnalyzeRun::new(&config(&[], Some(100), 5));
        for &i in order {
            assert!(run.accept_line(&lines[i]));
        }
        let response = run.conclude(None, true, "exit status: 0").expect("应成功");
        let rows: Vec<(SourceKind, String, u64, u8)> = response
            .suspects
            .iter()
            .map(|s| (s.kind, s.source.clone(), s.count, s.worst_priority))
            .collect();
        (response.metrics, rows)
    };
    let expected_rows = vec![
        (SourceKind::Unit, "x.service".to_string(), 2, 1),
        (SourceKind::Unit, "foo".to_string(), 1, 3),
        (SourceKind::Identifier, "foo".to_string(), 1, 3),
        (SourceKind::Unit, "y.service".to_string(), 1, 5),
        (SourceKind::Executable, "foo".to_string(), 1, 7),
    ];
    let orders: [[usize; 8]; 5] = [
        [0, 1, 2, 3, 4, 5, 6, 7],
        [7, 6, 5, 4, 3, 2, 1, 0],
        [3, 1, 7, 0, 4, 6, 2, 5],
        [1, 3, 4, 0, 5, 7, 6, 2],
        [6, 4, 2, 0, 7, 5, 3, 1],
    ];
    for order in orders {
        let (metrics, rows) = answer(&order);
        assert_eq!(rows, expected_rows);
        assert_eq!(
            (metrics.lines_read, metrics.parsed_ok, metrics.matched, metrics.parse_errors),
            (7, 6, 6, 1)
        );
    }
}

#[test]
fn ceiling_counts_exactly_n_records_among_other_lines() {
    let n = 3;
    let mut run = AnalyzeRun::new(&config(&[], Some(n), 10));
    let lines = [
        "garbage".to_string(),
        line("a", 3, "x"),
        String::new(),
        line("b", 3, "y"),
        "[]".to_string(),
        line("c", 3, "x"),
        line("d", 3, "z"),
    ];
    let mut taken = 0;
    for l in &lines {
        taken += 1;
        if !run.accept_line(l) {
            break;
        }
    }
    assert_eq!(taken, 6);
    let response = run.conclude(None, false, "signal: 9").expect("达到上限不应报错");
    assert_eq!(response.metrics.matched, n);
    assert_eq!(response.suspects.iter().map(|s| s.count).sum::<u64>(), n as u64);
    assert_eq!(response.metrics.lines_read, 5);
    assert_eq!(response.metrics.parse_errors, 2);
}
