use logtool::daemon::daemon_flags;
use logtool::protocol::{
    admission, answer_failure, dispatch_request, error_reply, reject_undecodable, request_of_line, Dispatch,
    ErrorReply, MAX_ACTIVE_CLIENTS,
};
use logtool::{daemon_error, daemon_help_text, stream_error_line, Config, RunMode};

#[test]
fn busy_daemon_turns_connections_away() {
    assert_eq!(MAX_ACTIVE_CLIENTS, 64);
    for active in [0usize, 1, 63] {
        assert!(admission(active).is_none());
    }
    for active in [64usize, 65, usize::MAX] {
        let busy = admission(active).expect("应拒绝");
        assert_eq!(busy.error, "守护进程繁忙：当前并发请求已达到上限 64");
    }
}

#[test]
fn error_builders_fill_the_wire_shapes() {
    let line = stream_error_line("bad".to_string());
    assert_eq!(line.line, "");
    assert!(line.done);
    assert_eq!(line.error.as_deref(), Some("bad"));
    assert_eq!(daemon_error("bad request".to_string()).error, "bad request");
}

#[test]
fn error_shape_follows_the_mode() {
    assert!(matches!(error_reply(None, "m"), ErrorReply::Plain(e) if e.error == "m"));
    assert!(matches!(
        error_reply(Some(RunMode::Analyze), "m"),
        ErrorReply::Plain(e) if e.error == "m"
    ));
    match error_reply(Some(RunMode::Stream), "m") {
        ErrorReply::Stream(line) => {
            assert!(line.done);
            assert_eq!(line.line, "");
            assert_eq!(line.error.as_deref(), Some("m"));
        }
        other => panic!("unexpected {other:?}"),
    }
}

#[test]
fn request_lines_are_trimmed() {
    assert_eq!(request_of_line(""), None);
    assert_eq!(request_of_line(" \r\n"), None);
    assert_eq!(request_of_line(" {\"a\":1} \n").as_deref(), Some("{\"a\":1}"));
}

#[test]
fn requests_are_dispatched_by_mode() {
    let mut config = Config::default();
    assert!(matches!(dispatch_request(&config), Dispatch::Analyze));
    config.mode = RunMode::Stream;
    config.follow = true;
    assert!(matches!(dispatch_request(&config), Dispatch::Stream));
    config.mode = RunMode::Analyze;
    match dispatch_request(&config) {
        Dispatch::Reject(ErrorReply::Plain(e), message) => {
            assert_eq!(e.error, "--follow 只能搭配 --stream 使用");
            assert_eq!(message, e.error);
        }
        other => panic!("unexpected {other:?}"),
    }
    match reject_undecodable("expected value at line 1 column 1") {
        Dispatch::Reject(ErrorReply::Plain(e), message) => {
            assert_eq!(e.error, "解析请求 JSON 失败：expected value at line 1 column 1");
            assert_eq!(message, e.error);
        }
        other => panic!("unexpected {other:?}"),
    }
}

#[test]
fn daemon_arguments_are_flags() {
    let strings = |v: &[&str]| v.iter().map(|s| s.to_string()).collect::<Vec<_>>();
    let flags = daemon_flags(&strings(&[]));
    assert!(!flags.foreground && !flags.show_help);
    let flags = daemon_flags(&strings(&["x", "-F"]));
    assert!(flags.foreground && !flags.show_help);
    let flags = daemon_flags(&strings(&["--help", "--foreground"]));
    assert!(flags.foreground && flags.show_help);
    let flags = daemon_flags(&strings(&["-h"]));
    assert!(!flags.foreground && flags.show_help);
    let flags = daemon_flags(&strings(&["-f", "--Help", "-hh"]));
    assert!(!flags.foreground && !flags.show_help);
    assert!(daemon_help_text().starts_with("logtool-daemon — 系统日志分析守护进程\n"));
    assert!(daemon_help_text().ends_with("    sudo systemctl enable logtool\n"));
}

#[test]
fn unreadable_answers_are_worded_by_mode() {
    assert_eq!(
        answer_failure(Some(daemon_error("busy".to_string())), RunMode::Analyze),
        "守护进程返回错误：busy"
    );
    assert_eq!(
        answer_failure(Some(daemon_error("busy".to_string())), RunMode::Stream),
        "守护进程返回错误：busy"
    );
    assert_eq!(answer_failure(None, RunMode::Analyze), "解析响应 JSON 失败：响应格式不受支持");
    assert_eq!(answer_failure(None, RunMode::Stream), "解析流消息失败：响应格式不受支持");
}
