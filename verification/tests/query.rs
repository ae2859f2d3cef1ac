use logtool::query::{
    add_common_query_args, build_journalctl_command_for_analysis,
    build_journalctl_command_for_stream, check_query_tool, shell_escape,
};
use logtool::{render_command, BootFilter, Config, RunMode};

#[test]
fn analysis_query_asks_for_json_fields() {
    let args = build_journalctl_command_for_analysis(&Config::default());
    assert_eq!(
        args,
        vec![
            "--no-pager",
            "--since",
            "2 hours ago",
            "--priority=3",
            "--output=json",
            "--output-fields=PRIORITY,MESSAGE,_SYSTEMD_UNIT,_EXE,_COMM,SYSLOG_IDENTIFIER",
        ]
    );
}

#[test]
fn query_carries_every_filter_in_order() {
    let mut config = Config::default();
    config.kernel_only = true;
    config.since = Some("-1h".to_string());
    config.until = Some("now".to_string());
    config.units = vec!["a.service".to_string(), "b.service".to_string()];
    config.boot = BootFilter::Value("-1".to_string());
    config.priority = "warning".to_string();
    config.follow = true;
    config.output_json = true;
    let mut common = vec!["start".to_string()];
    add_common_query_args(&mut common, &config);
    assert_eq!(
        common,
        vec![
            "start", "--dmesg", "--since", "-1h", "--until", "now", "--unit", "a.service",
            "--unit", "b.service", "--boot", "-1", "--priority=warning",
        ]
    );
    let analysis = build_journalctl_command_for_analysis(&config);
    assert_eq!(analysis[0], "--no-pager");
    assert_eq!(&analysis[1..13], &common[1..]);
    assert_eq!(analysis.len(), 15);
}

#[test]
fn stream_query_follows_and_picks_output() {
    let mut config = Config::default();
    config.mode = RunMode::Stream;
    config.since = None;
    config.boot = BootFilter::Current;
    assert_eq!(
        build_journalctl_command_for_stream(&config),
        vec!["--no-pager", "--boot", "--priority=3", "--output=short-iso"]
    );
    config.follow = true;
    config.output_json = true;
    config.boot = BootFilter::Disabled;
    assert_eq!(
        build_journalctl_command_for_stream(&config),
        vec!["--no-pager", "--follow", "--priority=3", "--output=json"]
    );
}

#[test]
fn words_are_escaped_for_the_shell() {
    assert_eq!(shell_escape(""), "''");
    assert_eq!(shell_escape("abc-DEF_0.9/x:y+z"), "abc-DEF_0.9/x:y+z");
    assert_eq!(shell_escape("2 hours ago"), "'2 hours ago'");
    assert_eq!(shell_escape("it's"), "'it'\"'\"'s'");
    assert_eq!(shell_escape("'"), "''\"'\"''");
    assert_eq!(shell_escape("a=b"), "'a=b'");
    assert_eq!(shell_escape("日志"), "'日志'");
    assert_eq!(shell_escape("$HOME"), "'$HOME'");
}

#[test]
fn commands_are_rendered_for_the_operator() {
    let args = build_journalctl_command_for_analysis(&Config::default());
    assert_eq!(
        render_command("journalctl", &args),
        "journalctl --no-pager --since '2 hours ago' '--priority=3' '--output=json' \
         '--output-fields=PRIORITY,MESSAGE,_SYSTEMD_UNIT,_EXE,_COMM,SYSLOG_IDENTIFIER'"
    );
    assert_eq!(render_command("tool", &[]), "tool");
    assert_eq!(render_command("tool", &["".to_string()]), "tool ''");
}

#[test]
fn query_tool_probe_is_judged() {
    assert_eq!(check_query_tool(Ok(true)), Ok(()));
    assert_eq!(check_query_tool(Ok(false)), Err("journalctl 存在但不可用".to_string()));
    assert_eq!(
        check_query_tool(Err("No such file or directory (os error 2)".to_string())),
        Err("找不到 journalctl：No such file or directory (os error 2)".to_string())
    );
}

fn reference_escape(value: &str) -> String {
    if value.is_empty() {
        return "''".to_string();
    }
    if value
        .chars()
        .all(|c| c.is_ascii_alphanumeric() || matches!(c, '_' | '-' | '.' | '/' | ':' | '+'))
    {
        return value.to_string();
    }
    format!("'{}'", value.replace('\'', "'\"'\"'"))
}

#[test]
fn escaping_agrees_on_every_character() {
    for code in 0u32..0x300 {
        let Some(c) = char::from_u32(code) else { continue };
        for text in [c.to_string(), format!("a{c}"), format!("{c}'{c}"), format!("'{c}'")] {
            assert_eq!(shell_escape(&text), reference_escape(&text), "word {text:?}");
        }
    }
}
