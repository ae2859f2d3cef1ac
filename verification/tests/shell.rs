use logtool::shell::{interpret_shell_line, ShellStep};
use logtool::{normalize_command_aliases, split_interactive_line, Action, RunMode};

#[test]
fn split_interactive_line_keeps_quoted_value() {
    let args = split_interactive_line(r#"analyze --since "2 hours ago" --priority 4"#)
        .expect("解析应成功");
    assert_eq!(
        args,
        vec![
            "analyze".to_string(),
            "--since".to_string(),
            "2 hours ago".to_string(),
            "--priority".to_string(),
            "4".to_string()
        ]
    );
}

#[test]
fn split_interactive_line_supports_escape() {
    let args = split_interactive_line(r#"analyze --grep disk\ error"#).expect("解析应成功");
    assert_eq!(
        args,
        vec![
            "analyze".to_string(),
            "--grep".to_string(),
            "disk error".to_string()
        ]
    );
}

#[test]
fn split_interactive_line_rejects_unclosed_quote() {
    let err = split_interactive_line(r#"analyze --since "2 hours ago"#).expect_err("应失败");
    assert!(err.contains("未闭合引号"));
}

#[test]
fn normalize_aliases_analyze_to_flag() {
    let args = normalize_command_aliases(vec![
        "analyze".to_string(),
        "--priority".to_string(),
        "4".to_string(),
    ]);
    assert_eq!(
        args,
        vec![
            "--analyze".to_string(),
            "--priority".to_string(),
            "4".to_string()
        ]
    );
}

#[test]
fn normalize_aliases_run_maps_to_default_args() {
    let args = normalize_command_aliases(vec!["run".to_string()]);
    assert!(args.is_empty());
}

fn words(line: &str) -> Vec<String> {
    split_interactive_line(line).expect("解析应成功")
}

#[test]
fn split_handles_quotes_and_escapes() {
    assert_eq!(words(""), Vec::<String>::new());
    assert_eq!(words("  \t "), Vec::<String>::new());
    assert_eq!(words("a  b\tc\u{3000}d"), vec!["a", "b", "c", "d"]);
    assert_eq!(words("'a b'\"c d\""), vec!["a bc d"]);
    assert_eq!(words("a'b'c"), vec!["abc"]);
    assert_eq!(words("\"\" x"), vec!["x"]);
    assert_eq!(words("\"it's\""), vec!["it's"]);
    assert_eq!(words("'say \"hi\"'"), vec!["say \"hi\""]);
    assert_eq!(words("\"a\\\"b\""), vec!["a\"b"]);
    assert_eq!(words("'a\\'b'"), vec!["a'b"]);
    assert_eq!(words("a\\"), vec!["a\\"]);
    assert_eq!(words("\\\\"), vec!["\\"]);
    assert_eq!(words("a\\ "), vec!["a "]);
    assert_eq!(
        split_interactive_line("'abc\\"),
        Err("命令存在未闭合引号".to_string())
    );
    assert_eq!(
        split_interactive_line("a 'b"),
        Err("命令存在未闭合引号".to_string())
    );
}

#[test]
fn aliases_only_count_in_first_place() {
    let strings = |v: &[&str]| v.iter().map(|s| s.to_string()).collect::<Vec<_>>();
    assert_eq!(normalize_command_aliases(Vec::new()), Vec::<String>::new());
    assert_eq!(
        normalize_command_aliases(strings(&["stream", "-f"])),
        strings(&["--stream", "-f"])
    );
    assert_eq!(
        normalize_command_aliases(strings(&["run", "--top", "3"])),
        strings(&["--top", "3"])
    );
    assert_eq!(
        normalize_command_aliases(strings(&["--top", "analyze"])),
        strings(&["--top", "analyze"])
    );
    assert_eq!(
        normalize_command_aliases(strings(&["doctor", "run"])),
        strings(&["doctor", "run"])
    );
}

#[test]
fn shell_lines_are_interpreted() {
    assert!(matches!(interpret_shell_line("   \n"), ShellStep::Skip));
    assert!(matches!(interpret_shell_line("''"), ShellStep::Skip));
    assert!(matches!(interpret_shell_line(" exit \n"), ShellStep::Quit));
    assert!(matches!(interpret_shell_line("quit"), ShellStep::Quit));
    assert!(matches!(interpret_shell_line("q\n"), ShellStep::Quit));
    assert!(matches!(interpret_shell_line("help\n"), ShellStep::Run(Action::Help)));
    assert!(matches!(interpret_shell_line("doctor"), ShellStep::Run(Action::Doctor)));
    match interpret_shell_line("stream --follow --grep \"Disk Error\"\n") {
        ShellStep::Run(Action::Run(config)) => {
            assert_eq!(config.mode, RunMode::Stream);
            assert!(config.follow);
            assert_eq!(config.grep_terms, vec!["disk error".to_string()]);
        }
        other => panic!("unexpected {other:?}"),
    }
    match interpret_shell_line("run\n") {
        ShellStep::Run(Action::Run(config)) => assert_eq!(config.mode, RunMode::Analyze),
        other => panic!("unexpected {other:?}"),
    }
    match interpret_shell_line("analyze --since \"2 hours ago") {
        ShellStep::Complain(e) => assert_eq!(e, "命令存在未闭合引号"),
        other => panic!("unexpected {other:?}"),
    }
    match interpret_shell_line("analyze --follow") {
        ShellStep::Complain(e) => assert_eq!(e, "--follow 只能搭配 --stream 使用"),
        other => panic!("unexpected {other:?}"),
    }
    assert!(matches!(interpret_shell_line("exit now"), ShellStep::Complain(_)));
}

fn reference_split(line: &str) -> Result<Vec<String>, String> {
    let mut args = Vec::new();
    let mut current = String::new();
    let mut quote: Option<char> = None;
    let mut chars = line.chars();

    while let Some(ch) = chars.next() {
        match quote {
            Some(delimiter) => {
                if ch == delimiter {
                    quote = None;
                    continue;
                }
                if ch == '\\' {
                    if let Some(next) = chars.next() {
                        current.push(next);
                    } else {
                        current.push(ch);
                    }
                } else {
                    current.push(ch);
                }
            }
            None => match ch {
                '"' | '\'' => {
                    quote = Some(ch);
                }
                '\\' => {
                    if let Some(next) = chars.next() {
                        current.push(next);
                    } else {
                        current.push(ch);
                    }
                }
                c if c.is_whitespace() => {
                    if !current.is_empty() {
                        args.push(std::mem::take(&mut current));
                    }
                }
                _ => current.push(ch),
            },
        }
    }

    if quote.is_some() {
        return Err("命令存在未闭合引号".to_string());
    }
    if !current.is_empty() {
        args.push(current);
    }
    Ok(args)
}

#[test]
fn splitting_agrees_on_every_short_line() {
    let alphabet = ['a', ' ', '\'', '"', '\\', '\t'];
    let mut lines = vec![String::new()];
    let mut checked = 0;
    for _ in 0..6 {
        let mut longer = Vec::new();
        for line in &lines {
            for c in alphabet {
                let mut next = line.clone();
                next.push(c);
                assert_eq!(split_interactive_line(&next), reference_split(&next), "line {next:?}");
                checked += 1;
                longer.push(next);
            }
        }
        lines = longer;
    }
    assert_eq!(checked, 6 + 36 + 216 + 1296 + 7776 + 46656);
}
