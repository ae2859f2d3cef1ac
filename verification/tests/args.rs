use logtool::{parse_args, validate_config, Action, BootFilter, Config, RunMode, DEFAULT_SINCE};

fn parse(input: &[&str]) -> Result<Action, String> {
    let args = input.iter().map(|s| s.to_string()).collect::<Vec<_>>();
    parse_args(&args)
}

#[test]
fn default_mode_is_analyze() {
    let action = parse(&[]).expect("解析应成功");
    let Action::Run(config) = action else {
        panic!("应为 Action::Run");
    };

    assert_eq!(config.mode, RunMode::Analyze);
    assert_eq!(config.boot, BootFilter::Disabled);
    assert_eq!(config.since, Some(DEFAULT_SINCE.to_string()));
}

#[test]
fn stream_mode_allows_follow() {
    let action = parse(&["--stream", "--follow"]).expect("解析应成功");
    let Action::Run(config) = action else {
        panic!("应为 Action::Run");
    };
    assert_eq!(config.mode, RunMode::Stream);
    assert!(config.follow);
}

#[test]
fn help_subcommand_works() {
    let action = parse(&["help"]).expect("解析应成功");
    assert_eq!(action, Action::Help);
}

#[test]
fn version_flag_returns_version_action() {
    let action = parse(&["--version"]).expect("解析应成功");
    assert_eq!(action, Action::Version);
}

#[test]
fn doctor_command_returns_doctor_action() {
    let action = parse(&["doctor"]).expect("解析应成功");
    assert_eq!(action, Action::Doctor);
}

#[test]
fn list_boots_flag_returns_action() {
    let action = parse(&["--list-boots"]).expect("解析应成功");
    assert_eq!(action, Action::ListBoots);
}

#[test]
fn doctor_rejects_mixed_arguments() {
    let err = parse(&["--doctor", "--stream"]).expect_err("解析应失败");
    assert!(err.contains("--doctor"));
}

#[test]
fn version_rejects_mixed_arguments() {
    let err = parse(&["--version", "--stream"]).expect_err("解析应失败");
    assert!(err.contains("--version"));
}

#[test]
fn all_boots_disables_boot_filter() {
    let action = parse(&["--all-boots"]).expect("解析应成功");
    let Action::Run(config) = action else {
        panic!("应为 Action::Run");
    };
    assert_eq!(config.boot, BootFilter::Disabled);
}

#[test]
fn boot_accepts_negative_offset() {
    let action = parse(&["--boot", "-1"]).expect("解析应成功");
    let Action::Run(config) = action else {
        panic!("应为 Action::Run");
    };
    assert_eq!(config.boot, BootFilter::Value("-1".to_string()));
}

#[test]
fn analyze_mode_rejects_follow() {
    let err = parse(&["--follow"]).expect_err("解析应失败");
    assert!(err.contains("--follow"));
}

#[test]
fn top_must_be_positive() {
    let err = parse(&["--top", "0"]).expect_err("解析应失败");
    assert!(err.contains("--top"));
}

#[test]
fn grep_terms_are_lowercased() {
    let action = parse(&["--grep", "FaIled"]).expect("解析应成功");
    let Action::Run(config) = action else {
        panic!("应为 Action::Run");
    };
    assert_eq!(config.grep_terms, vec!["failed".to_string()]);
}

#[test]
fn default_config_has_documented_values() {
    let config = Config::default();
    assert_eq!(config.mode, RunMode::Analyze);
    assert_eq!(config.since.as_deref(), Some("2 hours ago"));
    assert_eq!(config.until, None);
    assert!(config.units.is_empty());
    assert!(config.grep_terms.is_empty());
    assert_eq!(config.boot, BootFilter::Disabled);
    assert!(!config.follow);
    assert!(!config.kernel_only);
    assert!(!config.output_json);
    assert_eq!(config.max_lines, Some(1500));
    assert_eq!(config.priority, "3");
    assert!(!config.show_command);
    assert_eq!(config.top, 10);
}

#[test]
fn validate_rejects_exactly_stream_only_options_under_analyze() {
    for mode in [RunMode::Analyze, RunMode::Stream] {
        for follow in [false, true] {
            for output_json in [false, true] {
                let mut config = Config::default();
                config.mode = mode;
                config.follow = follow;
                config.output_json = output_json;
                let rejected = validate_config(&config).is_err();
                assert_eq!(rejected, mode == RunMode::Analyze && (follow || output_json));
            }
        }
    }
}

#[test]
fn validate_names_the_offending_option() {
    let mut config = Config::default();
    config.follow = true;
    config.output_json = true;
    assert_eq!(validate_config(&config), Err("--follow 只能搭配 --stream 使用".to_string()));
    config.follow = false;
    assert_eq!(validate_config(&config), Err("--json 只能搭配 --stream 使用".to_string()));
    config.mode = RunMode::Stream;
    assert_eq!(validate_config(&config), Ok(()));
}

#[test]
fn json_under_analyze_is_rejected_by_parser() {
    let err = parse(&["--json"]).expect_err("解析应失败");
    assert_eq!(err, "--json 只能搭配 --stream 使用");
}

#[test]
fn help_wins_over_later_arguments() {
    assert_eq!(parse(&["--stream", "-h", "--bogus"]), Ok(Action::Help));
}

#[test]
fn error_before_help_is_reported() {
    let err = parse(&["--bogus", "--help"]).expect_err("解析应失败");
    assert!(err.starts_with("未知选项：--bogus\n\n"));
    assert!(err.ends_with(logtool::help_text()));
}

#[test]
fn standalone_commands_must_stand_alone() {
    assert_eq!(parse(&["boots"]), Ok(Action::ListBoots));
    assert_eq!(parse(&["-V"]), Ok(Action::Version));
    assert_eq!(
        parse(&["--stream", "boots"]),
        Err("boots 不能与其他参数同时使用".to_string())
    );
    assert_eq!(
        parse(&["--list-boots", "--list-boots"]),
        Err("--list-boots 不能与其他参数同时使用".to_string())
    );
}

#[test]
fn settings_take_the_next_argument() {
    let action = parse(&[
        "--stream", "-f", "-k", "--json", "--show-command", "--since", "yesterday", "--until",
        "now", "-u", "ssh", "--unit", "cron", "-g", "Disk", "-p", "ERR", "-n", "25", "--top", "3",
    ])
    .expect("解析应成功");
    let Action::Run(config) = action else {
        panic!("应为 Action::Run");
    };
    assert_eq!(config.mode, RunMode::Stream);
    assert!(config.follow && config.kernel_only && config.output_json && config.show_command);
    assert_eq!(config.since.as_deref(), Some("yesterday"));
    assert_eq!(config.until.as_deref(), Some("now"));
    assert_eq!(config.units, vec!["ssh".to_string(), "cron".to_string()]);
    assert_eq!(config.grep_terms, vec!["disk".to_string()]);
    assert_eq!(config.priority, "err");
    assert_eq!(config.max_lines, Some(25));
    assert_eq!(config.top, 3);
}

#[test]
fn settings_accept_inline_values() {
    let action = parse(&[
        "--since=1 hour ago", "--until=", "--unit=a.service", "--grep=OOM", "--grep=",
        "--priority=Warning", "--max-lines=7", "--top=2", "--boot=abc",
    ])
    .expect("解析应成功");
    let Action::Run(config) = action else {
        panic!("应为 Action::Run");
    };
    assert_eq!(config.since.as_deref(), Some("1 hour ago"));
    assert_eq!(config.until.as_deref(), Some(""));
    assert_eq!(config.units, vec!["a.service".to_string()]);
    assert_eq!(config.grep_terms, vec!["oom".to_string()]);
    assert_eq!(config.priority, "warning");
    assert_eq!(config.max_lines, Some(7));
    assert_eq!(config.top, 2);
    assert_eq!(config.boot, BootFilter::Value("abc".to_string()));
}

#[test]
fn no_default_since_clears_the_window() {
    let Action::Run(config) = parse(&["--no-default-since"]).expect("解析应成功") else {
        panic!("应为 Action::Run");
    };
    assert_eq!(config.since, None);
}

#[test]
fn missing_value_is_reported_with_long_flag() {
    assert_eq!(parse(&["-u"]), Err("缺少 --unit 的参数值".to_string()));
    assert_eq!(parse(&["--stream", "--since"]), Err("缺少 --since 的参数值".to_string()));
    assert_eq!(parse(&["-n"]), Err("缺少 --max-lines 的参数值".to_string()));
}

#[test]
fn numbers_must_be_positive_integers() {
    assert_eq!(
        parse(&["--top", "abc"]),
        Err("--top 需要一个正整数，实际输入：abc".to_string())
    );
    assert_eq!(parse(&["--top=0"]), Err("--top 必须大于 0".to_string()));
    assert_eq!(
        parse(&["-n", "-3"]),
        Err("--max-lines 需要一个正整数，实际输入：-3".to_string())
    );
    assert_eq!(
        parse(&["--max-lines="]),
        Err("--max-lines 需要一个正整数，实际输入：".to_string())
    );
    assert_eq!(
        parse(&["--top", "99999999999999999999999999"]),
        Err("--top 需要一个正整数，实际输入：99999999999999999999999999".to_string())
    );
    let Action::Run(config) = parse(&["--top", "+007"]).expect("解析应成功") else {
        panic!("应为 Action::Run");
    };
    assert_eq!(config.top, 7);
}

#[test]
fn number_parsing_agrees_with_std() {
    for text in ["1", "+1", "0", "+0", "00012", "+", "", "-", "-1", "++1", "1 ", " 1", "1_0", "１",
        "18446744073709551615", "18446744073709551616", "4294967295", "4294967296"] {
        let expected = match text.parse::<usize>() {
            Ok(0) => Err(()),
            Ok(n) => Ok(n),
            Err(_) => Err(()),
        };
        let got = match parse(&["--top", text]) {
            Ok(Action::Run(config)) => Ok(config.top),
            _ => Err(()),
        };
        assert_eq!(got, expected, "input {text:?}");
    }
}

#[test]
fn empty_priority_is_rejected() {
    assert_eq!(parse(&["--priority="]), Err("优先级不能为空".to_string()));
    assert_eq!(parse(&["-p", ""]), Err("优先级不能为空".to_string()));
}

#[test]
fn boot_takes_a_value_only_when_it_looks_like_one() {
    let boot_of = |input: &[&str]| match parse(input) {
        Ok(Action::Run(config)) => config.boot,
        other => panic!("unexpected {other:?}"),
    };
    assert_eq!(boot_of(&["--boot"]), BootFilter::Current);
    assert_eq!(boot_of(&["-b", "--stream"]), BootFilter::Current);
    assert_eq!(boot_of(&["-b", "abc123"]), BootFilter::Value("abc123".to_string()));
    assert_eq!(boot_of(&["-b", "-2"]), BootFilter::Value("-2".to_string()));
    assert_eq!(boot_of(&["-b", ""]), BootFilter::Value("".to_string()));
    assert_eq!(boot_of(&["--boot="]), BootFilter::Current);
    assert_eq!(boot_of(&["--boot", "x", "--all-boots"]), BootFilter::Disabled);
    assert_eq!(parse(&["-b", "-"]), Err(format!("未知选项：-\n\n{}", logtool::help_text())));
    assert_eq!(
        parse(&["-b", "--2"]),
        Err(format!("未知选项：--2\n\n{}", logtool::help_text()))
    );
}

#[test]
fn later_options_override_earlier_ones() {
    let Action::Run(config) = parse(&["--stream", "--analyze", "--top", "4", "--top=9"])
        .expect("解析应成功")
    else {
        panic!("应为 Action::Run");
    };
    assert_eq!(config.mode, RunMode::Analyze);
    assert_eq!(config.top, 9);
}

#[test]
fn help_text_names_the_tool() {
    assert!(logtool::help_text().starts_with("logtool — Ubuntu 系统异常日志诊断工具\n"));
    assert!(logtool::help_text().ends_with("  logtool --stream --follow --unit ssh\n"));
    assert!(logtool::help_text().contains("开始时间（默认：\"2 hours ago\"）"));
}

fn reference_next_value(args: &[String], index: &mut usize, flag: &str) -> Result<String, String> {
    if *index + 1 >= args.len() {
        return Err(format!("缺少 {flag} 的参数值"));
    }
    *index += 1;
    Ok(args[*index].clone())
}

fn reference_positive(value: &str, flag: &str) -> Result<usize, String> {
    let parsed = value
        .parse::<usize>()
        .map_err(|_| format!("{flag} 需要一个正整数，实际输入：{value}"))?;
    if parsed == 0 {
        return Err(format!("{flag} 必须大于 0"));
    }
    Ok(parsed)
}

fn reference_priority(value: String) -> Result<String, String> {
    if value.is_empty() {
        return Err("优先级不能为空".to_string());
    }
    Ok(value.to_ascii_lowercase())
}

fn reference_boot_value(args: &[String], index: usize) -> bool {
    if index + 1 >= args.len() {
        return false;
    }
    let next = &args[index + 1];
    if !next.starts_with('-') {
        return true;
    }
    let digits = next.strip_prefix('-').unwrap_or(next);
    !digits.is_empty() && digits.chars().all(|ch| ch.is_ascii_digit())
}

fn reference_alone(args: &[String], arg: &str, action: Action) -> Result<Action, String> {
    if args.len() != 1 {
        return Err(format!("{arg} 不能与其他参数同时使用"));
    }
    Ok(action)
}

fn reference_parse(args: &[String]) -> Result<Action, String> {
    let mut config = Config::default();
    let mut i = 0usize;

    while i < args.len() {
        let arg = &args[i];
        match arg.as_str() {
            "--help" | "-h" | "help" => return Ok(Action::Help),
            "--version" | "-V" | "version" => return reference_alone(args, arg, Action::Version),
            "--doctor" | "doctor" => return reference_alone(args, arg, Action::Doctor),
            "--list-boots" | "boots" => return reference_alone(args, arg, Action::ListBoots),
            "--analyze" => config.mode = RunMode::Analyze,
            "--stream" => config.mode = RunMode::Stream,
            "--all-boots" => config.boot = BootFilter::Disabled,
            "--follow" | "-f" => config.follow = true,
            "--kernel" | "-k" => config.kernel_only = true,
            "--json" => config.output_json = true,
            "--show-command" => config.show_command = true,
            "--no-default-since" => config.since = None,
            "--since" => config.since = Some(reference_next_value(args, &mut i, "--since")?),
            "--until" => config.until = Some(reference_next_value(args, &mut i, "--until")?),
            "--unit" | "-u" => config.units.push(reference_next_value(args, &mut i, "--unit")?),
            "--grep" | "-g" => {
                let value = reference_next_value(args, &mut i, "--grep")?;
                if !value.is_empty() {
                    config.grep_terms.push(value.to_ascii_lowercase());
                }
            }
            "--priority" | "-p" => {
                let value = reference_next_value(args, &mut i, "--priority")?;
                config.priority = reference_priority(value)?;
            }
            "--max-lines" | "-n" => {
                let value = reference_next_value(args, &mut i, "--max-lines")?;
                config.max_lines = Some(reference_positive(&value, "--max-lines")?);
            }
            "--top" => {
                let value = reference_next_value(args, &mut i, "--top")?;
                config.top = reference_positive(&value, "--top")?;
            }
            "--boot" | "-b" => {
                if reference_boot_value(args, i) {
                    i += 1;
                    config.boot = BootFilter::Value(args[i].clone());
                } else {
                    config.boot = BootFilter::Current;
                }
            }
            _ => {
                if let Some(value) = arg.strip_prefix("--since=") {
                    config.since = Some(value.to_string());
                } else if let Some(value) = arg.strip_prefix("--until=") {
                    config.until = Some(value.to_string());
                } else if let Some(value) = arg.strip_prefix("--unit=") {
                    config.units.push(value.to_string());
                } else if let Some(value) = arg.strip_prefix("--grep=") {
                    if !value.is_empty() {
                        config.grep_terms.push(value.to_ascii_lowercase());
                    }
                } else if let Some(value) = arg.strip_prefix("--priority=") {
                    config.priority = reference_priority(value.to_string())?;
                } else if let Some(value) = arg.strip_prefix("--max-lines=") {
                    config.max_lines = Some(reference_positive(value, "--max-lines")?);
                } else if let Some(value) = arg.strip_prefix("--top=") {
                    config.top = reference_positive(value, "--top")?;
                } else if let Some(value) = arg.strip_prefix("--boot=") {
                    if value.is_empty() {
                        config.boot = BootFilter::Current;
                    } else {
                        config.boot = BootFilter::Value(value.to_string());
                    }
                } else {
                    return Err(format!("未知选项：{arg}\n\n{}", logtool::help_text()));
                }
            }
        }
        i += 1;
    }

    validate_config(&config)?;
    Ok(Action::Run(config))
}

#[test]
fn parsing_agrees_on_every_short_command_line() {
    let pool = [
        "--help", "version", "--doctor", "boots", "--analyze", "--stream", "--all-boots", "-f",
        "--kernel", "--json", "--show-command", "--no-default-since", "--since", "--until", "-u",
        "-g", "-p", "--max-lines", "--top", "--boot", "-b", "--since=a", "--until=", "--unit=u",
        "--grep=G", "--grep=", "--priority=P", "--priority=", "--max-lines=3", "--top=0",
        "--top=x", "--boot=", "--boot=7", "-1", "-", "-x", "12", "+4", "0", "", "word", "--Since",
        "--since==",
    ];
    let mut checked = 0;
    for a in pool {
        let one = vec![a.to_string()];
        assert_eq!(parse_args(&one), reference_parse(&one), "{one:?}");
        for b in pool {
            let two = vec![a.to_string(), b.to_string()];
            assert_eq!(parse_args(&two), reference_parse(&two), "{two:?}");
            for c in pool {
                let three = vec![a.to_string(), b.to_string(), c.to_string()];
                assert_eq!(parse_args(&three), reference_parse(&three), "{three:?}");
                checked += 1;
            }
        }
    }
    assert_eq!(checked, pool.len() * pool.len() * pool.len());
}
