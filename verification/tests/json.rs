use logtool::json::{
    decode_byte_array, event_from_document, field_as_string, normalize_optional, value_to_string,
    JsonDocument, JsonField, JsonMember,
};
use logtool::{classify_source, parse_json_event, JournalEvent, SourceKind};

#[test]
fn parses_json_event() {
    let line = r#"{"MESSAGE":"segfault at 0 ip ...","PRIORITY":"3","_SYSTEMD_UNIT":"foo.service","_EXE":"/usr/bin/foo","_COMM":"foo","SYSLOG_IDENTIFIER":"foo"}"#;
    let event = parse_json_event(line).expect("JSON 应解析成功");

    assert_eq!(event.message, "segfault at 0 ip ...");
    assert_eq!(event.priority, Some(3));
    assert_eq!(event.unit.as_deref(), Some("foo.service"));
    assert_eq!(event.exe.as_deref(), Some("/usr/bin/foo"));
    assert_eq!(event.identifier.as_deref(), Some("foo"));
}

#[test]
fn classify_prefers_kernel_identifier() {
    let event = JournalEvent {
        message: String::new(),
        priority: Some(3),
        unit: Some("x.service".to_string()),
        exe: Some("/usr/bin/x".to_string()),
        comm: Some("x".to_string()),
        identifier: Some("kernel".to_string()),
    };

    let (kind, source) = classify_source(&event);
    assert_eq!(kind, SourceKind::Kernel);
    assert_eq!(source, "kernel");
}

fn event(unit: Option<&str>, exe: Option<&str>, identifier: Option<&str>, comm: Option<&str>) -> JournalEvent {
    JournalEvent {
        message: "m".to_string(),
        priority: None,
        unit: unit.map(str::to_string),
        exe: exe.map(str::to_string),
        comm: comm.map(str::to_string),
        identifier: identifier.map(str::to_string),
    }
}

#[test]
fn classification_follows_the_precedence() {
    let kind_and_name = |e: &JournalEvent| classify_source(e);
    assert_eq!(
        kind_and_name(&event(Some("u.service"), Some("/bin/e"), Some("id"), Some("c"))),
        (SourceKind::Unit, "u.service".to_string())
    );
    assert_eq!(
        kind_and_name(&event(None, Some("/bin/e"), Some("id"), Some("c"))),
        (SourceKind::Executable, "/bin/e".to_string())
    );
    assert_eq!(
        kind_and_name(&event(None, None, Some("id"), Some("c"))),
        (SourceKind::Identifier, "id".to_string())
    );
    assert_eq!(
        kind_and_name(&event(None, None, None, Some("c"))),
        (SourceKind::Comm, "c".to_string())
    );
    assert_eq!(
        kind_and_name(&event(None, None, None, None)),
        (SourceKind::Unknown, "unknown".to_string())
    );
    assert_eq!(
        kind_and_name(&event(None, None, Some("kernel"), None)),
        (SourceKind::Kernel, "kernel".to_string())
    );
    assert_eq!(
        kind_and_name(&event(Some("u.service"), None, Some("Kernel"), None)),
        (SourceKind::Unit, "u.service".to_string())
    );
    assert_eq!(
        kind_and_name(&event(Some("kernel"), None, None, Some("kernel"))),
        (SourceKind::Unit, "kernel".to_string())
    );
}

#[test]
fn example_event_classifies_as_unit() {
    let event =
        parse_json_event(r#"{"MESSAGE":"oom","PRIORITY":"2","_SYSTEMD_UNIT":"foo.service"}"#)
            .expect("JSON 应解析成功");
    assert_eq!(event.message, "oom");
    assert_eq!(event.priority, Some(2));
    assert_eq!(event.exe, None);
    assert_eq!(event.comm, None);
    assert_eq!(event.identifier, None);
    assert_eq!(classify_source(&event), (SourceKind::Unit, "foo.service".to_string()));
}

#[test]
fn malformed_lines_are_errors() {
    assert!(parse_json_event("").is_err());
    assert!(parse_json_event("not json").is_err());
    assert!(parse_json_event("{\"MESSAGE\":").is_err());
    assert!(parse_json_event("{} trailing").is_err());
    assert_eq!(parse_json_event("[1,2]").unwrap_err(), "日志 JSON 行不是对象");
    assert_eq!(parse_json_event("\"text\"").unwrap_err(), "日志 JSON 行不是对象");
    assert_eq!(parse_json_event("null").unwrap_err(), "日志 JSON 行不是对象");
    assert_eq!(parse_json_event("17").unwrap_err(), "日志 JSON 行不是对象");
    let message = parse_json_event("{\"a\":}").unwrap_err();
    assert_eq!(message, "expected value at line 1 column 6");
}

#[test]
fn fields_accept_several_encodings() {
    let event = parse_json_event(
        r#"{"MESSAGE":[104,105,32],"PRIORITY":4,"_SYSTEMD_UNIT":true,"_EXE":null,"_COMM":{"a":1},"SYSLOG_IDENTIFIER":"  spaced  "}"#,
    )
    .expect("JSON 应解析成功");
    assert_eq!(event.message, "hi");
    assert_eq!(event.priority, Some(4));
    assert_eq!(event.unit.as_deref(), Some("true"));
    assert_eq!(event.exe, None);
    assert_eq!(event.comm, None);
    assert_eq!(event.identifier.as_deref(), Some("spaced"));
}

#[test]
fn empty_object_gives_empty_event() {
    let event = parse_json_event("{}").expect("JSON 应解析成功");
    assert_eq!(event.message, "");
    assert_eq!(event.priority, None);
    assert_eq!(event.unit, None);
    assert_eq!(classify_source(&event), (SourceKind::Unknown, "unknown".to_string()));
}

#[test]
fn priority_must_be_a_severity() {
    let priority = |text: &str| {
        parse_json_event(&format!("{{\"PRIORITY\":{text}}}")).expect("JSON 应解析成功").priority
    };
    assert_eq!(priority("\"0\""), Some(0));
    assert_eq!(priority("\" 7 \""), Some(7));
    assert_eq!(priority("\"007\""), Some(7));
    assert_eq!(priority("\"8\""), None);
    assert_eq!(priority("\"9\""), None);
    assert_eq!(priority("\"255\""), None);
    assert_eq!(priority("\"256\""), None);
    assert_eq!(priority("\"+5\""), Some(5));
    assert_eq!(priority("\"-1\""), None);
    assert_eq!(priority("\"err\""), None);
    assert_eq!(priority("6"), Some(6));
    assert_eq!(priority("8"), None);
    assert_eq!(priority("6.0"), None);
    assert_eq!(priority("-6"), None);
    assert_eq!(priority("[51]"), Some(3));
    assert_eq!(priority("[57]"), None);
    assert_eq!(priority("false"), None);
    for n in 0u32..300 {
        let expected = if n <= 7 { Some(n as u8) } else { None };
        assert_eq!(priority(&format!("\"{n}\"")), expected);
    }
}

#[test]
fn priority_above_seven_is_absent() {
    let event = parse_json_event(r#"{"MESSAGE":"x","PRIORITY":"9"}"#).expect("JSON 应解析成功");
    assert_eq!(event.message, "x");
    assert_eq!(event.priority, None);
}

#[test]
fn byte_arrays_decode_as_utf8() {
    let message = |text: &str| {
        parse_json_event(&format!("{{\"MESSAGE\":{text}}}")).expect("JSON 应解析成功").message
    };
    assert_eq!(message("[228,184,173,230,150,135]"), "中文");
    assert_eq!(message("[32,97,32]"), "a");
    assert_eq!(message("[]"), "");
    assert_eq!(message("[255,254]"), "");
    assert_eq!(message("[97,256]"), "");
    assert_eq!(message("[97,-1]"), "");
    assert_eq!(message("[97,1.5]"), "");
    assert_eq!(message("[97,\"b\"]"), "");
    assert_eq!(message("[97,[98]]"), "");
    assert_eq!(message("[240,159,152,128]"), "😀");
}

#[test]
fn numbers_print_as_json_prints_them() {
    let message = |text: &str| {
        parse_json_event(&format!("{{\"MESSAGE\":{text}}}")).expect("JSON 应解析成功").message
    };
    assert_eq!(message("12"), "12");
    assert_eq!(message("-12"), "-12");
    assert_eq!(message("1.5"), "1.5");
    assert_eq!(message("18446744073709551615"), "18446744073709551615");
    assert_eq!(message("true"), "true");
    assert_eq!(message("false"), "false");
}

#[test]
fn last_duplicate_member_counts() {
    let event = parse_json_event(r#"{"MESSAGE":"first","MESSAGE":"second"}"#).expect("JSON 应解析成功");
    assert_eq!(event.message, "second");
}

#[test]
fn document_members_are_read_by_name() {
    let members = vec![
        JsonMember { name: "A".to_string(), value: JsonField::Text(" x ".to_string()) },
        JsonMember { name: "MESSAGE".to_string(), value: JsonField::Number("3".to_string()) },
        JsonMember { name: "A".to_string(), value: JsonField::Text("later".to_string()) },
        JsonMember { name: "B".to_string(), value: JsonField::Text("  ".to_string()) },
        JsonMember { name: "C".to_string(), value: JsonField::Null },
    ];
    assert_eq!(field_as_string(&members, "A").as_deref(), Some("x"));
    assert_eq!(field_as_string(&members, "MESSAGE").as_deref(), Some("3"));
    assert_eq!(field_as_string(&members, "B"), None);
    assert_eq!(field_as_string(&members, "C"), None);
    assert_eq!(field_as_string(&members, "missing"), None);
    let event = event_from_document(&JsonDocument::Record(members)).expect("应成功");
    assert_eq!(event.message, "3");
    assert_eq!(
        event_from_document(&JsonDocument::Other).unwrap_err(),
        "日志 JSON 行不是对象"
    );
}

#[test]
fn values_become_text() {
    assert_eq!(value_to_string(&JsonField::Text(" a ".to_string())).as_deref(), Some(" a "));
    assert_eq!(value_to_string(&JsonField::Number("1e3".to_string())).as_deref(), Some("1e3"));
    assert_eq!(value_to_string(&JsonField::Bool(true)).as_deref(), Some("true"));
    assert_eq!(value_to_string(&JsonField::Bool(false)).as_deref(), Some("false"));
    assert_eq!(value_to_string(&JsonField::Null), None);
    assert_eq!(value_to_string(&JsonField::Object), None);
    assert_eq!(
        value_to_string(&JsonField::Array(vec![Some(32), Some(104), Some(105)])).as_deref(),
        Some("hi")
    );
    assert_eq!(decode_byte_array(&vec![Some(104), None]), None);
    assert_eq!(decode_byte_array(&vec![Some(104), Some(256)]), None);
    assert_eq!(decode_byte_array(&vec![Some(0xC3)]), None);
    assert_eq!(decode_byte_array(&vec![Some(0xC3), Some(0xA9)]).as_deref(), Some("é"));
    assert_eq!(decode_byte_array(&vec![Some(0xED), Some(0xA0), Some(0x80)]), None);
    assert_eq!(decode_byte_array(&vec![Some(0xC0), Some(0x80)]), None);
    assert_eq!(decode_byte_array(&vec![]), None);
}

#[test]
fn normalizing_trims_unicode_white_space() {
    assert_eq!(normalize_optional("".to_string()), None);
    assert_eq!(normalize_optional(" \t\r\n".to_string()), None);
    assert_eq!(normalize_optional("\u{a0}\u{2003}x y\u{3000}\u{85}".to_string()).as_deref(), Some("x y"));
    assert_eq!(normalize_optional("\u{200b}".to_string()).as_deref(), Some("\u{200b}"));
    for code in 0u32..0x3100 {
        let Some(c) = char::from_u32(code) else { continue };
        let text = format!("{c}a{c}");
        assert_eq!(normalize_optional(text.clone()).as_deref(), Some(text.trim()), "U+{code:04X}");
    }
}
