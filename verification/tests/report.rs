use logtool::report::RULE;
use logtool::{
    priority_label_cn, render_analysis_report, source_label_cn, AnalyzeMetrics, AnalyzeResponse,
    SourceKind, SourceStats,
};

#[test]
fn labels_name_kinds_and_priorities() {
    assert_eq!(source_label_cn(SourceKind::Unit), "服务单元");
    assert_eq!(source_label_cn(SourceKind::Executable), "可执行文件");
    assert_eq!(source_label_cn(SourceKind::Identifier), "标识符");
    assert_eq!(source_label_cn(SourceKind::Comm), "进程名");
    assert_eq!(source_label_cn(SourceKind::Kernel), "内核");
    assert_eq!(source_label_cn(SourceKind::Unknown), "未知");
    let names = ["紧急", "警报", "严重", "错误", "警告", "通知", "信息", "调试"];
    for (priority, name) in names.iter().enumerate() {
        assert_eq!(priority_label_cn(priority as u8), *name);
    }
    assert_eq!(priority_label_cn(8), "未知");
    assert_eq!(priority_label_cn(255), "未知");
}

fn metrics() -> AnalyzeMetrics {
    AnalyzeMetrics { lines_read: 12, parsed_ok: 10, matched: 7, parse_errors: 2 }
}

#[test]
fn empty_report_says_nothing_was_found() {
    let response = AnalyzeResponse { metrics: metrics(), suspects: Vec::new(), top: 10 };
    assert_eq!(
        render_analysis_report(&response),
        vec![
            RULE.to_string(),
            "                      📋 事件摘要".to_string(),
            RULE.to_string(),
            "  读取行数    ：12".to_string(),
            "  解析成功    ：10".to_string(),
            "  匹配条数    ：7".to_string(),
            "  解析错误    ：2".to_string(),
            "  独立来源    ：0".to_string(),
            String::new(),
            "  ✅ 当前过滤条件下未发现可疑来源。".to_string(),
            RULE.to_string(),
        ]
    );
    assert_eq!(RULE.chars().count(), 63);
    assert!(RULE.chars().all(|c| c == '═'));
}

#[test]
fn report_ranks_the_top_sources() {
    let suspects = vec![
        SourceStats {
            kind: SourceKind::Unit,
            source: "ssh.service".to_string(),
            count: 5,
            worst_priority: 2,
            sample_message: "failed".to_string(),
            sample_unit: Some("ssh.service".to_string()),
            sample_exe: Some("/usr/sbin/sshd".to_string()),
            package: Some("openssh-server".to_string()),
        },
        SourceStats {
            kind: SourceKind::Kernel,
            source: "kernel".to_string(),
            count: 2,
            worst_priority: 9,
            sample_message: String::new(),
            sample_unit: None,
            sample_exe: None,
            package: None,
        },
        SourceStats {
            kind: SourceKind::Comm,
            source: "hidden".to_string(),
            count: 1,
            worst_priority: 7,
            sample_message: String::new(),
            sample_unit: None,
            sample_exe: None,
            package: None,
        },
    ];
    let response = AnalyzeResponse { metrics: metrics(), suspects, top: 2 };
    let lines = render_analysis_report(&response);
    assert_eq!(lines[7], "  独立来源    ：3");
    assert_eq!(
        &lines[8..],
        &[
            String::new(),
            RULE.to_string(),
            "                    🔍 可疑来源排行".to_string(),
            RULE.to_string(),
            String::new(),
            "  1. [服务单元] ssh.service | 事件数=5 | 最高严重级别=2(严重)".to_string(),
            "     所属包  ：openssh-server".to_string(),
            "     可执行文件：/usr/sbin/sshd".to_string(),
            "     服务单元：ssh.service".to_string(),
            "     示例消息：failed".to_string(),
            String::new(),
            "  2. [内核] kernel | 事件数=2 | 最高严重级别=9(未知)".to_string(),
            "     所属包  ：未知".to_string(),
            String::new(),
            RULE.to_string(),
        ]
    );
    let response = AnalyzeResponse { top: 0, ..response };
    assert_eq!(render_analysis_report(&response).len(), 8 + 4 + 2);
}
