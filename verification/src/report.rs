//! The report of an analysis as the client shows it.

use vstd::prelude::*;
use vstd::string::*;
use crate::decimal::{decimal, decimal_string};
use crate::event::SourceKind;
use crate::protocol::{AnalyzeResponse, AnalyzeResponseView};
use crate::stats::{stats_view, AnalyzeMetrics, SourceStats, SourceStatsView};

verus! {

/// The line that frames the parts of the report.
pub const RULE: &'static str = "═══════════════════════════════════════════════════════════════";

/// The name of a kind of source.
pub open spec fn source_label(kind: SourceKind) -> Seq<char> {
    match kind {
        SourceKind::Unit => "服务单元"@,
        SourceKind::Executable => "可执行文件"@,
        SourceKind::Identifier => "标识符"@,
        SourceKind::Comm => "进程名"@,
        SourceKind::Kernel => "内核"@,
        SourceKind::Unknown => "未知"@,
    }
}

/// The name of a kind of source.
pub fn source_label_cn(kind: SourceKind) -> (r: &'static str)
    ensures
        r@ == source_label(kind),
{
    match kind {
        SourceKind::Unit => "服务单元",
        SourceKind::Executable => "可执行文件",
        SourceKind::Identifier => "标识符",
        SourceKind::Comm => "进程名",
        SourceKind::Kernel => "内核",
        SourceKind::Unknown => "未知",
    }
}

/// The name of a severity; of a number that is none, "unknown".
pub open spec fn priority_label(priority: u8) -> Seq<char> {
    if priority == 0 {
        "紧急"@
    } else if priority == 1 {
        "警报"@
    } else if priority == 2 {
        "严重"@
    } else if priority == 3 {
        "错误"@
    } else if priority == 4 {
        "警告"@
    } else if priority == 5 {
        "通知"@
    } else if priority == 6 {
        "信息"@
    } else if priority == 7 {
        "调试"@
    } else {
        "未知"@
    }
}

/// The name of a severity.
pub fn priority_label_cn(priority: u8) -> (r: &'static str)
    ensures
        r@ == priority_label(priority),
{
    match priority {
        0 => "紧急",
        1 => "警报",
        2 => "严重",
        3 => "错误",
        4 => "警告",
        5 => "通知",
        6 => "信息",
        7 => "调试",
        _ => "未知",
    }
}

/// The summary that opens the report: the counters, and how many
/// sources there are.
pub open spec fn summary_lines(metrics: AnalyzeMetrics, sources: nat) -> Seq<Seq<char>> {
    seq![
        RULE@,
        "                      📋 事件摘要"@,
        RULE@,
        "  读取行数    ："@ + decimal(metrics.lines_read as nat),
        "  解析成功    ："@ + decimal(metrics.parsed_ok as nat),
        "  匹配条数    ："@ + decimal(metrics.matched as nat),
        "  解析错误    ："@ + decimal(metrics.parse_errors as nat),
        "  独立来源    ："@ + decimal(sources),
    ]
}

/// What closes the report of an analysis that found no source.
pub open spec fn nothing_found_lines() -> Seq<Seq<char>> {
    seq![Seq::empty(), "  ✅ 当前过滤条件下未发现可疑来源。"@, RULE@]
}

/// The heading of the ranking.
pub open spec fn ranking_heading() -> Seq<Seq<char>> {
    seq![Seq::empty(), RULE@, "                    🔍 可疑来源排行"@, RULE@]
}

/// The line that names the source at place `position` of the ranking.
pub open spec fn headline(position: nat, suspect: SourceStatsView) -> Seq<char> {
    "  "@ + decimal(position) + ". ["@ + source_label(suspect.kind) + "] "@ + suspect.source
        + " | 事件数="@ + decimal(suspect.count) + " | 最高严重级别="@ + decimal(
        suspect.worst_priority as nat,
    ) + "("@ + priority_label(suspect.worst_priority) + ")"@
}

/// The line that names the package of a source.
pub open spec fn package_line(package: Option<Seq<char>>) -> Seq<char> {
    match package {
        Some(name) => "     所属包  ："@ + name,
        None => "     所属包  ：未知"@,
    }
}

/// A line for a detail that a source has; none for one that it lacks.
pub open spec fn detail_lines(label: Seq<char>, detail: Option<Seq<char>>) -> Seq<Seq<char>> {
    match detail {
        Some(text) => seq![label + text],
        None => Seq::empty(),
    }
}

/// The sample message of a source, where it has one.
pub open spec fn shown_message(suspect: SourceStatsView) -> Option<Seq<char>> {
    if suspect.sample_message.len() > 0 {
        Some(suspect.sample_message)
    } else {
        None
    }
}

/// The lines of the source at place `position` of the ranking: after an
/// empty line its headline and its package, then its executable, its
/// unit and its sample message as far as it has them.
pub open spec fn entry_lines(position: nat, suspect: SourceStatsView) -> Seq<Seq<char>> {
    seq![Seq::empty(), headline(position, suspect), package_line(suspect.package)] + detail_lines(
        "     可执行文件："@,
        suspect.sample_exe,
    ) + detail_lines("     服务单元："@, suspect.sample_unit) + detail_lines(
        "     示例消息："@,
        shown_message(suspect),
    )
}

/// The lines of the first `shown` sources, numbered from one.
pub open spec fn ranking_lines(suspects: Seq<SourceStatsView>, shown: nat) -> Seq<Seq<char>>
    decreases shown,
{
    if shown == 0 {
        Seq::empty()
    } else {
        ranking_lines(suspects, (shown - 1) as nat) + entry_lines(shown, suspects[shown - 1])
    }
}

/// How many sources the report shows: the first `top`, or all where
/// there are fewer.
pub open spec fn shown_count(sources: nat, top: usize) -> nat {
    if sources <= top {
        sources
    } else {
        top as nat
    }
}

/// The report of an analysis, line by line: the summary; then either
/// the notice that nothing was found, or the ranking of the first `top`
/// sources.
pub open spec fn report_lines(response: AnalyzeResponseView) -> Seq<Seq<char>> {
    summary_lines(response.metrics, response.suspects.len()) + (if response.suspects.len() == 0 {
        nothing_found_lines()
    } else {
        ranking_heading() + ranking_lines(
            response.suspects,
            shown_count(response.suspects.len(), response.top),
        ) + seq![Seq::empty(), RULE@]
    })
}

fn push_line(lines: &mut Vec<String>, line: String)
    ensures
        final(lines).deep_view() == old(lines).deep_view().push(line@),
{
    lines.push(line);
    assert(lines.deep_view() == old(lines).deep_view().push(line@));
}

fn counter_line(label: &str, value: usize) -> (r: String)
    ensures
        r@ == label@ + decimal(value as nat),
{
    String::from_str(label).concat(decimal_string(value as u64).as_str())
}

fn push_summary(lines: &mut Vec<String>, metrics: &AnalyzeMetrics, sources: usize)
    ensures
        final(lines).deep_view() == old(lines).deep_view() + summary_lines(*metrics, sources as nat),
{
    push_line(lines, String::from_str(RULE));
    push_line(lines, String::from_str("                      📋 事件摘要"));
    push_line(lines, String::from_str(RULE));
    push_line(lines, counter_line("  读取行数    ：", metrics.lines_read));
    push_line(lines, counter_line("  解析成功    ：", metrics.parsed_ok));
    push_line(lines, counter_line("  匹配条数    ：", metrics.matched));
    push_line(lines, counter_line("  解析错误    ：", metrics.parse_errors));
    push_line(lines, counter_line("  独立来源    ：", sources));
    assert(lines.deep_view() == old(lines).deep_view() + summary_lines(*metrics, sources as nat));
}

fn headline_of(position: usize, suspect: &SourceStats) -> (r: String)
    ensures
        r@ == headline(position as nat, suspect@),
{
    let mut line = String::from_str("  ");
    line = line.concat(decimal_string(position as u64).as_str());
    line = line.concat(". [");
    line = line.concat(source_label_cn(suspect.kind));
    line = line.concat("] ");
    line = line.concat(suspect.source.as_str());
    line = line.concat(" | 事件数=");
    line = line.concat(decimal_string(suspect.count).as_str());
    line = line.concat(" | 最高严重级别=");
    line = line.concat(decimal_string(suspect.worst_priority as u64).as_str());
    line = line.concat("(");
    line = line.concat(priority_label_cn(suspect.worst_priority));
    line.concat(")")
}

fn push_detail(lines: &mut Vec<String>, label: &str, detail: &Option<String>)
    ensures
        final(lines).deep_view() == old(lines).deep_view() + detail_lines(
            label@,
            detail.deep_view(),
        ),
{
    match detail {
        Some(text) => {
            push_line(lines, String::from_str(label).concat(text.as_str()));
            assert(lines.deep_view() == old(lines).deep_view() + seq![label@ + text@]);
        },
        None => {
            assert(lines.deep_view() == old(lines).deep_view() + Seq::<Seq<char>>::empty());
        },
    }
}

fn push_entry(lines: &mut Vec<String>, position: usize, suspect: &SourceStats)
    ensures
        final(lines).deep_view() == old(lines).deep_view() + entry_lines(
            position as nat,
            suspect@,
        ),
{
    let ghost start = lines.deep_view();
    push_line(lines, String::new());
    push_line(lines, headline_of(position, suspect));
    let package = match &suspect.package {
        Some(name) => String::from_str("     所属包  ：").concat(name.as_str()),
        None => String::from_str("     所属包  ：未知"),
    };
    push_line(lines, package);
    let ghost head = seq![
        Seq::<char>::empty(),
        headline(position as nat, suspect@),
        package_line(suspect@.package),
    ];
    assert(lines.deep_view() == start + head);
    push_detail(lines, "     可执行文件：", &suspect.sample_exe);
    push_detail(lines, "     服务单元：", &suspect.sample_unit);
    let ghost before_message = lines.deep_view();
    if suspect.sample_message.as_str().unicode_len() != 0 {
        push_line(
            lines,
            String::from_str("     示例消息：").concat(suspect.sample_message.as_str()),
        );
        assert(lines.deep_view() == before_message + seq![
            "     示例消息："@ + suspect@.sample_message,
        ]);
    } else {
        assert(lines.deep_view() == before_message + Seq::<Seq<char>>::empty());
    }
    proof {
        let exe = detail_lines("     可执行文件："@, suspect@.sample_exe);
        let unit = detail_lines("     服务单元："@, suspect@.sample_unit);
        let message = detail_lines("     示例消息："@, shown_message(suspect@));
        assert(start + head + exe + unit + message =~= start + (head + exe + unit + message));
    }
}

/// Writes the report of an analysis, line by line.
pub fn render_analysis_report(response: &AnalyzeResponse) -> (r: Vec<String>)
    ensures
        r.deep_view() == report_lines(response@),
{
    let mut lines: Vec<String> = Vec::new();
    assert(lines.deep_view() == Seq::<Seq<char>>::empty());
    let sources: usize = response.suspects.len();
    push_summary(&mut lines, &response.metrics, sources);
    let ghost summary = lines.deep_view();
    assert(summary == summary_lines(response@.metrics, response@.suspects.len()));
    if sources == 0 {
        push_line(&mut lines, String::new());
        push_line(&mut lines, String::from_str("  ✅ 当前过滤条件下未发现可疑来源。"));
        push_line(&mut lines, String::from_str(RULE));
        assert(lines.deep_view() == summary + nothing_found_lines());
        return lines;
    }
    push_line(&mut lines, String::new());
    push_line(&mut lines, String::from_str(RULE));
    push_line(&mut lines, String::from_str("                    🔍 可疑来源排行"));
    push_line(&mut lines, String::from_str(RULE));
    let ghost headed = lines.deep_view();
    assert(headed == summary + ranking_heading());
    let shown: usize = if sources <= response.top {
        sources
    } else {
        response.top
    };
    let ghost suspects = stats_view(response.suspects@);
    let mut i: usize = 0;
    assert(headed + Seq::<Seq<char>>::empty() == headed);
    while i < shown
        invariant
            i <= shown <= sources == response.suspects@.len(),
            suspects == stats_view(response.suspects@),
            lines.deep_view() == headed + ranking_lines(suspects, i as nat),
        decreases shown - i,
    {
        let ghost before = lines.deep_view();
        assert(suspects[i as int] == response.suspects@[i as int]@);
        push_entry(&mut lines, i + 1, &response.suspects[i]);
        assert(before + entry_lines((i + 1) as nat, suspects[i as int]) =~= headed + (ranking_lines(
            suspects,
            i as nat,
        ) + entry_lines((i + 1) as nat, suspects[i as int])));
        i += 1;
    }
    let ghost ranking = ranking_lines(suspects, shown as nat);
    push_line(&mut lines, String::new());
    push_line(&mut lines, String::from_str(RULE));
    assert(lines.deep_view() =~= summary + (ranking_heading() + ranking + seq![
        Seq::<char>::empty(),
        RULE@,
    ]));
    lines
}

} // verus!
