//! The command line: what each argument means, and the action that a
//! whole argument list asks for.

use vstd::prelude::*;
use vstd::string::*;
use crate::config::{
    default_config, stream_only_option_misused, validate_config, validation_error, Action,
    ActionView, BootFilter, BootFilterView, Config, ConfigView, RunMode,
};
use crate::decimal::{all_digits, is_digit, parse_unsigned, parsed_unsigned};
use crate::text::{ascii_lower, chars_of, has_prefix, lowercase, spells, string_of_range};

verus! {

/// The usage text of the command-line client.
pub const HELP_TEXT: &'static str = "logtool — Ubuntu 系统异常日志诊断工具

默认模式为 --analyze（归因分析，定位可疑程序/包）。

用法：
  logtool                    进入交互模式（输入 help/doctor/boots）
  logtool [命令|选项]        单次执行模式

模式：
      --analyze             归因分析模式，排列可疑程序/服务（默认）
      --stream              原始日志流模式（直接输出日志）
      analyze               归因分析模式别名
      stream                原始日志流模式别名

命令：
  help                     显示帮助（等同 --help）
  version                  显示版本（等同 --version）
  doctor                   运行环境自检（等同 --doctor）
  boots                    列出启动周期（等同 --list-boots）
  run                      按默认分析执行（适合交互模式）

交互模式：
  exit / quit / q          退出交互模式

选项：
  -h, --help                显示此帮助信息
  -V, --version             显示版本信息（需单独使用）
      --doctor              运行环境自检（需单独使用）
      --list-boots          列出启动周期（需单独使用）
  -f, --follow              持续输出新日志（仅 --stream 模式）
  -k, --kernel              仅查看内核日志（等同 journalctl --dmesg）
  -u, --unit <名称>         按 systemd 服务单元过滤（可重复）
  -g, --grep <关键词>       按关键词过滤（可重复，AND 逻辑）
  -b, --boot [id]           仅当前启动周期日志，或指定启动 ID
      --all-boots           跨所有启动周期排查（默认）
  -p, --priority <级别>     优先级过滤（默认：3 / 错误）
  -n, --max-lines <N>       最多扫描/输出的匹配日志行数
      --top <N>             分析报告展示前 N 个可疑来源（默认：10）
      --since <时间>        开始时间（默认：\"2 hours ago\"）
      --until <时间>        结束时间
      --no-default-since    禁用默认时间窗口
      --json                JSON 输出（仅 --stream 模式）
      --show-command        显示生成的 journalctl 命令

示例：
  logtool
  logtool doctor
  logtool boots
  logtool --since \"30 min ago\" --top 15
  logtool --kernel --priority 4 --grep hang
  logtool --stream --follow --unit ssh
";

/// The usage text of the command-line client.
pub fn help_text() -> (r: &'static str)
    ensures
        r@ == HELP_TEXT@,
{
    HELP_TEXT
}

/// A request that stands for the whole command line.
#[derive(Debug, Clone, Copy, PartialEq, Eq, Structural)]
pub enum Command {
    Help,
    Version,
    Doctor,
    ListBoots,
}

/// An option that is set by being named.
#[derive(Debug, Clone, Copy, PartialEq, Eq, Structural)]
pub enum Switch {
    Analyze,
    Stream,
    AllBoots,
    Follow,
    Kernel,
    Json,
    ShowCommand,
    NoDefaultSince,
}

/// An option that takes a value.
#[derive(Debug, Clone, Copy, PartialEq, Eq, Structural)]
pub enum Setting {
    Since,
    Until,
    Unit,
    Grep,
    Priority,
    MaxLines,
    Top,
}

/// What one argument is, taken by itself.
#[derive(Debug, PartialEq, Eq)]
pub enum ArgShape {
    Command(Command),
    Switch(Switch),
    /// The value is the next argument.
    Setting(Setting),
    /// The boot option; the next argument may be its value.
    Boot,
    /// `--name=value`.
    Inline(Setting, String),
    /// `--boot=value`.
    InlineBoot(String),
    Unknown,
}

/// What one argument is, as contracts see it.
pub ghost enum ArgShapeView {
    Command(Command),
    Switch(Switch),
    Setting(Setting),
    Boot,
    Inline(Setting, Seq<char>),
    InlineBoot(Seq<char>),
    Unknown,
}

impl View for ArgShape {
    type V = ArgShapeView;

    open spec fn view(&self) -> ArgShapeView {
        match self {
            ArgShape::Command(c) => ArgShapeView::Command(*c),
            ArgShape::Switch(s) => ArgShapeView::Switch(*s),
            ArgShape::Setting(s) => ArgShapeView::Setting(*s),
            ArgShape::Boot => ArgShapeView::Boot,
            ArgShape::Inline(s, v) => ArgShapeView::Inline(*s, v@),
            ArgShape::InlineBoot(v) => ArgShapeView::InlineBoot(v@),
            ArgShape::Unknown => ArgShapeView::Unknown,
        }
    }
}

/// The command that a word names, if it names one.
pub open spec fn command_named(arg: Seq<char>) -> Option<Command> {
    if arg == "--help"@ || arg == "-h"@ || arg == "help"@ {
        Some(Command::Help)
    } else if arg == "--version"@ || arg == "-V"@ || arg == "version"@ {
        Some(Command::Version)
    } else if arg == "--doctor"@ || arg == "doctor"@ {
        Some(Command::Doctor)
    } else if arg == "--list-boots"@ || arg == "boots"@ {
        Some(Command::ListBoots)
    } else {
        None
    }
}

/// The switch that a word names, if it names one.
pub open spec fn switch_named(arg: Seq<char>) -> Option<Switch> {
    if arg == "--analyze"@ {
        Some(Switch::Analyze)
    } else if arg == "--stream"@ {
        Some(Switch::Stream)
    } else if arg == "--all-boots"@ {
        Some(Switch::AllBoots)
    } else if arg == "--follow"@ || arg == "-f"@ {
        Some(Switch::Follow)
    } else if arg == "--kernel"@ || arg == "-k"@ {
        Some(Switch::Kernel)
    } else if arg == "--json"@ {
        Some(Switch::Json)
    } else if arg == "--show-command"@ {
        Some(Switch::ShowCommand)
    } else if arg == "--no-default-since"@ {
        Some(Switch::NoDefaultSince)
    } else {
        None
    }
}

/// The setting that a word names, if it names one.
pub open spec fn setting_named(arg: Seq<char>) -> Option<Setting> {
    if arg == "--since"@ {
        Some(Setting::Since)
    } else if arg == "--until"@ {
        Some(Setting::Until)
    } else if arg == "--unit"@ || arg == "-u"@ {
        Some(Setting::Unit)
    } else if arg == "--grep"@ || arg == "-g"@ {
        Some(Setting::Grep)
    } else if arg == "--priority"@ || arg == "-p"@ {
        Some(Setting::Priority)
    } else if arg == "--max-lines"@ || arg == "-n"@ {
        Some(Setting::MaxLines)
    } else if arg == "--top"@ {
        Some(Setting::Top)
    } else {
        None
    }
}

/// The long name of a setting, as messages give it.
pub open spec fn setting_flag(setting: Setting) -> Seq<char> {
    match setting {
        Setting::Since => "--since"@,
        Setting::Until => "--until"@,
        Setting::Unit => "--unit"@,
        Setting::Grep => "--grep"@,
        Setting::Priority => "--priority"@,
        Setting::MaxLines => "--max-lines"@,
        Setting::Top => "--top"@,
    }
}

/// What begins an argument that carries the value of `setting` in itself.
pub open spec fn inline_prefix(setting: Setting) -> Seq<char> {
    setting_flag(setting) + "="@
}

/// The setting whose value an argument carries in itself, with the value.
pub open spec fn inline_setting(arg: Seq<char>) -> Option<(Setting, Seq<char>)> {
    if "--since="@.is_prefix_of(arg) {
        Some((Setting::Since, arg.skip("--since="@.len() as int)))
    } else if "--until="@.is_prefix_of(arg) {
        Some((Setting::Until, arg.skip("--until="@.len() as int)))
    } else if "--unit="@.is_prefix_of(arg) {
        Some((Setting::Unit, arg.skip("--unit="@.len() as int)))
    } else if "--grep="@.is_prefix_of(arg) {
        Some((Setting::Grep, arg.skip("--grep="@.len() as int)))
    } else if "--priority="@.is_prefix_of(arg) {
        Some((Setting::Priority, arg.skip("--priority="@.len() as int)))
    } else if "--max-lines="@.is_prefix_of(arg) {
        Some((Setting::MaxLines, arg.skip("--max-lines="@.len() as int)))
    } else if "--top="@.is_prefix_of(arg) {
        Some((Setting::Top, arg.skip("--top="@.len() as int)))
    } else {
        None
    }
}

/// What one argument is, taken by itself.
pub open spec fn shape_of(arg: Seq<char>) -> ArgShapeView {
    if let Some(c) = command_named(arg) {
        ArgShapeView::Command(c)
    } else if let Some(s) = switch_named(arg) {
        ArgShapeView::Switch(s)
    } else if let Some(s) = setting_named(arg) {
        ArgShapeView::Setting(s)
    } else if arg == "--boot"@ || arg == "-b"@ {
        ArgShapeView::Boot
    } else if let Some((s, v)) = inline_setting(arg) {
        ArgShapeView::Inline(s, v)
    } else if "--boot="@.is_prefix_of(arg) {
        ArgShapeView::InlineBoot(arg.skip("--boot="@.len() as int))
    } else {
        ArgShapeView::Unknown
    }
}

fn command_of(v: &[char]) -> (r: Option<Command>)
    ensures
        r == command_named(v@),
{
    if spells(v, "--help") || spells(v, "-h") || spells(v, "help") {
        Some(Command::Help)
    } else if spells(v, "--version") || spells(v, "-V") || spells(v, "version") {
        Some(Command::Version)
    } else if spells(v, "--doctor") || spells(v, "doctor") {
        Some(Command::Doctor)
    } else if spells(v, "--list-boots") || spells(v, "boots") {
        Some(Command::ListBoots)
    } else {
        None
    }
}

fn switch_of(v: &[char]) -> (r: Option<Switch>)
    ensures
        r == switch_named(v@),
{
    if spells(v, "--analyze") {
        Some(Switch::Analyze)
    } else if spells(v, "--stream") {
        Some(Switch::Stream)
    } else if spells(v, "--all-boots") {
        Some(Switch::AllBoots)
    } else if spells(v, "--follow") || spells(v, "-f") {
        Some(Switch::Follow)
    } else if spells(v, "--kernel") || spells(v, "-k") {
        Some(Switch::Kernel)
    } else if spells(v, "--json") {
        Some(Switch::Json)
    } else if spells(v, "--show-command") {
        Some(Switch::ShowCommand)
    } else if spells(v, "--no-default-since") {
        Some(Switch::NoDefaultSince)
    } else {
        None
    }
}

fn setting_of(v: &[char]) -> (r: Option<Setting>)
    ensures
        r == setting_named(v@),
{
    if spells(v, "--since") {
        Some(Setting::Since)
    } else if spells(v, "--until") {
        Some(Setting::Until)
    } else if spells(v, "--unit") || spells(v, "-u") {
        Some(Setting::Unit)
    } else if spells(v, "--grep") || spells(v, "-g") {
        Some(Setting::Grep)
    } else if spells(v, "--priority") || spells(v, "-p") {
        Some(Setting::Priority)
    } else if spells(v, "--max-lines") || spells(v, "-n") {
        Some(Setting::MaxLines)
    } else if spells(v, "--top") {
        Some(Setting::Top)
    } else {
        None
    }
}

/// What follows `prefix` in `v`, if `v` begins with it.
pub fn strip_prefix(v: &[char], prefix: &str) -> (r: Option<String>)
    ensures
        match r {
            Some(rest) => prefix@.is_prefix_of(v@) && rest@ == v@.skip(prefix@.len() as int),
            None => !prefix@.is_prefix_of(v@),
        },
{
    if has_prefix(v, prefix) {
        let n = prefix.unicode_len();
        Some(string_of_range(v, n, v.len()))
    } else {
        None
    }
}

/// What one argument is, taken by itself.
pub fn classify_argument(arg: &str) -> (r: ArgShape)
    ensures
        r@ == shape_of(arg@),
{
    let chars = chars_of(arg);
    let v = chars.as_slice();
    if let Some(c) = command_of(v) {
        return ArgShape::Command(c);
    }
    if let Some(s) = switch_of(v) {
        return ArgShape::Switch(s);
    }
    if let Some(s) = setting_of(v) {
        return ArgShape::Setting(s);
    }
    if spells(v, "--boot") || spells(v, "-b") {
        return ArgShape::Boot;
    }
    if let Some(value) = strip_prefix(v, "--since=") {
        return ArgShape::Inline(Setting::Since, value);
    }
    if let Some(value) = strip_prefix(v, "--until=") {
        return ArgShape::Inline(Setting::Until, value);
    }
    if let Some(value) = strip_prefix(v, "--unit=") {
        return ArgShape::Inline(Setting::Unit, value);
    }
    if let Some(value) = strip_prefix(v, "--grep=") {
        return ArgShape::Inline(Setting::Grep, value);
    }
    if let Some(value) = strip_prefix(v, "--priority=") {
        return ArgShape::Inline(Setting::Priority, value);
    }
    if let Some(value) = strip_prefix(v, "--max-lines=") {
        return ArgShape::Inline(Setting::MaxLines, value);
    }
    if let Some(value) = strip_prefix(v, "--top=") {
        return ArgShape::Inline(Setting::Top, value);
    }
    if let Some(value) = strip_prefix(v, "--boot=") {
        return ArgShape::InlineBoot(value);
    }
    ArgShape::Unknown
}

/// The positive number that a setting's value denotes, or the complaint
/// that names the setting.
pub open spec fn positive_number(value: Seq<char>, flag: Seq<char>) -> Result<usize, Seq<char>> {
    match parsed_unsigned(value, usize::MAX as nat) {
        None => Err(flag + " 需要一个正整数，实际输入："@ + value),
        Some(n) => if n == 0 {
            Err(flag + " 必须大于 0"@)
        } else {
            Ok(n as usize)
        },
    }
}

/// Reads the positive number that the setting `flag` was given.
pub fn parse_positive_usize(value: &str, flag: &str) -> (r: Result<usize, String>)
    ensures
        match r {
            Ok(n) => positive_number(value@, flag@) == Ok::<usize, Seq<char>>(n),
            Err(e) => positive_number(value@, flag@) == Err::<usize, Seq<char>>(e@),
        },
{
    let chars = chars_of(value);
    match parse_unsigned(chars.as_slice(), usize::MAX as u64) {
        None => {
            let message = String::from_str(flag).concat(" 需要一个正整数，实际输入：").concat(value);
            Err(message)
        },
        Some(n) => {
            if n == 0 {
                Err(String::from_str(flag).concat(" 必须大于 0"))
            } else {
                Ok(n as usize)
            }
        },
    }
}

/// The priority threshold that a value sets, or the complaint about it.
pub open spec fn priority_setting(value: Seq<char>) -> Result<Seq<char>, Seq<char>> {
    if value.len() == 0 {
        Err("优先级不能为空"@)
    } else {
        Ok(ascii_lower(value))
    }
}

/// A priority threshold in lower case; the empty one is refused.
pub fn normalize_priority(value: String) -> (r: Result<String, String>)
    ensures
        match r {
            Ok(p) => priority_setting(value@) == Ok::<Seq<char>, Seq<char>>(p@),
            Err(e) => priority_setting(value@) == Err::<Seq<char>, Seq<char>>(e@),
        },
{
    if value.as_str().unicode_len() == 0 {
        return Err(String::from_str("优先级不能为空"));
    }
    Ok(lowercase(value.as_str()))
}

/// The configuration after a switch was named.
pub open spec fn with_switch(config: ConfigView, switch: Switch) -> ConfigView {
    match switch {
        Switch::Analyze => ConfigView { mode: RunMode::Analyze, ..config },
        Switch::Stream => ConfigView { mode: RunMode::Stream, ..config },
        Switch::AllBoots => ConfigView { boot: BootFilterView::Disabled, ..config },
        Switch::Follow => ConfigView { follow: true, ..config },
        Switch::Kernel => ConfigView { kernel_only: true, ..config },
        Switch::Json => ConfigView { output_json: true, ..config },
        Switch::ShowCommand => ConfigView { show_command: true, ..config },
        Switch::NoDefaultSince => ConfigView { since: None, ..config },
    }
}

/// The configuration after a setting was given a value, or the complaint
/// about the value.
pub open spec fn with_setting(config: ConfigView, setting: Setting, value: Seq<char>) -> Result<
    ConfigView,
    Seq<char>,
> {
    match setting {
        Setting::Since => Ok(ConfigView { since: Some(value), ..config }),
        Setting::Until => Ok(ConfigView { until: Some(value), ..config }),
        Setting::Unit => Ok(ConfigView { units: config.units.push(value), ..config }),
        Setting::Grep => if value.len() == 0 {
            Ok(config)
        } else {
            Ok(ConfigView { grep_terms: config.grep_terms.push(ascii_lower(value)), ..config })
        },
        Setting::Priority => match priority_setting(value) {
            Ok(p) => Ok(ConfigView { priority: p, ..config }),
            Err(e) => Err(e),
        },
        Setting::MaxLines => match positive_number(value, "--max-lines"@) {
            Ok(n) => Ok(ConfigView { max_lines: Some(n), ..config }),
            Err(e) => Err(e),
        },
        Setting::Top => match positive_number(value, "--top"@) {
            Ok(n) => Ok(ConfigView { top: n, ..config }),
            Err(e) => Err(e),
        },
    }
}

/// The configuration after the boot option was given a value in the
/// argument itself; an empty value selects the current boot.
pub open spec fn with_inline_boot(config: ConfigView, value: Seq<char>) -> ConfigView {
    if value.len() == 0 {
        ConfigView { boot: BootFilterView::Current, ..config }
    } else {
        ConfigView { boot: BootFilterView::Value(value), ..config }
    }
}

fn apply_switch(config: &mut Config, switch: Switch)
    ensures
        final(config)@ == with_switch(old(config)@, switch),
{
    match switch {
        Switch::Analyze => {
            config.mode = RunMode::Analyze;
        },
        Switch::Stream => {
            config.mode = RunMode::Stream;
        },
        Switch::AllBoots => {
            config.boot = BootFilter::Disabled;
        },
        Switch::Follow => {
            config.follow = true;
        },
        Switch::Kernel => {
            config.kernel_only = true;
        },
        Switch::Json => {
            config.output_json = true;
        },
        Switch::ShowCommand => {
            config.show_command = true;
        },
        Switch::NoDefaultSince => {
            config.since = None;
        },
    }
}

fn apply_setting(config: &mut Config, setting: Setting, value: String) -> (r: Result<(), String>)
    ensures
        match r {
            Ok(_) => with_setting(old(config)@, setting, value@) == Ok::<ConfigView, Seq<char>>(
                final(config)@,
            ),
            Err(e) => with_setting(old(config)@, setting, value@) == Err::<ConfigView, Seq<char>>(
                e@,
            ),
        },
{
    match setting {
        Setting::Since => {
            config.since = Some(value);
        },
        Setting::Until => {
            config.until = Some(value);
        },
        Setting::Unit => {
            config.units.push(value);
            assert(config.units.deep_view() == old(config).units.deep_view().push(value@));
        },
        Setting::Grep => {
            if value.as_str().unicode_len() != 0 {
                let term = lowercase(value.as_str());
                config.grep_terms.push(term);
                assert(config.grep_terms.deep_view() == old(config).grep_terms.deep_view().push(
                    term@,
                ));
            }
        },
        Setting::Priority => {
            match normalize_priority(value) {
                Ok(p) => {
                    config.priority = p;
                },
                Err(e) => {
                    return Err(e);
                },
            }
        },
        Setting::MaxLines => {
            match parse_positive_usize(value.as_str(), "--max-lines") {
                Ok(n) => {
                    config.max_lines = Some(n);
                },
                Err(e) => {
                    return Err(e);
                },
            }
        },
        Setting::Top => {
            match parse_positive_usize(value.as_str(), "--top") {
                Ok(n) => {
                    config.top = n;
                },
                Err(e) => {
                    return Err(e);
                },
            }
        },
    }
    Ok(())
}

fn apply_inline_boot(config: &mut Config, value: String)
    ensures
        final(config)@ == with_inline_boot(old(config)@, value@),
{
    if value.as_str().unicode_len() == 0 {
        config.boot = BootFilter::Current;
    } else {
        config.boot = BootFilter::Value(value);
    }
}

fn flag_of(setting: Setting) -> (r: &'static str)
    ensures
        r@ == setting_flag(setting),
{
    match setting {
        Setting::Since => "--since",
        Setting::Until => "--until",
        Setting::Unit => "--unit",
        Setting::Grep => "--grep",
        Setting::Priority => "--priority",
        Setting::MaxLines => "--max-lines",
        Setting::Top => "--top",
    }
}

/// Whether a word is a boot offset: decimal digits, after at most one
/// minus sign.
pub open spec fn boot_offset(value: Seq<char>) -> bool {
    let digits = if value.len() > 0 && value[0] == '-' {
        value.drop_first()
    } else {
        value
    };
    digits.len() > 0 && all_digits(digits)
}

/// Whether a word is a boot offset.
pub fn is_boot_offset(value: &str) -> (r: bool)
    ensures
        r == boot_offset(value@),
{
    let v = chars_of(value);
    let start: usize = if v.len() > 0 && v[0] == '-' {
        1
    } else {
        0
    };
    let ghost digits = v@.skip(start as int);
    if start == v.len() {
        return false;
    }
    let mut i: usize = start;
    while i < v.len()
        invariant
            start <= i <= v@.len(),
            v@ == value@,
            start == (if v@.len() > 0 && v@[0] == '-' {
                1int
            } else {
                0int
            }),
            digits == v@.skip(start as int),
            forall|k: int| 0 <= k < i - start ==> is_digit(#[trigger] digits[k]),
        decreases v@.len() - i,
    {
        if !(v[i] >= '0' && v[i] <= '9') {
            assert(!is_digit(digits[i - start]));
            assert(v@.skip(0) == v@);
            return false;
        }
        i += 1;
    }
    assert(v@.skip(0) == v@);
    true
}

/// Whether the word after the boot option at `index` is its value: any
/// word that is not an option, or a boot offset.
pub open spec fn boot_value_follows(args: Seq<Seq<char>>, index: int) -> bool {
    index + 1 < args.len() && (!(args[index + 1].len() > 0 && args[index + 1][0] == '-')
        || boot_offset(args[index + 1]))
}

/// Whether the word after the boot option at `index` is its value.
pub fn has_next_boot_value(args: &[String], index: usize) -> (r: bool)
    ensures
        r == boot_value_follows(args.deep_view(), index as int),
{
    let size: usize = args.len();
    if size == 0 || index >= size - 1 {
        return false;
    }
    let next = &args[index + 1];
    assert(args.deep_view()[index + 1] == next@);
    let v = chars_of(next.as_str());
    if !(v.len() > 0 && v[0] == '-') {
        return true;
    }
    is_boot_offset(next.as_str())
}

/// The complaint about a setting that ends the argument list.
pub open spec fn missing_value(flag: Seq<char>) -> Seq<char> {
    "缺少 "@ + flag + " 的参数值"@
}

/// Moves on to the word after the setting at `index` and returns it;
/// complains where no word follows.
pub fn get_next_value(args: &[String], index: &mut usize, flag: &str) -> (r: Result<
    String,
    String,
>)
    ensures
        match r {
            Ok(value) => *old(index) + 1 < args@.len() && *final(index) == *old(index) + 1
                && value@ == args@[*final(index) as int]@,
            Err(e) => *old(index) + 1 >= args@.len() && *final(index) == *old(index) && e@
                == missing_value(flag@),
        },
{
    let size: usize = args.len();
    if size == 0 || *index >= size - 1 {
        return Err(String::from_str("缺少 ").concat(flag).concat(" 的参数值"));
    }
    *index += 1;
    Ok(args[*index].clone())
}

/// The action of a command.
pub open spec fn command_action(command: Command) -> ActionView {
    match command {
        Command::Help => ActionView::Help,
        Command::Version => ActionView::Version,
        Command::Doctor => ActionView::Doctor,
        Command::ListBoots => ActionView::ListBoots,
    }
}

/// The complaint about a command that does not stand alone.
pub open spec fn not_alone(arg: Seq<char>) -> Seq<char> {
    arg + " 不能与其他参数同时使用"@
}

/// Grants `action` where the command `arg` is the only argument.
pub fn standalone_action(args: &[String], arg: &str, action: Action) -> (r: Result<Action, String>)
    ensures
        match r {
            Ok(a) => args@.len() == 1 && a == action,
            Err(e) => args@.len() != 1 && e@ == not_alone(arg@),
        },
{
    if args.len() != 1 {
        return Err(String::from_str(arg).concat(" 不能与其他参数同时使用"));
    }
    Ok(action)
}

/// The complaint about a word that is no option.
pub open spec fn unknown_option(arg: Seq<char>) -> Seq<char> {
    "未知选项："@ + arg + "\n\n"@ + HELP_TEXT@
}

/// What the arguments from position `i` on ask for, given the
/// configuration that the earlier ones have made.
pub open spec fn parse_from(args: Seq<Seq<char>>, i: int, config: ConfigView) -> Result<
    ActionView,
    Seq<char>,
>
    decreases args.len() - i,
{
    if i < 0 || i >= args.len() {
        match validation_error(config) {
            Some(e) => Err(e),
            None => Ok(ActionView::Run(config)),
        }
    } else {
        match shape_of(args[i]) {
            ArgShapeView::Command(Command::Help) => Ok(ActionView::Help),
            ArgShapeView::Command(c) => if args.len() == 1 {
                Ok(command_action(c))
            } else {
                Err(not_alone(args[i]))
            },
            ArgShapeView::Switch(s) => parse_from(args, i + 1, with_switch(config, s)),
            ArgShapeView::Setting(s) => if i + 1 >= args.len() {
                Err(missing_value(setting_flag(s)))
            } else {
                match with_setting(config, s, args[i + 1]) {
                    Ok(next) => parse_from(args, i + 2, next),
                    Err(e) => Err(e),
                }
            },
            ArgShapeView::Boot => if boot_value_follows(args, i) {
                parse_from(
                    args,
                    i + 2,
                    ConfigView { boot: BootFilterView::Value(args[i + 1]), ..config },
                )
            } else {
                parse_from(args, i + 1, ConfigView { boot: BootFilterView::Current, ..config })
            },
            ArgShapeView::Inline(s, value) => match with_setting(config, s, value) {
                Ok(next) => parse_from(args, i + 1, next),
                Err(e) => Err(e),
            },
            ArgShapeView::InlineBoot(value) => parse_from(
                args,
                i + 1,
                with_inline_boot(config, value),
            ),
            ArgShapeView::Unknown => Err(unknown_option(args[i])),
        }
    }
}

/// What an argument list asks for: the arguments are read from left to
/// right, starting from the default configuration; a command ends the
/// reading, and the configuration that the options leave must be valid.
pub open spec fn parse_outcome(args: Seq<Seq<char>>) -> Result<ActionView, Seq<char>> {
    parse_from(args, 0, default_config())
}

/// The configuration that a command line asks to run with is valid,
/// whatever the command line is.
pub proof fn lemma_parsed_configuration_is_valid(args: Seq<Seq<char>>)
    ensures
        parse_outcome(args) matches Ok(ActionView::Run(config)) ==> !stream_only_option_misused(
            config,
        ),
{
    lemma_parsed_from_is_valid(args, 0, default_config());
}

proof fn lemma_parsed_from_is_valid(args: Seq<Seq<char>>, i: int, config: ConfigView)
    ensures
        parse_from(args, i, config) matches Ok(ActionView::Run(end)) ==> !stream_only_option_misused(
            end,
        ),
    decreases args.len() - i,
{
    if 0 <= i < args.len() {
        match shape_of(args[i]) {
            ArgShapeView::Command(_) => {},
            ArgShapeView::Switch(s) => {
                lemma_parsed_from_is_valid(args, i + 1, with_switch(config, s));
            },
            ArgShapeView::Setting(s) => {
                if i + 1 < args.len() {
                    if let Ok(next) = with_setting(config, s, args[i + 1]) {
                        lemma_parsed_from_is_valid(args, i + 2, next);
                    }
                }
            },
            ArgShapeView::Boot => {
                if boot_value_follows(args, i) {
                    lemma_parsed_from_is_valid(
                        args,
                        i + 2,
                        ConfigView { boot: BootFilterView::Value(args[i + 1]), ..config },
                    );
                } else {
                    lemma_parsed_from_is_valid(
                        args,
                        i + 1,
                        ConfigView { boot: BootFilterView::Current, ..config },
                    );
                }
            },
            ArgShapeView::Inline(s, value) => {
                if let Ok(next) = with_setting(config, s, value) {
                    lemma_parsed_from_is_valid(args, i + 1, next);
                }
            },
            ArgShapeView::InlineBoot(value) => {
                lemma_parsed_from_is_valid(args, i + 1, with_inline_boot(config, value));
            },
            ArgShapeView::Unknown => {},
        }
    }
}

/// The outcome of reading a command line, by the view of what it gives.
pub open spec fn outcome_view(r: Result<Action, String>) -> Result<ActionView, Seq<char>> {
    match r {
        Ok(a) => Ok(a@),
        Err(e) => Err(e@),
    }
}

fn action_of(command: Command) -> (r: Action)
    ensures
        r@ == command_action(command),
{
    match command {
        Command::Help => Action::Help,
        Command::Version => Action::Version,
        Command::Doctor => Action::Doctor,
        Command::ListBoots => Action::ListBoots,
    }
}

/// Reads a command line.
pub fn parse_args(args: &[String]) -> (r: Result<Action, String>)
    ensures
        outcome_view(r) == parse_outcome(args.deep_view()),
{
    let ghost words = args.deep_view();
    let mut config = Config::default();
    let mut i: usize = 0;
    while i < args.len()
        invariant
            i <= args@.len(),
            words == args.deep_view(),
            parse_from(words, i as int, config@) == parse_outcome(words),
        decreases args@.len() - i,
    {
        let arg = &args[i];
        assert(words[i as int] == arg@);
        match classify_argument(arg.as_str()) {
            ArgShape::Command(Command::Help) => {
                return Ok(Action::Help);
            },
            ArgShape::Command(c) => {
                return standalone_action(args, arg.as_str(), action_of(c));
            },
            ArgShape::Switch(s) => {
                apply_switch(&mut config, s);
            },
            ArgShape::Setting(s) => {
                match get_next_value(args, &mut i, flag_of(s)) {
                    Err(e) => {
                        return Err(e);
                    },
                    Ok(value) => {
                        assert(words[i as int] == value@);
                        match apply_setting(&mut config, s, value) {
                            Err(e) => {
                                return Err(e);
                            },
                            Ok(_) => {},
                        }
                    },
                }
            },
            ArgShape::Boot => {
                if has_next_boot_value(args, i) {
                    i += 1;
                    assert(words[i as int] == args@[i as int]@);
                    config.boot = BootFilter::Value(args[i].clone());
                } else {
                    config.boot = BootFilter::Current;
                }
            },
            ArgShape::Inline(s, value) => {
                match apply_setting(&mut config, s, value) {
                    Err(e) => {
                        return Err(e);
                    },
                    Ok(_) => {},
                }
            },
            ArgShape::InlineBoot(value) => {
                apply_inline_boot(&mut config, value);
            },
            ArgShape::Unknown => {
                let message = String::from_str("未知选项：").concat(arg.as_str()).concat(
                    "\n\n",
                ).concat(help_text());
                return Err(message);
            },
        }
        i += 1;
    }
    match validate_config(&config) {
        Err(e) => Err(e),
        Ok(_) => Ok(Action::Run(config)),
    }
}

} // verus!
