//! The command line of the daemon.

use vstd::prelude::*;
use vstd::string::*;
use crate::text::same_text;

verus! {

/// The usage text of the daemon.
pub const DAEMON_HELP_TEXT: &'static str = "logtool-daemon — 系统日志分析守护进程

用法：
  logtool-daemon [选项]

选项：
  -h, --help          显示此帮助信息
  -F, --foreground    前台运行（调试用，默认即前台）

说明：
  守护进程监听 Unix Socket（/run/logtool.sock），
  接收来自 logtool CLI 的分析请求并返回结果。
  每个连接在独立线程中处理，互不阻塞。

  Socket 权限为 0660（owner + group），需 root 或同组权限才能连接。
  启动时会尝试将 Socket 组设置为 logtool（如果该组存在）。

  建议通过 systemd 管理此服务：
    sudo systemctl start logtool
    sudo systemctl enable logtool
";

/// The usage text of the daemon.
pub fn daemon_help_text() -> (r: &'static str)
    ensures
        r@ == DAEMON_HELP_TEXT@,
{
    DAEMON_HELP_TEXT
}

/// What the arguments of the daemon ask for.
#[derive(Debug, Clone, Copy, PartialEq, Eq, Structural)]
pub struct DaemonFlags {
    /// To stay in the foreground.
    pub foreground: bool,
    /// To show the usage text and leave.
    pub show_help: bool,
}

/// Whether one of the arguments is `long` or `short`.
pub open spec fn names_flag(args: Seq<Seq<char>>, long: Seq<char>, short: Seq<char>) -> bool {
    exists|i: int| 0 <= i < args.len() && (#[trigger] args[i] == long || args[i] == short)
}

fn has_flag(args: &[String], long: &str, short: &str) -> (r: bool)
    ensures
        r == names_flag(args.deep_view(), long@, short@),
{
    let ghost words = args.deep_view();
    let mut i: usize = 0;
    while i < args.len()
        invariant
            i <= args@.len(),
            words == args.deep_view(),
            forall|k: int| 0 <= k < i ==> !(#[trigger] words[k] == long@ || words[k] == short@),
        decreases args@.len() - i,
    {
        assert(words[i as int] == args@[i as int]@);
        if same_text(args[i].as_str(), long) || same_text(args[i].as_str(), short) {
            return true;
        }
        i += 1;
    }
    false
}

/// Reads the arguments of the daemon.
pub fn daemon_flags(args: &[String]) -> (r: DaemonFlags)
    ensures
        r.foreground == names_flag(args.deep_view(), "--foreground"@, "-F"@),
        r.show_help == names_flag(args.deep_view(), "--help"@, "-h"@),
{
    DaemonFlags {
        foreground: has_flag(args, "--foreground", "-F"),
        show_help: has_flag(args, "--help", "-h"),
    }
}

} // verus!
