//! What the client concludes from its look at the machine: whether the
//! user may reach the daemon, how the socket stands, and which boots the
//! journal knows.

use vstd::prelude::*;
use vstd::string::*;
use crate::config::SOCKET_PATH;
use crate::decimal::{decimal, decimal_string, octal, octal_string, parse_unsigned, parsed_unsigned};
use crate::text::{chars_of, is_space, is_space_char, matches_at, occurs_at, string_of_range, trim, trim_bounds};

verus! {

/// The group whose members may use the socket.
pub const SOCKET_GROUP: &'static str = "logtool";

/// The access rights that the socket should have.
pub const SOCKET_MODE: u32 = 0o660;

/// Whether `word` stands in `text` with white space or an end of the
/// text on either side.
pub open spec fn word_occurs(text: Seq<char>, word: Seq<char>) -> bool {
    exists|i: int| word_at(text, word, i)
}

/// Whether `word` stands in `text` at place `i`, with white space or an
/// end of the text on either side.
pub open spec fn word_at(text: Seq<char>, word: Seq<char>, i: int) -> bool {
    &&& occurs_at(text, word, i)
    &&& i == 0 || is_space(text[i - 1])
    &&& i + word.len() == text.len() || is_space(text[i + word.len()])
}

/// Whether `word` is one of the words of `text`.
pub fn has_word(text: &str, word: &str) -> (r: bool)
    ensures
        r == word_occurs(text@, word@),
{
    let hay = chars_of(text);
    let needle = chars_of(word);
    if needle.len() > hay.len() {
        return false;
    }
    let size: usize = hay.len();
    let width: usize = needle.len();
    let last: usize = size - width;
    let mut i: usize = 0;
    loop
        invariant
            last == hay@.len() - needle@.len(),
            size == hay@.len(),
            width == needle@.len(),
            hay@ == text@,
            needle@ == word@,
            i <= last,
            forall|k: int| 0 <= k < i ==> !word_at(text@, word@, k),
        decreases last - i,
    {
        if matches_at(hay.as_slice(), needle.as_slice(), i) {
            let starts = i == 0 || is_space_char(hay[i - 1]);
            let ends = i == last || is_space_char(hay[i + width]);
            if starts && ends {
                assert(word_at(text@, word@, i as int));
                return true;
            }
        }
        if i == last {
            return false;
        }
        i += 1;
    }
}

/// How the user stands to the socket.
#[derive(Debug, Clone, Copy, PartialEq, Eq, Structural)]
pub enum UserAccess {
    Root,
    InGroup,
    NotInGroup,
    Unknown,
}

/// The number of the user, as the answer to the question for it gives
/// it.
pub open spec fn user_number(answer: Option<Seq<char>>) -> Option<nat> {
    match answer {
        Some(text) => parsed_unsigned(trim(text), u32::MAX as nat),
        None => None,
    }
}

/// How the user stands to the socket, given the answers to the
/// questions for the number of the user and for the names of the groups,
/// where there are answers: the user with the number 0 is root; any
/// other is judged by the groups.
pub open spec fn access_of(uid_answer: Option<Seq<char>>, groups_answer: Option<Seq<char>>) -> UserAccess {
    if user_number(uid_answer) == Some(0nat) {
        UserAccess::Root
    } else {
        match groups_answer {
            Some(groups) => if word_occurs(groups, SOCKET_GROUP@) {
                UserAccess::InGroup
            } else {
                UserAccess::NotInGroup
            },
            None => UserAccess::Unknown,
        }
    }
}

/// Judges how the user stands to the socket.
pub fn user_access(uid_answer: &Option<String>, groups_answer: &Option<String>) -> (r: UserAccess)
    ensures
        r == access_of(uid_answer.deep_view(), groups_answer.deep_view()),
{
    if let Some(text) = uid_answer {
        let chars = chars_of(text.as_str());
        let (a, b) = trim_bounds(chars.as_slice());
        let digits = string_of_range(chars.as_slice(), a, b);
        let inner = chars_of(digits.as_str());
        if let Some(n) = parse_unsigned(inner.as_slice(), u32::MAX as u64) {
            if n == 0 {
                return UserAccess::Root;
            }
        }
    }
    match groups_answer {
        Some(groups) => if has_word(groups.as_str(), SOCKET_GROUP) {
            UserAccess::InGroup
        } else {
            UserAccess::NotInGroup
        },
        None => UserAccess::Unknown,
    }
}

/// What the client says of the user's access.
pub open spec fn access_lines(access: UserAccess) -> Seq<Seq<char>> {
    match access {
        UserAccess::Root => seq!["[OK] 当前用户为 root"@],
        UserAccess::InGroup => seq!["[OK] 当前用户在 logtool 组内"@],
        UserAccess::NotInGroup => seq![
            "[WARN] 当前用户不在 logtool 组内，可能无法访问 "@ + SOCKET_PATH@,
            "       运行：sudo usermod -aG logtool $USER && newgrp logtool"@,
        ],
        UserAccess::Unknown => seq!["[WARN] 无法检测当前用户组信息（命令 id -nG 失败）"@],
    }
}

/// Writes what the client says of the user's access.
pub fn user_access_lines(access: UserAccess) -> (r: Vec<String>)
    ensures
        r.deep_view() == access_lines(access),
{
    let mut lines: Vec<String> = Vec::new();
    match access {
        UserAccess::Root => {
            lines.push(String::from_str("[OK] 当前用户为 root"));
        },
        UserAccess::InGroup => {
            lines.push(String::from_str("[OK] 当前用户在 logtool 组内"));
        },
        UserAccess::NotInGroup => {
            lines.push(
                String::from_str("[WARN] 当前用户不在 logtool 组内，可能无法访问 ").concat(
                    SOCKET_PATH,
                ),
            );
            lines.push(
                String::from_str("       运行：sudo usermod -aG logtool $USER && newgrp logtool"),
            );
        },
        UserAccess::Unknown => {
            lines.push(String::from_str("[WARN] 无法检测当前用户组信息（命令 id -nG 失败）"));
        },
    }
    assert(lines.deep_view() == access_lines(access));
    lines
}

/// What the file system tells of the socket.
#[derive(Debug, Clone, Copy, PartialEq, Eq, Structural)]
pub struct SocketFile {
    /// The mode of the file, access rights and more.
    pub mode: u32,
    pub uid: u32,
    pub gid: u32,
}

/// The access rights in the mode of a file.
pub open spec fn access_rights(mode: u32) -> u32 {
    mode & 0o777
}

/// What the client says of the socket: where it is there, its access
/// rights, owner and group, and a warning where the rights are not those
/// that the daemon sets; where it is not there, how to start the daemon.
pub open spec fn socket_lines(socket: Option<SocketFile>) -> Seq<Seq<char>> {
    match socket {
        Some(file) => seq![
            "[OK] 检测到 Socket："@ + SOCKET_PATH@ + "（mode="@ + octal(
                access_rights(file.mode) as nat,
            ) + ", uid="@ + decimal(file.uid as nat) + ", gid="@ + decimal(file.gid as nat)
                + "）"@,
        ] + (if access_rights(file.mode) != SOCKET_MODE {
            seq![
                "[WARN] Socket 权限建议为 660，当前为 "@ + octal(access_rights(file.mode) as nat),
            ]
        } else {
            Seq::empty()
        }),
        None => seq![
            "[WARN] 未检测到 Socket："@ + SOCKET_PATH@ + "（守护进程可能未启动）"@,
            "       运行：sudo systemctl start logtool"@,
        ],
    }
}

/// Writes what the client says of the socket.
pub fn socket_status_lines(socket: Option<SocketFile>) -> (r: Vec<String>)
    ensures
        r.deep_view() == socket_lines(socket),
{
    let mut lines: Vec<String> = Vec::new();
    match socket {
        Some(file) => {
            let rights: u32 = file.mode & 0o777;
            let mut found = String::from_str("[OK] 检测到 Socket：").concat(SOCKET_PATH);
            found = found.concat("（mode=");
            found = found.concat(octal_string(rights as u64).as_str());
            found = found.concat(", uid=");
            found = found.concat(decimal_string(file.uid as u64).as_str());
            found = found.concat(", gid=");
            found = found.concat(decimal_string(file.gid as u64).as_str());
            found = found.concat("）");
            lines.push(found);
            let ghost first = lines.deep_view();
            if rights != SOCKET_MODE {
                lines.push(
                    String::from_str("[WARN] Socket 权限建议为 660，当前为 ").concat(
                        octal_string(rights as u64).as_str(),
                    ),
                );
                assert(lines.deep_view() == first + seq![
                    "[WARN] Socket 权限建议为 660，当前为 "@ + octal(rights as nat),
                ]);
            } else {
                assert(lines.deep_view() == first + Seq::<Seq<char>>::empty());
            }
        },
        None => {
            lines.push(
                String::from_str("[WARN] 未检测到 Socket：").concat(SOCKET_PATH).concat(
                    "（守护进程可能未启动）",
                ),
            );
            lines.push(String::from_str("       运行：sudo systemctl start logtool"));
        },
    }
    assert(lines.deep_view() == socket_lines(socket));
    lines
}

/// What the client shows of the boots that the journal knows, given how
/// the query tool ended and what it wrote: its list, or the notice that
/// there is none; and for a tool that failed, the complaint, with what
/// the tool wrote of its failure or else with its exit status.
pub open spec fn boot_list(
    success: bool,
    status: Seq<char>,
    stdout: Seq<char>,
    stderr: Seq<char>,
) -> Result<Seq<char>, Seq<char>> {
    if !success {
        if trim(stderr).len() == 0 {
            Err("journalctl --list-boots 执行失败，退出状态："@ + status)
        } else {
            Err("journalctl --list-boots 执行失败："@ + trim(stderr))
        }
    } else if trim(stdout).len() == 0 {
        Ok("未找到可用启动周期记录。\n"@)
    } else {
        Ok(stdout)
    }
}

/// A text or a complaint, by its view.
pub open spec fn text_result_view(r: Result<String, String>) -> Result<Seq<char>, Seq<char>> {
    match r {
        Ok(text) => Ok(text@),
        Err(e) => Err(e@),
    }
}

/// Decides what the client shows of the boots that the journal knows.
pub fn boot_list_report(success: bool, status: &str, stdout: &str, stderr: &str) -> (r: Result<
    String,
    String,
>)
    ensures
        text_result_view(r) == boot_list(success, status@, stdout@, stderr@),
{
    if !success {
        let chars = chars_of(stderr);
        let (a, b) = trim_bounds(chars.as_slice());
        if a == b {
            return Err(String::from_str("journalctl --list-boots 执行失败，退出状态：").concat(status));
        }
        let reason = string_of_range(chars.as_slice(), a, b);
        return Err(String::from_str("journalctl --list-boots 执行失败：").concat(reason.as_str()));
    }
    let chars = chars_of(stdout);
    let (a, b) = trim_bounds(chars.as_slice());
    if a == b {
        Ok(String::from_str("未找到可用启动周期记录。\n"))
    } else {
        Ok(String::from_str(stdout))
    }
}

} // verus!
