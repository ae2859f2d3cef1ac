//! The command line of the query tool that a request calls for, and its
//! rendering for the operator.

use vstd::prelude::*;
use vstd::string::*;
use crate::config::{BootFilter, BootFilterView, Config, ConfigView};
use crate::text::{chars_of, string_of};

verus! {

/// The program that serves the journal.
pub const QUERY_TOOL: &'static str = "journalctl";

/// The option `flag` with its value, where there is a value.
pub open spec fn optional_pair(flag: Seq<char>, value: Option<Seq<char>>) -> Seq<Seq<char>> {
    match value {
        Some(v) => seq![flag, v],
        None => Seq::empty(),
    }
}

/// One unit option for each unit, in order.
pub open spec fn unit_args(units: Seq<Seq<char>>) -> Seq<Seq<char>>
    decreases units.len(),
{
    if units.len() == 0 {
        Seq::empty()
    } else {
        unit_args(units.drop_last()) + seq!["--unit"@, units.last()]
    }
}

/// The boot option that a boot filter calls for: none for all boots, the
/// bare option for the current boot, the option with its value for a
/// named boot.
pub open spec fn boot_args(boot: BootFilterView) -> Seq<Seq<char>> {
    match boot {
        BootFilterView::Disabled => Seq::empty(),
        BootFilterView::Current => seq!["--boot"@],
        BootFilterView::Value(v) => seq!["--boot"@, v],
    }
}

/// The arguments that both kinds of request give the query tool: the
/// kernel switch, the time window, the units, the boot and the priority
/// threshold, in this order.
pub open spec fn common_query_args(config: ConfigView) -> Seq<Seq<char>> {
    (if config.kernel_only {
        seq!["--dmesg"@]
    } else {
        Seq::empty()
    }) + optional_pair("--since"@, config.since) + optional_pair("--until"@, config.until)
        + unit_args(config.units) + boot_args(config.boot) + seq!["--priority="@ + config.priority]
}

/// The arguments of the query tool for a stream.
pub open spec fn stream_query_args(config: ConfigView) -> Seq<Seq<char>> {
    seq!["--no-pager"@] + (if config.follow {
        seq!["--follow"@]
    } else {
        Seq::empty()
    }) + common_query_args(config) + seq![
        if config.output_json {
            "--output=json"@
        } else {
            "--output=short-iso"@
        },
    ]
}

/// The arguments of the query tool for an analysis: records as JSON,
/// with the fields that the analysis reads.
pub open spec fn analysis_query_args(config: ConfigView) -> Seq<Seq<char>> {
    seq!["--no-pager"@] + common_query_args(config) + seq![
        "--output=json"@,
        "--output-fields=PRIORITY,MESSAGE,_SYSTEMD_UNIT,_EXE,_COMM,SYSLOG_IDENTIFIER"@,
    ]
}

fn push_arg(args: &mut Vec<String>, arg: String)
    ensures
        final(args).deep_view() == old(args).deep_view() + seq![arg@],
{
    args.push(arg);
    assert(args.deep_view() == old(args).deep_view() + seq![arg@]);
}

fn push_optional_pair(args: &mut Vec<String>, flag: &str, value: &Option<String>)
    ensures
        final(args).deep_view() == old(args).deep_view() + optional_pair(flag@, value.deep_view()),
{
    if let Some(v) = value {
        push_arg(args, String::from_str(flag));
        push_arg(args, v.clone());
        assert(old(args).deep_view() + seq![flag@] + seq![v@] == old(args).deep_view() + seq![
            flag@,
            v@,
        ]);
    } else {
        assert(old(args).deep_view() + Seq::<Seq<char>>::empty() == old(args).deep_view());
    }
}

fn push_units(args: &mut Vec<String>, units: &Vec<String>)
    ensures
        final(args).deep_view() == old(args).deep_view() + unit_args(units.deep_view()),
{
    let ghost start = args.deep_view();
    let ghost names = units.deep_view();
    let mut i: usize = 0;
    assert(names.take(0) == Seq::<Seq<char>>::empty());
    assert(start + Seq::<Seq<char>>::empty() == start);
    while i < units.len()
        invariant
            i <= units@.len(),
            names == units.deep_view(),
            args.deep_view() == start + unit_args(names.take(i as int)),
        decreases units@.len() - i,
    {
        let ghost before = args.deep_view();
        push_arg(args, String::from_str("--unit"));
        push_arg(args, units[i].clone());
        proof {
            assert(names.take(i + 1).drop_last() == names.take(i as int));
            assert(names.take(i + 1).last() == units@[i as int]@);
            assert(before + seq!["--unit"@] + seq![units@[i as int]@] == start + (unit_args(
                names.take(i as int),
            ) + seq!["--unit"@, units@[i as int]@]));
        }
        i += 1;
    }
    assert(names.take(units@.len() as int) == names);
}

fn push_boot(args: &mut Vec<String>, boot: &BootFilter)
    ensures
        final(args).deep_view() == old(args).deep_view() + boot_args(boot@),
{
    let ghost start = args.deep_view();
    match boot {
        BootFilter::Disabled => {
            assert(start + Seq::<Seq<char>>::empty() == start);
        },
        BootFilter::Current => {
            push_arg(args, String::from_str("--boot"));
        },
        BootFilter::Value(value) => {
            push_arg(args, String::from_str("--boot"));
            push_arg(args, value.clone());
            assert(start + seq!["--boot"@] + seq![value@] == start + seq!["--boot"@, value@]);
        },
    }
}

fn push_kernel_switch(args: &mut Vec<String>, kernel_only: bool)
    ensures
        final(args).deep_view() == old(args).deep_view() + (if kernel_only {
            seq!["--dmesg"@]
        } else {
            Seq::<Seq<char>>::empty()
        }),
{
    if kernel_only {
        push_arg(args, String::from_str("--dmesg"));
    } else {
        assert(args.deep_view() + Seq::<Seq<char>>::empty() == args.deep_view());
    }
}

proof fn lemma_joined(
    s: Seq<Seq<char>>,
    a: Seq<Seq<char>>,
    b: Seq<Seq<char>>,
    c: Seq<Seq<char>>,
    d: Seq<Seq<char>>,
    e: Seq<Seq<char>>,
    f: Seq<Seq<char>>,
)
    ensures
        s + a + b + c + d + e + f == s + (a + b + c + d + e + f),
{
    assert(s + a + b + c + d + e + f =~= s + (a + b + c + d + e + f));
}

/// Appends the arguments that both kinds of request give the query tool.
pub fn add_common_query_args(args: &mut Vec<String>, config: &Config)
    ensures
        final(args).deep_view() == old(args).deep_view() + common_query_args(config@),
{
    push_kernel_switch(args, config.kernel_only);
    push_optional_pair(args, "--since", &config.since);
    push_optional_pair(args, "--until", &config.until);
    push_units(args, &config.units);
    push_boot(args, &config.boot);
    push_arg(args, String::from_str("--priority=").concat(config.priority.as_str()));
    proof {
        let c = config@;
        lemma_joined(
            old(args).deep_view(),
            if c.kernel_only {
                seq!["--dmesg"@]
            } else {
                Seq::<Seq<char>>::empty()
            },
            optional_pair("--since"@, c.since),
            optional_pair("--until"@, c.until),
            unit_args(c.units),
            boot_args(c.boot),
            seq!["--priority="@ + c.priority],
        );
    }
}

/// The arguments of the query tool for a stream.
pub fn build_journalctl_command_for_stream(config: &Config) -> (r: Vec<String>)
    ensures
        r.deep_view() == stream_query_args(config@),
{
    let mut args: Vec<String> = Vec::new();
    assert(args.deep_view() == Seq::<Seq<char>>::empty());
    push_arg(&mut args, String::from_str("--no-pager"));
    if config.follow {
        push_arg(&mut args, String::from_str("--follow"));
    }
    let ghost head = args.deep_view();
    assert(head == seq!["--no-pager"@] + (if config.follow {
        seq!["--follow"@]
    } else {
        Seq::<Seq<char>>::empty()
    }));
    add_common_query_args(&mut args, config);
    if config.output_json {
        push_arg(&mut args, String::from_str("--output=json"));
    } else {
        push_arg(&mut args, String::from_str("--output=short-iso"));
    }
    args
}

/// The arguments of the query tool for an analysis.
pub fn build_journalctl_command_for_analysis(config: &Config) -> (r: Vec<String>)
    ensures
        r.deep_view() == analysis_query_args(config@),
{
    let mut args: Vec<String> = Vec::new();
    assert(args.deep_view() == Seq::<Seq<char>>::empty());
    push_arg(&mut args, String::from_str("--no-pager"));
    add_common_query_args(&mut args, config);
    let ghost body = args.deep_view();
    push_arg(&mut args, String::from_str("--output=json"));
    push_arg(
        &mut args,
        String::from_str(
            "--output-fields=PRIORITY,MESSAGE,_SYSTEMD_UNIT,_EXE,_COMM,SYSLOG_IDENTIFIER",
        ),
    );
    assert(args.deep_view() == body + seq![
        "--output=json"@,
        "--output-fields=PRIORITY,MESSAGE,_SYSTEMD_UNIT,_EXE,_COMM,SYSLOG_IDENTIFIER"@,
    ]);
    args
}

/// Whether a shell takes a character for itself without quotes: a
/// letter or digit of ASCII, or one of `_ - . / : +`.
pub open spec fn is_plain(c: char) -> bool {
    ||| 'a' <= c <= 'z'
    ||| 'A' <= c <= 'Z'
    ||| '0' <= c <= '9'
    ||| c == '_'
    ||| c == '-'
    ||| c == '.'
    ||| c == '/'
    ||| c == ':'
    ||| c == '+'
}

/// Whether a shell takes every character of a word for itself.
pub open spec fn all_plain(value: Seq<char>) -> bool {
    forall|i: int| 0 <= i < value.len() ==> is_plain(#[trigger] value[i])
}

/// A text with each single quote written so that it can stand between
/// single quotes: the quotes are closed, the quote is given between
/// double quotes, and the quotes are opened again.
pub open spec fn quotes_escaped(value: Seq<char>) -> Seq<char>
    decreases value.len(),
{
    if value.len() == 0 {
        Seq::empty()
    } else if value.last() == '\'' {
        quotes_escaped(value.drop_last()) + seq!['\'', '"', '\'', '"', '\'']
    } else {
        quotes_escaped(value.drop_last()).push(value.last())
    }
}

/// A word as a shell has to be given it: a pair of quotes for the empty
/// word, a word of plain characters as it is, any other between single
/// quotes.
pub open spec fn shell_escaped(value: Seq<char>) -> Seq<char> {
    if value.len() == 0 {
        seq!['\'', '\'']
    } else if all_plain(value) {
        value
    } else {
        seq!['\''] + quotes_escaped(value) + seq!['\'']
    }
}

fn plain_char(c: char) -> (r: bool)
    ensures
        r == is_plain(c),
{
    ('a' <= c && c <= 'z') || ('A' <= c && c <= 'Z') || ('0' <= c && c <= '9') || c == '_' || c
        == '-' || c == '.' || c == '/' || c == ':' || c == '+'
}

/// Writes a word as a shell has to be given it.
pub fn shell_escape(value: &str) -> (r: String)
    ensures
        r@ == shell_escaped(value@),
{
    let chars = chars_of(value);
    if chars.len() == 0 {
        let mut quotes: Vec<char> = Vec::new();
        quotes.push('\'');
        quotes.push('\'');
        assert(quotes@ == seq!['\'', '\'']);
        return string_of(quotes.as_slice());
    }
    let mut plain = true;
    let mut i: usize = 0;
    while i < chars.len()
        invariant
            i <= chars@.len(),
            plain == all_plain(chars@.take(i as int)),
        decreases chars@.len() - i,
    {
        if !plain_char(chars[i]) {
            plain = false;
        }
        proof {
            let now = chars@.take(i + 1);
            assert(now[i as int] == chars@[i as int]);
            if all_plain(chars@.take(i as int)) && is_plain(chars@[i as int]) {
                assert forall|k: int| 0 <= k < now.len() implies is_plain(#[trigger] now[k]) by {
                    if k < i {
                        assert(now[k] == chars@.take(i as int)[k]);
                    }
                }
            }
            if all_plain(now) {
                assert forall|k: int| 0 <= k < i implies is_plain(
                    #[trigger] chars@.take(i as int)[k],
                ) by {
                    assert(chars@.take(i as int)[k] == now[k]);
                }
            }
        }
        i += 1;
    }
    assert(chars@.take(chars@.len() as int) == chars@);
    if plain {
        return string_of(chars.as_slice());
    }
    let mut out: Vec<char> = Vec::new();
    out.push('\'');
    let mut j: usize = 0;
    while j < chars.len()
        invariant
            j <= chars@.len(),
            out@ == seq!['\''] + quotes_escaped(chars@.take(j as int)),
        decreases chars@.len() - j,
    {
        let ghost before = out@;
        let ghost done = quotes_escaped(chars@.take(j as int));
        proof {
            assert(chars@.take(j + 1).drop_last() == chars@.take(j as int));
            assert(chars@.take(j + 1).last() == chars@[j as int]);
        }
        if chars[j] == '\'' {
            out.push('\'');
            out.push('"');
            out.push('\'');
            out.push('"');
            out.push('\'');
            assert(out@ == seq!['\''] + (done + seq!['\'', '"', '\'', '"', '\'']));
        } else {
            out.push(chars[j]);
            assert(out@ == seq!['\''] + done.push(chars@[j as int]));
        }
        j += 1;
    }
    out.push('\'');
    string_of(out.as_slice())
}

/// The words of a command, each after a blank and as a shell has to be
/// given it.
pub open spec fn rendered_args(args: Seq<Seq<char>>) -> Seq<char>
    decreases args.len(),
{
    if args.len() == 0 {
        Seq::empty()
    } else {
        rendered_args(args.drop_last()) + seq![' '] + shell_escaped(args.last())
    }
}

/// A command as it can be typed into a shell.
pub open spec fn rendered_command(program: Seq<char>, args: Seq<Seq<char>>) -> Seq<char> {
    program + rendered_args(args)
}

/// Writes a command as it can be typed into a shell.
pub fn render_command(program: &str, args: &[String]) -> (r: String)
    ensures
        r@ == rendered_command(program@, args.deep_view()),
{
    let mut rendered = String::from_str(program);
    let ghost words = args.deep_view();
    assert(words.take(0) == Seq::<Seq<char>>::empty());
    assert(program@ + Seq::<char>::empty() == program@);
    let mut i: usize = 0;
    while i < args.len()
        invariant
            i <= args@.len(),
            words == args.deep_view(),
            rendered@ == program@ + rendered_args(words.take(i as int)),
        decreases args@.len() - i,
    {
        let ghost before = rendered@;
        rendered.push(' ');
        let word = shell_escape(args[i].as_str());
        rendered = rendered.concat(word.as_str());
        proof {
            assert(words.take(i + 1).drop_last() == words.take(i as int));
            assert(words.take(i + 1).last() == args@[i as int]@);
            assert(before.push(' ') + word@ == program@ + (rendered_args(words.take(i as int))
                + seq![' '] + word@));
        }
        i += 1;
    }
    assert(words.take(args@.len() as int) == words);
    rendered
}

/// What a trial run of the query tool tells: a run that ended well, that
/// the tool can be used; one that ended badly, that it is there and
/// cannot be used; and a failure to run it, that it was not found.
pub open spec fn tool_check(probe: Result<bool, Seq<char>>) -> Result<(), Seq<char>> {
    match probe {
        Ok(success) => if success {
            Ok(())
        } else {
            Err("journalctl 存在但不可用"@)
        },
        Err(reason) => Err("找不到 journalctl："@ + reason),
    }
}

/// The outcome of a trial run, by its view.
pub open spec fn probe_view(probe: Result<bool, String>) -> Result<bool, Seq<char>> {
    match probe {
        Ok(success) => Ok(success),
        Err(reason) => Err(reason@),
    }
}

/// Judges a trial run of the query tool: whether it ended well, or why
/// it could not be made.
pub fn check_query_tool(probe: Result<bool, String>) -> (r: Result<(), String>)
    ensures
        match r {
            Ok(_) => tool_check(probe_view(probe)) is Ok,
            Err(e) => tool_check(probe_view(probe)) == Err::<(), Seq<char>>(e@),
        },
{
    match probe {
        Ok(success) => if success {
            Ok(())
        } else {
            Err(String::from_str("journalctl 存在但不可用"))
        },
        Err(reason) => Err(String::from_str("找不到 journalctl：").concat(reason.as_str())),
    }
}

} // verus!
