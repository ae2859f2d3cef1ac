//! The interactive prompt of the client: how a line that was typed is
//! cut into words, and what the words ask for.

use vstd::prelude::*;
use vstd::string::*;
use crate::args::{outcome_view, parse_args, parse_outcome};
use crate::config::{Action, ActionView};
use crate::text::{chars_of, is_space, is_space_char, same_text, string_of, trim, trim_bounds, string_of_range};

verus! {

/// Where the cutting of a line stands: the words that are complete, the
/// word under way, and the quote that is open, if one is.
pub ghost struct SplitState {
    pub words: Seq<Seq<char>>,
    pub current: Seq<char>,
    pub quote: Option<char>,
}

/// The word under way is complete: it joins the words, unless it is
/// empty.
pub open spec fn word_ended(state: SplitState) -> SplitState {
    if state.current.len() > 0 {
        SplitState { words: state.words.push(state.current), current: Seq::empty(), ..state }
    } else {
        state
    }
}

/// The state after the character at place `i`, and the place of the
/// next character to look at. A backslash makes the character behind it
/// part of the word, whatever it is; at the end of the line it stands for
/// itself. Inside quotes everything else but the closing quote is part of
/// the word. Outside, a quote opens, and white space ends the word.
pub open spec fn split_step(line: Seq<char>, i: int, state: SplitState) -> (SplitState, int) {
    let ch = line[i];
    if state.quote == Some(ch) {
        (SplitState { quote: None, ..state }, i + 1)
    } else if ch == '\\' {
        if i + 1 < line.len() {
            (SplitState { current: state.current.push(line[i + 1]), ..state }, i + 2)
        } else {
            (SplitState { current: state.current.push(ch), ..state }, i + 1)
        }
    } else if state.quote is Some {
        (SplitState { current: state.current.push(ch), ..state }, i + 1)
    } else if ch == '"' || ch == '\'' {
        (SplitState { quote: Some(ch), ..state }, i + 1)
    } else if is_space(ch) {
        (word_ended(state), i + 1)
    } else {
        (SplitState { current: state.current.push(ch), ..state }, i + 1)
    }
}

/// The state at the end of the line, from the state before place `i`.
pub open spec fn split_from(line: Seq<char>, i: int, state: SplitState) -> SplitState
    decreases line.len() - i,
{
    if i < 0 || i >= line.len() {
        state
    } else {
        let (next, j) = split_step(line, i, state);
        split_from(line, j, next)
    }
}

/// The complaint about a quote that is not closed.
pub open spec fn unclosed_quote() -> Seq<char> {
    "命令存在未闭合引号"@
}

/// The words of a line, cut as a shell cuts them; or the complaint about
/// a quote that the line leaves open.
pub open spec fn split_words(line: Seq<char>) -> Result<Seq<Seq<char>>, Seq<char>> {
    let end = split_from(
        line,
        0,
        SplitState { words: Seq::empty(), current: Seq::empty(), quote: None },
    );
    if end.quote is Some {
        Err(unclosed_quote())
    } else {
        Ok(word_ended(end).words)
    }
}

/// The words of a line or a complaint, by their views.
pub open spec fn words_view(r: Result<Vec<String>, String>) -> Result<Seq<Seq<char>>, Seq<char>> {
    match r {
        Ok(words) => Ok(words.deep_view()),
        Err(e) => Err(e@),
    }
}

fn end_word(words: &mut Vec<String>, current: &mut Vec<char>)
    ensures
        (SplitState { words: final(words).deep_view(), current: final(current)@, quote: None })
            == word_ended(
            SplitState { words: old(words).deep_view(), current: old(current)@, quote: None },
        ),
{
    if current.len() > 0 {
        words.push(string_of(current.as_slice()));
        assert(words.deep_view() == old(words).deep_view().push(old(current)@));
        current.clear();
    }
}

/// Cuts a line into words.
pub fn split_interactive_line(line: &str) -> (r: Result<Vec<String>, String>)
    ensures
        words_view(r) == split_words(line@),
{
    let chars = chars_of(line);
    let size: usize = chars.len();
    let mut words: Vec<String> = Vec::new();
    let mut current: Vec<char> = Vec::new();
    let mut quote: Option<char> = None;
    assert(words.deep_view() == Seq::<Seq<char>>::empty());
    let mut i: usize = 0;
    while i < size
        invariant
            i <= size == chars@.len(),
            chars@ == line@,
            split_from(
                line@,
                i as int,
                SplitState { words: words.deep_view(), current: current@, quote },
            ) == split_from(
                line@,
                0,
                SplitState { words: Seq::empty(), current: Seq::empty(), quote: None },
            ),
        decreases size - i,
    {
        let ch = chars[i];
        let ghost at = i as int;
        let ghost state = SplitState { words: words.deep_view(), current: current@, quote };
        let closes = match quote {
            Some(delimiter) => ch == delimiter,
            None => false,
        };
        if closes {
            quote = None;
            i += 1;
        } else if ch == '\\' {
            if i + 1 < size {
                current.push(chars[i + 1]);
                i += 2;
            } else {
                current.push(ch);
                i += 1;
            }
        } else if quote.is_some() {
            current.push(ch);
            i += 1;
        } else if ch == '"' || ch == '\'' {
            quote = Some(ch);
            i += 1;
        } else if is_space_char(ch) {
            end_word(&mut words, &mut current);
            i += 1;
        } else {
            current.push(ch);
            i += 1;
        }
        assert((SplitState { words: words.deep_view(), current: current@, quote }, i as int)
            == split_step(line@, at, state));
    }
    if quote.is_some() {
        return Err(String::from_str("命令存在未闭合引号"));
    }
    end_word(&mut words, &mut current);
    Ok(words)
}

/// The arguments that a command line stands for: the words `analyze`
/// and `stream` in the first place stand for the options that select the
/// mode, and the word `run` there stands for nothing.
pub open spec fn aliases_resolved(words: Seq<Seq<char>>) -> Seq<Seq<char>> {
    if words.len() == 0 {
        words
    } else if words[0] == "analyze"@ {
        seq!["--analyze"@] + words.drop_first()
    } else if words[0] == "stream"@ {
        seq!["--stream"@] + words.drop_first()
    } else if words[0] == "run"@ {
        words.drop_first()
    } else {
        words
    }
}

/// Replaces a command word in the first place by the arguments that it
/// stands for.
pub fn normalize_command_aliases(raw_args: Vec<String>) -> (r: Vec<String>)
    ensures
        r.deep_view() == aliases_resolved(raw_args.deep_view()),
{
    let mut args = raw_args;
    if args.len() == 0 {
        return args;
    }
    let ghost words = args.deep_view();
    assert(words[0] == args@[0]@);
    if same_text(args[0].as_str(), "analyze") {
        args.set(0, String::from_str("--analyze"));
        assert(args.deep_view() == seq!["--analyze"@] + words.drop_first());
    } else if same_text(args[0].as_str(), "stream") {
        args.set(0, String::from_str("--stream"));
        assert(args.deep_view() == seq!["--stream"@] + words.drop_first());
    } else if same_text(args[0].as_str(), "run") {
        args.remove(0);
        assert(args.deep_view() == words.drop_first());
    }
    args
}

/// What a command line asks for, command words counted in.
pub open spec fn command_outcome(words: Seq<Seq<char>>) -> Result<ActionView, Seq<char>> {
    parse_outcome(aliases_resolved(words))
}

/// Reads a command line whose first word may be a command word.
pub fn command_line_action(raw_args: Vec<String>) -> (r: Result<Action, String>)
    ensures
        outcome_view(r) == command_outcome(raw_args.deep_view()),
{
    let args = normalize_command_aliases(raw_args);
    parse_args(args.as_slice())
}

/// What the prompt does with a line that was typed.
#[derive(Debug)]
pub enum ShellStep {
    /// Nothing: ask for the next line.
    Skip,
    /// Leave the prompt.
    Quit,
    /// Show the complaint and ask for the next line.
    Complain(String),
    /// Carry the action out, then ask for the next line.
    Run(Action),
}

/// What the prompt does with a line, as contracts see it.
pub ghost enum ShellStepView {
    Skip,
    Quit,
    Complain(Seq<char>),
    Run(ActionView),
}

impl View for ShellStep {
    type V = ShellStepView;

    open spec fn view(&self) -> ShellStepView {
        match self {
            ShellStep::Skip => ShellStepView::Skip,
            ShellStep::Quit => ShellStepView::Quit,
            ShellStep::Complain(e) => ShellStepView::Complain(e@),
            ShellStep::Run(action) => ShellStepView::Run(action@),
        }
    }
}

/// Whether a line asks to leave the prompt.
pub open spec fn is_farewell(input: Seq<char>) -> bool {
    input == "exit"@ || input == "quit"@ || input == "q"@
}

/// What the prompt does with a line: nothing with a line of white space
/// or of no words; it leaves on a farewell; it complains about a line
/// that cannot be cut into words or read as a command line; and it
/// carries out what any other line asks for.
pub open spec fn shell_step(line: Seq<char>) -> ShellStepView {
    let input = trim(line);
    if input.len() == 0 {
        ShellStepView::Skip
    } else if is_farewell(input) {
        ShellStepView::Quit
    } else {
        match split_words(input) {
            Err(e) => ShellStepView::Complain(e),
            Ok(words) => if words.len() == 0 {
                ShellStepView::Skip
            } else {
                match command_outcome(words) {
                    Ok(action) => ShellStepView::Run(action),
                    Err(e) => ShellStepView::Complain(e),
                }
            },
        }
    }
}

/// Decides what the prompt does with a line that was typed.
pub fn interpret_shell_line(line: &str) -> (r: ShellStep)
    ensures
        r@ == shell_step(line@),
{
    let chars = chars_of(line);
    let (a, b) = trim_bounds(chars.as_slice());
    if a == b {
        return ShellStep::Skip;
    }
    let input = string_of_range(chars.as_slice(), a, b);
    if same_text(input.as_str(), "exit") || same_text(input.as_str(), "quit") || same_text(
        input.as_str(),
        "q",
    ) {
        return ShellStep::Quit;
    }
    let words = match split_interactive_line(input.as_str()) {
        Ok(words) => words,
        Err(e) => {
            return ShellStep::Complain(e);
        },
    };
    if words.len() == 0 {
        return ShellStep::Skip;
    }
    match command_line_action(words) {
        Ok(action) => ShellStep::Run(action),
        Err(e) => ShellStep::Complain(e),
    }
}

} // verus!
