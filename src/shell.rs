//! The dispatch loop's decisions: what each input line asks the shell to do.
use vstd::prelude::*;
use crate::command::{
    command_named, invocation_of, lemma_split_after_word, lemma_split_join, lemma_split_nonempty,
    parse, resolve, scan, split_spaces, Command,
};
use crate::echo::echo_text;
use crate::exit::farewell;
use crate::ls::{listing_err, listing_out, ls_action, ListingView};
use crate::text::{is_space_char, trim, trim_end, trim_start, trimmed, views};

verus! {

/// What the shell does in answer to one command.
#[derive(Debug)]
pub enum Action {
    /// Nothing at all (a blank line).
    Idle,
    /// Print a line to standard output and go on.
    Print(String),
    /// Print a line to standard error and go on.
    Warn(String),
    /// List a directory; `long` selects the long listing.
    List { path: String, long: bool },
    /// Print a farewell line to standard output and stop.
    Stop(String),
}

/// The mathematical value of an `Action`.
pub enum ActionView {
    Idle,
    Print(Seq<char>),
    Warn(Seq<char>),
    List(Seq<char>, bool),
    Stop(Seq<char>),
}

impl View for Action {
    type V = ActionView;

    open spec fn view(&self) -> ActionView {
        match self {
            Action::Idle => ActionView::Idle,
            Action::Print(s) => ActionView::Print(s@),
            Action::Warn(s) => ActionView::Warn(s@),
            Action::List { path, long } => ActionView::List(path@, *long),
            Action::Stop(s) => ActionView::Stop(s@),
        }
    }
}

/// The message for a name that is no command.
pub open spec fn not_found_message(name: Seq<char>) -> Seq<char> {
    "command not found : "@ + name
}

/// What the shell does for a command name and its arguments.
pub open spec fn command_action(name: Seq<char>, args: Seq<Seq<char>>) -> ActionView {
    match command_named(name) {
        Command::Blank => ActionView::Idle,
        Command::Echo => ActionView::Print(echo_text(args)),
        Command::Exit => ActionView::Stop(farewell()),
        Command::Ls => ls_action(args),
        Command::Unknown => ActionView::Warn(not_found_message(name)),
    }
}

/// Decides what the named command does with its arguments.
pub fn execute_command(command_name: String, args: Vec<String>) -> (r: Action)
    ensures
        r@ == command_action(command_name@, views(args@)),
{
    match resolve(&command_name) {
        Command::Blank => Action::Idle,
        Command::Echo => crate::echo::execute(args),
        Command::Exit => crate::exit::execute(),
        Command::Ls => crate::ls::execute(args),
        Command::Unknown => {
            let mut s = String::from_str("command not found : ");
            s.append(command_name.as_str());
            Action::Warn(s)
        },
    }
}

/// Whether the shell still reads input.
#[derive(Clone, Copy, Debug, PartialEq, Eq, Structural)]
pub enum ShellState {
    Running,
    Terminated,
}

/// What the shell does for one raw input line: trim, split on spaces, resolve, run.
pub open spec fn line_action(line: Seq<char>) -> ActionView {
    match invocation_of(split_spaces(trimmed(line))) {
        None => ActionView::Idle,
        Some((name, args)) => command_action(name, args),
    }
}

/// One step of the dispatch loop: the next state and the action for a line.
/// A terminated shell reads nothing more; only a stop action terminates.
pub open spec fn step_spec(state: ShellState, line: Seq<char>) -> (ShellState, ActionView) {
    match state {
        ShellState::Terminated => (ShellState::Terminated, ActionView::Idle),
        ShellState::Running => {
            let a = line_action(line);
            (if a is Stop { ShellState::Terminated } else { ShellState::Running }, a)
        },
    }
}

/// Handles one input line in the given state.
pub fn step(state: ShellState, line: &str) -> (r: (ShellState, Action))
    ensures
        (r.0, r.1@) == step_spec(state, line@),
{
    match state {
        ShellState::Terminated => (ShellState::Terminated, Action::Idle),
        ShellState::Running => {
            let input = trim(line);
            let tokens = scan(input);
            let action = match parse(tokens) {
                Some((name, args)) => execute_command(name, args),
                None => Action::Idle,
            };
            let next = match action {
                Action::Stop(_) => ShellState::Terminated,
                _ => ShellState::Running,
            };
            (next, action)
        },
    }
}

/// The command name of a raw input line, if the trimmed line has a first token.
pub open spec fn line_command(line: Seq<char>) -> Option<Seq<char>> {
    match invocation_of(split_spaces(trimmed(line))) {
        Some((name, _)) => Some(name),
        None => None,
    }
}

/// A running shell terminates on a line exactly when its command is `exit`, and
/// then prints the farewell; once terminated it reads no further line and does
/// nothing more.
pub proof fn lemma_exit_terminates(line: Seq<char>, later: Seq<char>)
    ensures
        step_spec(ShellState::Running, line).0 == ShellState::Terminated <==> line_command(line)
            == Some("exit"@),
        line_command(line) == Some("exit"@) ==> step_spec(ShellState::Running, line) == (
            ShellState::Terminated,
            ActionView::Stop(farewell()),
        ),
        step_spec(ShellState::Terminated, later) == (ShellState::Terminated, ActionView::Idle),
{
    reveal_strlit("exit");
    reveal_strlit("echo");
    reveal_strlit("ls");
    lemma_split_nonempty(trimmed(line));
    assert("exit"@[1] != "echo"@[1]);
    assert("exit"@.len() != "ls"@.len());
}

/// A line whose command name is not a built-in reports the name as not found
/// on standard error, and the shell keeps running.
pub proof fn lemma_unknown_command_continues(line: Seq<char>)
    requires
        line_command(line) matches Some(name) && command_named(name) == Command::Unknown,
    ensures
        step_spec(ShellState::Running, line) == (
            ShellState::Running,
            ActionView::Warn(not_found_message(line_command(line)->0)),
        ),
{
}

/// `echo`, one space, then text with no leading or trailing whitespace prints
/// that text exactly: runs of spaces split into empty arguments, and joining
/// the arguments with single spaces restores every run.
pub proof fn lemma_echo_prints_text(text: Seq<char>)
    requires
        text.len() > 0,
        !is_space_char(text[0]),
        !is_space_char(text.last()),
    ensures
        step_spec(ShellState::Running, "echo"@ + seq![' '] + text) == (
            ShellState::Running,
            ActionView::Print(text),
        ),
{
    reveal_strlit("echo");
    reveal_strlit("exit");
    reveal_strlit("ls");
    let word = "echo"@;
    let line = word + seq![' '] + text;
    assert(!is_space_char(line[0]));
    assert(trim_start(line) == line);
    assert(line.last() == text.last());
    assert(trim_end(line) == line);
    assert(trim_start(text) == text);
    assert(trim_end(text) == text);
    assert(forall|j: int| 0 <= j < word.len() ==> word[j] != ' ');
    lemma_split_after_word(word, text);
    lemma_split_join(text);
    let tokens = split_spaces(line);
    assert(tokens[0] == word);
    assert(tokens.drop_first() =~= split_spaces(text));
    assert(word[1] != "exit"@[1]);
    assert(word.len() != "ls"@.len());
}

/// Repeating an `ls` line against an unchanged directory prints the same thing:
/// the line decides the same path and flags each time, and the output depends
/// on those and on what reading the directory gave, nothing else.
pub proof fn lemma_ls_repeatable(line: Seq<char>, first: ListingView, second: ListingView)
    requires
        line_action(line) is List,
        first == second,
    ensures
        step_spec(ShellState::Running, line).0 == ShellState::Running,
        ({
            let path = line_action(line)->List_0;
            let long = line_action(line)->List_1;
            listing_out(long, first) == listing_out(long, second) && listing_err(path, first)
                == listing_err(path, second)
        }),
{
}

} // verus!
