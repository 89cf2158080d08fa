//! The interactive prompt: what to do with a line that the user typed.
//!
//! The caller reads a line, asks [`interpret`] what it means, and acts on the
//! answer: it leaves, shows the help, or parses and runs the command.

use crate::text::{same_text, trim, trimmed};
use vstd::prelude::*;
use vstd::string::*;

verus! {

/// What a line asks for.
#[derive(Debug)]
pub enum Step {
    /// Leave the prompt.
    Quit,
    /// Show the list of commands.
    Help,
    /// Run a command, given as the arguments of a command line: the name of
    /// the program, then the words of the line.
    Dispatch(Vec<String>),
}

/// A [`Step`] as a plain value.
pub enum StepView {
    Quit,
    Help,
    Dispatch(Seq<Seq<char>>),
}

impl View for Step {
    type V = StepView;

    open spec fn view(&self) -> StepView {
        match self {
            Step::Quit => StepView::Quit,
            Step::Help => StepView::Help,
            Step::Dispatch(arguments) => StepView::Dispatch(arguments.deep_view()),
        }
    }
}

impl DeepView for Step {
    type V = StepView;

    open spec fn deep_view(&self) -> StepView {
        self@
    }
}

/// The words into which `shlex::split` breaks a line by the quoting rules of
/// a POSIX shell; `None` for a line that it cannot break up, such as one with
/// an unclosed quote.
pub uninterp spec fn shlex_split(text: Seq<char>) -> Option<Seq<Seq<char>>>;

/// Breaks `text` into words with `shlex::split`. Claimed of the crate: the
/// words depend on the text alone.
#[verifier::external_body]
fn split_words(text: &str) -> (words: Option<Vec<String>>)
    ensures
        words.deep_view() == shlex_split(text@),
{
    shlex::split(text)
}

/// The arguments that stand for a line broken into words: the name of the
/// program, then the words. A line that could not be broken up counts as a
/// line without words.
pub open spec fn arguments(words: Option<Seq<Seq<char>>>) -> Seq<Seq<char>> {
    seq!["toolbox"@] + match words {
        Some(words) => words,
        None => Seq::empty(),
    }
}

/// What a command asks for: `exit` and `quit` leave, `help` shows the help,
/// and everything else is run as a command line.
pub open spec fn step_for(command: Seq<char>) -> StepView {
    if command == "exit"@ || command == "quit"@ {
        StepView::Quit
    } else if command == "help"@ {
        StepView::Help
    } else {
        StepView::Dispatch(arguments(shlex_split(command)))
    }
}

/// Puts the name of the program in front of the words of a line.
pub fn command_line(words: Option<Vec<String>>) -> (arguments: Vec<String>)
    ensures
        arguments.deep_view() == self::arguments(words.deep_view()),
{
    let mut arguments: Vec<String> = Vec::new();
    arguments.push(String::from_str("toolbox"));
    match words {
        Some(words) => {
            let mut words = words;
            let ghost given = words.deep_view();
            arguments.append(&mut words);
            assert(arguments.deep_view() =~= seq!["toolbox"@] + given);
        },
        None => {
            assert(arguments.deep_view() =~= seq!["toolbox"@] + Seq::empty());
        },
    }
    arguments
}

/// Says what a command, already trimmed, asks for.
pub fn interpret_command(command: &str) -> (step: Step)
    ensures
        step@ == step_for(command@),
{
    if same_text(command, "exit") || same_text(command, "quit") {
        Step::Quit
    } else if same_text(command, "help") {
        Step::Help
    } else {
        Step::Dispatch(command_line(split_words(command)))
    }
}

/// Says what a line asks for. White space around the line does not count.
pub fn interpret(line: &str) -> (step: Step)
    ensures
        step@ == step_for(trimmed(line@)),
{
    interpret_command(trim(line))
}

} // verus!
