//! The commands of the command line, as functions on the local state.
//!
//! A command reads and changes the state in memory, writes lines to a
//! terminal that records them, and records what is to be done outside the
//! program (processes to start). Printing the lines and carrying out the
//! effects is left to the program around the library.

pub mod credential;
pub mod identity;
pub mod kafka;
pub mod node;
pub mod status;

use vstd::prelude::*;
use crate::cli_state::{CliState, CliStateError};

verus! {

/// Arguments that every command takes.
#[derive(Clone, Copy, Debug, PartialEq, Eq, Structural)]
pub struct GlobalArgs {
    pub quiet: bool,
    pub verbose: u8,
    pub no_color: bool,
    pub no_input: bool,
}

impl Default for GlobalArgs {
    fn default() -> (args: Self)
        ensures
            args == (GlobalArgs { quiet: false, verbose: 0, no_color: false, no_input: false }),
    {
        GlobalArgs { quiet: false, verbose: 0, no_color: false, no_input: false }
    }
}

/// How a line is to be marked when it is shown.
#[derive(Clone, Copy, Debug, PartialEq, Eq, Structural)]
pub enum LineKind {
    /// As it is.
    Plain,
    /// As the report of a success.
    Success,
    /// As a remark.
    Remark,
    /// As the report of a failure.
    Failure,
}

/// A line written to the terminal: its text for people and, where it has
/// one, its text for programs.
#[derive(Debug, PartialEq, Eq)]
pub struct OutputLine {
    pub kind: LineKind,
    pub plain: String,
    pub machine: Option<String>,
}

/// Whether a line has the given kind and texts.
pub open spec fn spec_line_is(
    line: OutputLine,
    kind: LineKind,
    plain: Seq<char>,
    machine: Option<Seq<char>>,
) -> bool {
    &&& line.kind == kind
    &&& line.plain@ == plain
    &&& match (line.machine, machine) {
        (Some(a), Some(b)) => a@ == b,
        (None, None) => true,
        _ => false,
    }
}

/// The terminal of a command: it records what is written to it.
#[derive(Debug, PartialEq, Eq)]
pub struct Terminal {
    pub lines: Vec<OutputLine>,
    /// Whether the output goes to a person rather than a file or a pipe.
    pub is_tty: bool,
}

/// Something for the program to do outside the state.
#[derive(Debug, PartialEq, Eq)]
pub enum Effect {
    /// Stop the process of a node.
    KillNode { node_name: String, force: bool },
    /// Start the program again with these arguments, its output going to the
    /// two log files where they are given.
    Spawn { args: Vec<String>, stdout_log: Option<String>, stderr_log: Option<String> },
    /// Ask the node for its status and show it.
    ShowNodeStatus { node_name: String, is_default: bool },
}

/// Why a command failed.
#[derive(Debug, PartialEq, Eq)]
pub enum CommandError {
    /// The command refuses, with this explanation.
    Message(String),
    /// The state could not answer.
    State(CliStateError),
}

/// What a command works with.
#[derive(Debug, PartialEq, Eq)]
pub struct CommandGlobalOpts {
    pub global_args: GlobalArgs,
    pub state: CliState,
    pub terminal: Terminal,
    /// Remarks to show before the output of the command.
    pub parser_logs: Vec<String>,
    /// What is left to do once the command has run.
    pub effects: Vec<Effect>,
}

impl CommandGlobalOpts {
    /// Options over a given state, with a terminal on which nothing is
    /// written yet.
    pub fn new_for_test(global_args: GlobalArgs, state: CliState) -> (options: Self)
        ensures
            options.global_args == global_args,
            options.state == state,
            options.terminal.lines@.len() == 0,
            !options.terminal.is_tty,
            options.parser_logs@.len() == 0,
            options.effects@.len() == 0,
    {
        CommandGlobalOpts {
            global_args,
            state,
            terminal: Terminal { lines: Vec::new(), is_tty: false },
            parser_logs: Vec::new(),
            effects: Vec::new(),
        }
    }

    /// The same options, quiet.
    pub fn set_quiet(self) -> (options: Self)
        ensures
            options == (CommandGlobalOpts {
                global_args: GlobalArgs { quiet: true, ..self.global_args },
                ..self
            }),
    {
        let mut options = self;
        options.global_args.quiet = true;
        options
    }

    /// Writes plain lines to the terminal, in order.
    pub fn write_lines(&mut self, texts: &Vec<String>)
        ensures
            spec_wrote_lines(*old(self), *final(self), crate::codec::views(texts@)),
    {
        let ghost start = self.terminal.lines@.len() as int;
        assert(self.terminal.lines@.subrange(0, start) =~= old(self).terminal.lines@);
        let mut i: usize = 0;
        while i < texts.len()
            invariant
                0 <= i <= texts@.len(),
                start == old(self).terminal.lines@.len(),
                *self == (CommandGlobalOpts { terminal: self.terminal, ..*old(self) }),
                self.terminal.is_tty == old(self).terminal.is_tty,
                self.terminal.lines@.len() == start + i,
                self.terminal.lines@.subrange(0, start) == old(self).terminal.lines@,
                forall|j: int|
                    0 <= j < i ==> spec_line_is(
                        #[trigger] self.terminal.lines@[start + j],
                        LineKind::Plain,
                        texts@[j]@,
                        None,
                    ),
            decreases texts@.len() - i,
        {
            let ghost lines = self.terminal.lines@;
            self.write_line(LineKind::Plain, texts[i].clone(), None);
            proof {
                let after = self.terminal.lines@;
                assert(after.drop_last() == lines);
                assert(after.subrange(0, start) =~= lines.subrange(0, start));
                assert forall|j: int| 0 <= j < i + 1 implies spec_line_is(
                    #[trigger] after[start + j],
                    LineKind::Plain,
                    texts@[j]@,
                    None,
                ) by {
                    if j < i {
                        assert(after[start + j] == lines[start + j]);
                    } else {
                        assert(after[start + j] == after.last());
                    }
                }
            }
            i += 1;
        }
    }

    /// Writes a line to the terminal.
    pub fn write_line(&mut self, kind: LineKind, plain: String, machine: Option<String>)
        ensures
            spec_wrote_line(*old(self), *final(self), kind, plain@, option_text(machine)),
    {
        self.terminal.lines.push(OutputLine { kind, plain, machine });
        assert(self.terminal.lines@.drop_last() =~= old(self).terminal.lines@);
    }
}

/// Whether `after` is `before` with the given texts written to the
/// terminal, in order, each as a plain line without a text for programs.
pub open spec fn spec_wrote_lines(
    before: CommandGlobalOpts,
    after: CommandGlobalOpts,
    texts: Seq<Seq<char>>,
) -> bool {
    let start = before.terminal.lines@.len() as int;
    &&& after == (CommandGlobalOpts { terminal: after.terminal, ..before })
    &&& after.terminal.is_tty == before.terminal.is_tty
    &&& after.terminal.lines@.len() == start + texts.len()
    &&& after.terminal.lines@.subrange(0, start) == before.terminal.lines@
    &&& forall|i: int|
        0 <= i < texts.len() ==> spec_line_is(
            #[trigger] after.terminal.lines@[start + i],
            LineKind::Plain,
            texts[i],
            None,
        )
}

/// View of an optional text.
pub open spec fn option_text(text: Option<String>) -> Option<Seq<char>> {
    match text {
        Some(t) => Some(t@),
        None => None,
    }
}

/// Whether `after` is `before` with one more line on the terminal, of the
/// given kind and texts.
pub open spec fn spec_wrote_line(
    before: CommandGlobalOpts,
    after: CommandGlobalOpts,
    kind: LineKind,
    plain: Seq<char>,
    machine: Option<Seq<char>>,
) -> bool {
    &&& after.global_args == before.global_args
    &&& after.state == before.state
    &&& after.parser_logs == before.parser_logs
    &&& after.effects == before.effects
    &&& after.terminal.is_tty == before.terminal.is_tty
    &&& after.terminal.lines@.len() == before.terminal.lines@.len() + 1
    &&& after.terminal.lines@.drop_last() == before.terminal.lines@
    &&& spec_line_is(after.terminal.lines@.last(), kind, plain, machine)
}

} // verus!
