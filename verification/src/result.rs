//! Command results, and what rendering them writes to the terminal.
//!
//! A flushed text (`flush == true`) is written verbatim; an unflushed text
//! gets one trailing newline. This keeps the shell convention that `echo`
//! adds a newline while captured external output passes through unchanged.

use vstd::prelude::*;

verus! {

/// What a finished command produced, and whether each text is flushed
/// verbatim (`true`) or followed by a newline (`false`).
#[derive(Debug, PartialEq, Eq)]
pub enum CommandOutput {
    /// Only stdout text.
    Stdout(String, bool),
    /// Only stderr text.
    Stderr(String, bool),
    /// Stdout text first, then stderr text.
    StdoutAndStderr(String, String, bool),
    /// Nothing to write.
    NoOutput,
}

/// Specification-level command output.
pub ghost enum OutputView {
    Stdout(Seq<char>, bool),
    Stderr(Seq<char>, bool),
    Both(Seq<char>, Seq<char>, bool),
    NoOutput,
}

impl View for CommandOutput {
    type V = OutputView;

    open spec fn view(&self) -> OutputView {
        match self {
            CommandOutput::Stdout(t, f) => OutputView::Stdout(t@, *f),
            CommandOutput::Stderr(t, f) => OutputView::Stderr(t@, *f),
            CommandOutput::StdoutAndStderr(t, e, f) => OutputView::Both(t@, e@, *f),
            CommandOutput::NoOutput => OutputView::NoOutput,
        }
    }
}

/// What one command finished with: its output and its exit code.
#[derive(Debug, PartialEq, Eq)]
pub struct CommandResult {
    /// The output to render.
    pub output: CommandOutput,
    /// The exit code reported to the user.
    pub exit_code: i32,
}

impl View for CommandResult {
    type V = (OutputView, int);

    open spec fn view(&self) -> (OutputView, int) {
        (self.output@, self.exit_code as int)
    }
}

/// The bytes one emitted text stands for: itself when flushed, with one
/// trailing newline otherwise.
pub open spec fn spec_emitted(text: Seq<char>, flush: bool) -> Seq<char> {
    if flush {
        text
    } else {
        text.push('\n')
    }
}

/// The text rendering writes to stdout, if any.
pub open spec fn spec_rendered_stdout(o: OutputView) -> Option<Seq<char>> {
    match o {
        OutputView::Stdout(t, f) => Some(spec_emitted(t, f)),
        OutputView::Both(t, e, f) => Some(spec_emitted(t, f)),
        _ => None,
    }
}

/// The text rendering writes to stderr, if any.
pub open spec fn spec_rendered_stderr(o: OutputView) -> Option<Seq<char>> {
    match o {
        OutputView::Stderr(t, f) => Some(spec_emitted(t, f)),
        OutputView::Both(t, e, f) => Some(spec_emitted(e, f)),
        _ => None,
    }
}

fn emit(t: &String, flush: bool) -> (r: String)
    ensures
        r@ == spec_emitted(t@, flush),
{
    if flush {
        t.clone()
    } else {
        let mut s = t.clone();
        s.append("\n");
        proof {
            reveal_strlit("\n");
            assert(s@ =~= t@.push('\n'));
        }
        s
    }
}

impl CommandResult {
    /// The exact text to write to stdout when this result is rendered:
    /// stdout text verbatim when flushed, with one trailing newline
    /// otherwise, and nothing when the command produced no stdout.
    pub fn rendered_stdout(&self) -> (r: Option<String>)
        ensures
            match r {
                Some(s) => spec_rendered_stdout(self.output@) == Some(s@),
                None => spec_rendered_stdout(self.output@) is None,
            },
    {
        match &self.output {
            CommandOutput::Stdout(t, f) => Some(emit(t, *f)),
            CommandOutput::StdoutAndStderr(t, _, f) => Some(emit(t, *f)),
            _ => None,
        }
    }

    /// The exact text to write to stderr when this result is rendered,
    /// under the same flush rule; stdout is written before stderr.
    pub fn rendered_stderr(&self) -> (r: Option<String>)
        ensures
            match r {
                Some(s) => spec_rendered_stderr(self.output@) == Some(s@),
                None => spec_rendered_stderr(self.output@) is None,
            },
    {
        match &self.output {
            CommandOutput::Stderr(t, f) => Some(emit(t, *f)),
            CommandOutput::StdoutAndStderr(_, e, f) => Some(emit(e, *f)),
            _ => None,
        }
    }

    /// The result of a command that did nothing: no output, exit code 0.
    pub fn no_output() -> (r: CommandResult)
        ensures
            r@ == (OutputView::NoOutput, 0int),
    {
        CommandResult { output: CommandOutput::NoOutput, exit_code: 0 }
    }
}

} // verus!
