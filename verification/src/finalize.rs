//! Finalization: turning the awaited outcomes of a pipeline's stages into
//! the one result reported to the user.
//!
//! Stages are awaited left to right by the caller; only the terminal
//! stage's outcome is reported. An awaited external stage contributes its
//! captured stdout and stderr verbatim (flushed) with its exit code.

use vstd::prelude::*;
use crate::result::{CommandOutput, CommandResult, OutputView};

verus! {

/// What one dispatched stage came to, once awaited.
#[derive(Debug)]
pub enum StageOutcome {
    /// The stage finished in-process: its result.
    Builtin(CommandResult),
    /// An awaited external child: captured stdout, captured stderr, exit
    /// code.
    External(String, String, i32),
}

/// Specification-level stage outcome.
pub ghost enum OutcomeView {
    Builtin((OutputView, int)),
    External(Seq<char>, Seq<char>, int),
}

impl View for StageOutcome {
    type V = OutcomeView;

    open spec fn view(&self) -> OutcomeView {
        match self {
            StageOutcome::Builtin(r) => OutcomeView::Builtin(r@),
            StageOutcome::External(o, e, c) => OutcomeView::External(o@, e@, *c as int),
        }
    }
}

/// The views of a list of stage outcomes.
pub open spec fn outcome_views(s: Seq<StageOutcome>) -> Seq<OutcomeView> {
    Seq::new(s.len(), |i: int| s[i]@)
}

/// The result a list of awaited stages reports: the terminal stage's — a
/// built-in's result as it stands, an external's captured texts verbatim
/// with its exit code — and no output with exit code 0 when there was no
/// stage at all.
pub open spec fn spec_finalize(outs: Seq<OutcomeView>) -> (OutputView, int) {
    if outs.len() == 0 {
        (OutputView::NoOutput, 0)
    } else {
        match outs.last() {
            OutcomeView::Builtin(r) => r,
            OutcomeView::External(o, e, c) => (OutputView::Both(o, e, true), c),
        }
    }
}

/// Reports a pipeline's result: the terminal stage's outcome. The earlier
/// outcomes are only awaited for; their results are discarded.
pub fn finalize_executions(outcomes: Vec<StageOutcome>) -> (r: CommandResult)
    ensures
        r@ == spec_finalize(outcome_views(outcomes@)),
{
    let mut outcomes = outcomes;
    let ghost before = outcomes@;
    match outcomes.pop() {
        None => CommandResult::no_output(),
        Some(last) => {
            proof {
                assert(outcome_views(before).last() == last@);
            }
            match last {
                StageOutcome::Builtin(r) => r,
                StageOutcome::External(o, e, c) => CommandResult {
                    output: CommandOutput::StdoutAndStderr(o, e, true),
                    exit_code: c,
                },
            }
        }
    }
}

/// The result reported when an external command could not be spawned: the
/// failure on stderr, flushed, with exit code 1.
pub fn spawn_error_result(name: &String, err: &String) -> (r: CommandResult)
    ensures
        r@ == (
            OutputView::Stderr("Failed to spawn command '"@ + name@ + "': "@ + err@ + "\n"@, true),
            1int,
        ),
{
    let mut s = String::from_str("Failed to spawn command '");
    s.append(name.as_str());
    s.append("': ");
    s.append(err.as_str());
    s.append("\n");
    CommandResult { output: CommandOutput::Stderr(s, true), exit_code: 1 }
}

/// The result reported when waiting on a non-terminal stage failed: the
/// failure on stderr, flushed, with exit code 1. Waiting on the later
/// stages still goes ahead.
pub fn wait_error_result(err: &String) -> (r: CommandResult)
    ensures
        r@ == (
            OutputView::Stderr("Error waiting for intermediate command: "@ + err@ + "\n"@, true),
            1int,
        ),
{
    let mut s = String::from_str("Error waiting for intermediate command: ");
    s.append(err.as_str());
    s.append("\n");
    CommandResult { output: CommandOutput::Stderr(s, true), exit_code: 1 }
}

/// The result reported when the terminal stage's output could not be
/// retrieved: the failure on stderr, flushed, with exit code 1.
pub fn capture_error_result(err: &String) -> (r: CommandResult)
    ensures
        r@ == (OutputView::Stderr("Retrieving output error: "@ + err@ + "\n"@, true), 1int),
{
    let mut s = String::from_str("Retrieving output error: ");
    s.append(err.as_str());
    s.append("\n");
    CommandResult { output: CommandOutput::Stderr(s, true), exit_code: 1 }
}

} // verus!
