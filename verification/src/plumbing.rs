//! I/O plumbing: the endpoints of each pipeline stage, and the anonymous
//! pipes between consecutive stages.
//!
//! Each concrete pipe end is owned by exactly one party at any moment:
//! wiring puts it into one stage's endpoint, and taking the endpoint for a
//! spawn moves it out, leaving the slot empty so the parent keeps no handle
//! to a transferred pipe end (otherwise the pipe would never reach
//! end-of-file and downstream stages would hang).

use vstd::prelude::*;
use std::io::{PipeReader, PipeWriter};
use crate::parser::{Pipeline, SpecStage, spec_effective_redir};

verus! {

#[verifier::external_type_specification]
#[verifier::external_body]
pub struct ExPipeReader(PipeReader);

#[verifier::external_type_specification]
#[verifier::external_body]
pub struct ExPipeWriter(PipeWriter);

/// Creates one anonymous OS pipe, read end first; `None` when the
/// operating system refuses a new pipe.
///
/// Relies on `std::io::pipe`: it returns the two ends of a fresh anonymous
/// pipe whose write end feeds its read end.
#[verifier::external_body]
fn make_pipe() -> (r: Option<(PipeReader, PipeWriter)>) {
    match std::io::pipe() {
        Ok((rd, wr)) => Some((rd, wr)),
        Err(_) => None,
    }
}

/// Where one standard stream of one stage comes from or goes to.
#[derive(Debug)]
pub enum RW {
    /// The shell's own stdout.
    Stdout,
    /// The shell's own stderr.
    Stderr,
    /// The shell's own stdin.
    Stdin,
    /// A file target: path and append flag (truncate when `false`).
    File(String, bool),
    /// The read end of an anonymous pipe; empty once consumed.
    RPipe(Option<PipeReader>),
    /// The write end of an anonymous pipe; empty once consumed.
    WPipe(Option<PipeWriter>),
    /// A fresh pipe made at spawn time, for capturing a child's output.
    Pipe,
    /// An empty input or discarded output.
    Null,
}

/// Specification-level endpoint: pipe ends carry only whether the handle is
/// still held.
pub ghost enum RwView {
    Stdout,
    Stderr,
    Stdin,
    File(Seq<char>, bool),
    RPipe(bool),
    WPipe(bool),
    Pipe,
    Null,
}

impl View for RW {
    type V = RwView;

    open spec fn view(&self) -> RwView {
        match self {
            RW::Stdout => RwView::Stdout,
            RW::Stderr => RwView::Stderr,
            RW::Stdin => RwView::Stdin,
            RW::File(p, a) => RwView::File(p@, *a),
            RW::RPipe(o) => RwView::RPipe(o is Some),
            RW::WPipe(o) => RwView::WPipe(o is Some),
            RW::Pipe => RwView::Pipe,
            RW::Null => RwView::Null,
        }
    }
}

impl RwView {
    /// A pipe endpoint whose handle was already taken.
    pub open spec fn is_spent(self) -> bool {
        self == RwView::RPipe(false) || self == RwView::WPipe(false)
    }

    /// No live pipe handle is held here.
    pub open spec fn holds_no_pipe(self) -> bool {
        self != RwView::RPipe(true) && self != RwView::WPipe(true)
    }
}

/// An endpoint taken out of its slot, ready to hand to the operating
/// system.
#[derive(Debug)]
pub enum TakenEndpoint {
    /// Share the shell's own stream.
    Inherit,
    /// Empty input or discarded output.
    Null,
    /// Capture through a fresh pipe made at spawn time.
    Piped,
    /// Open this file (append when `true`, truncate otherwise).
    File(String, bool),
    /// The transferred read end of an anonymous pipe.
    Reader(PipeReader),
    /// The transferred write end of an anonymous pipe.
    Writer(PipeWriter),
}

/// Specification-level taken endpoint.
pub ghost enum TakenView {
    Inherit,
    Null,
    Piped,
    File(Seq<char>, bool),
    Reader,
    Writer,
}

impl View for TakenEndpoint {
    type V = TakenView;

    open spec fn view(&self) -> TakenView {
        match self {
            TakenEndpoint::Inherit => TakenView::Inherit,
            TakenEndpoint::Null => TakenView::Null,
            TakenEndpoint::Piped => TakenView::Piped,
            TakenEndpoint::File(p, a) => TakenView::File(p@, *a),
            TakenEndpoint::Reader(_) => TakenView::Reader,
            TakenEndpoint::Writer(_) => TakenView::Writer,
        }
    }
}

/// Consumes one endpoint for a spawn.
///
/// A pipe end is transferred exactly once: afterwards the slot is empty and
/// the parent holds no handle to it. An already-consumed endpoint must not
/// be taken again; callers check before they call.
pub fn take_endpoint(rw: &mut RW) -> (t: TakenEndpoint)
    requires
        !old(rw)@.is_spent(),
    ensures
        final(rw)@.holds_no_pipe(),
        match old(rw)@ {
            RwView::Stdout => t@ == TakenView::Inherit && final(rw)@ == old(rw)@,
            RwView::Stderr => t@ == TakenView::Inherit && final(rw)@ == old(rw)@,
            RwView::Stdin => t@ == TakenView::Inherit && final(rw)@ == old(rw)@,
            RwView::Null => t@ == TakenView::Null && final(rw)@ == old(rw)@,
            RwView::Pipe => t@ == TakenView::Piped && final(rw)@ == old(rw)@,
            RwView::File(p, a) => t@ == TakenView::File(p, a) && final(rw)@ == old(rw)@,
            RwView::RPipe(_) => t@ == TakenView::Reader && final(rw)@ == RwView::RPipe(false),
            RwView::WPipe(_) => t@ == TakenView::Writer && final(rw)@ == RwView::WPipe(false),
        },
{
    match rw {
        RW::Stdout => TakenEndpoint::Inherit,
        RW::Stderr => TakenEndpoint::Inherit,
        RW::Stdin => TakenEndpoint::Inherit,
        RW::Null => TakenEndpoint::Null,
        RW::Pipe => TakenEndpoint::Piped,
        RW::File(p, a) => TakenEndpoint::File(p.clone(), *a),
        RW::RPipe(o) => {
            match o.take() {
                Some(rd) => TakenEndpoint::Reader(rd),
                None => unreached(),
            }
        }
        RW::WPipe(o) => {
            match o.take() {
                Some(wr) => TakenEndpoint::Writer(wr),
                None => unreached(),
            }
        }
    }
}

/// The three endpoints of one pipeline stage.
#[derive(Debug)]
pub struct StageIo {
    /// Where the stage reads from.
    pub stdin: RW,
    /// Where the stage writes to.
    pub stdout: RW,
    /// Where the stage's errors go.
    pub stderr: RW,
}

impl View for StageIo {
    type V = (RwView, RwView, RwView);

    open spec fn view(&self) -> (RwView, RwView, RwView) {
        (self.stdin@, self.stdout@, self.stderr@)
    }
}

/// The stdin wiring promises stage `i`: the shell's stdin for the first
/// stage, the live read end of the previous pipe for every other stage.
pub open spec fn wired_stdin(i: int) -> RwView {
    if i == 0 {
        RwView::Stdin
    } else {
        RwView::RPipe(true)
    }
}

/// The stdout wiring promises stage `i` of `n`: its effective stdout
/// redirection file when it has one (the file wins over the pipe, and the
/// next stage then reads end-of-file), else the live write end of the next
/// pipe for a non-terminal stage, else the shell's stdout.
pub open spec fn wired_stdout(stage: SpecStage, i: int, n: int) -> RwView {
    match spec_effective_redir(stage.2, false) {
        Some(t) => RwView::File(t.1, t.0),
        None => if i < n - 1 {
            RwView::WPipe(true)
        } else {
            RwView::Stdout
        },
    }
}

/// The stderr wiring promises a stage: its effective stderr redirection
/// file when it has one, else the shell's stderr.
pub open spec fn wired_stderr(stage: SpecStage) -> RwView {
    match spec_effective_redir(stage.2, true) {
        Some(t) => RwView::File(t.1, t.0),
        None => RwView::Stderr,
    }
}

/// How many stages read from an anonymous pipe.
pub open spec fn count_pipe_stdins(ios: Seq<(RwView, RwView, RwView)>) -> int
    decreases ios.len(),
{
    if ios.len() == 0 {
        0int
    } else {
        count_pipe_stdins(ios.drop_last()) + if ios.last().0 is RPipe {
            1int
        } else {
            0int
        }
    }
}

/// The views of a list of stage endpoints.
pub open spec fn stage_io_views(s: Seq<StageIo>) -> Seq<(RwView, RwView, RwView)> {
    Seq::new(s.len(), |i: int| s[i]@)
}

/// Wires a pipeline: one anonymous pipe between each pair of consecutive
/// stages — the write end to the left stage's stdout (unless a redirection
/// wins, in which case the write end is dropped and the right stage reads
/// end-of-file), the read end to the right stage's stdin. Returns `None`
/// only when the operating system refuses a pipe; a pipeline that needs no
/// pipe always wires.
pub fn wire_pipeline(p: &Pipeline) -> (r: Option<Vec<StageIo>>)
    ensures
        match r {
            Some(ios) => {
                &&& ios@.len() == p@.len()
                &&& forall|i: int| 0 <= i < ios@.len() ==> (#[trigger] ios@[i]@).0 == wired_stdin(i)
                &&& forall|i: int|
                    0 <= i < ios@.len() ==> (#[trigger] ios@[i]@).1 == wired_stdout(
                        p@[i],
                        i,
                        p@.len() as int,
                    )
                &&& forall|i: int|
                    0 <= i < ios@.len() ==> (#[trigger] ios@[i]@).2 == wired_stderr(p@[i])
                &&& count_pipe_stdins(stage_io_views(ios@)) == if ios@.len() > 0 {
                    ios@.len() - 1
                } else {
                    0int
                }
            },
            None => p@.len() > 1,
        },
{
    let n = p.stages.len();
    let mut ios: Vec<StageIo> = Vec::new();
    let mut pending: Option<PipeReader> = None;
    let mut i: usize = 0;
    while i < n
        invariant
            i <= n,
            n == p.stages@.len(),
            p@.len() == n,
            ios@.len() == i,
            i > 0 && i < n ==> pending is Some,
            forall|k: int| 0 <= k < i ==> (#[trigger] ios@[k]@).0 == wired_stdin(k),
            forall|k: int|
                0 <= k < i ==> (#[trigger] ios@[k]@).1 == wired_stdout(p@[k], k, n as int),
            forall|k: int| 0 <= k < i ==> (#[trigger] ios@[k]@).2 == wired_stderr(p@[k]),
        decreases n - i,
    {
        let stdin_rw = if i == 0 {
            RW::Stdin
        } else {
            match pending.take() {
                Some(rd) => RW::RPipe(Some(rd)),
                None => unreached(),
            }
        };
        let mut next_write: Option<PipeWriter> = None;
        if i + 1 < n {
            match make_pipe() {
                Some((rd, wr)) => {
                    pending = Some(rd);
                    next_write = Some(wr);
                }
                None => {
                    return None;
                }
            }
        }
        let stage = &p.stages[i];
        proof {
            assert(p@[i as int] == p.stages@[i as int]@);
        }
        let stdout_rw = match stage.effective_redir(false) {
            Some((ap, path)) => RW::File(path, ap),
            None => if i + 1 < n {
                match next_write.take() {
                    Some(wr) => RW::WPipe(Some(wr)),
                    None => unreached(),
                }
            } else {
                RW::Stdout
            },
        };
        let stderr_rw = match stage.effective_redir(true) {
            Some((ap, path)) => RW::File(path, ap),
            None => RW::Stderr,
        };
        ios.push(StageIo { stdin: stdin_rw, stdout: stdout_rw, stderr: stderr_rw });
        i = i + 1;
    }
    proof {
        lemma_pipe_count(stage_io_views(ios@));
    }
    Some(ios)
}

/// A wired pipeline has exactly one anonymous pipe per adjacent pair of
/// stages: every stage but the first reads one fresh pipe, so a pipeline of
/// `N` stages creates `N - 1` pipes.
pub proof fn lemma_pipe_count(ios: Seq<(RwView, RwView, RwView)>)
    requires
        forall|i: int| 0 <= i < ios.len() ==> (#[trigger] ios[i]).0 == wired_stdin(i),
    ensures
        count_pipe_stdins(ios) == if ios.len() > 0 {
            ios.len() - 1
        } else {
            0int
        },
    decreases ios.len(),
{
    if ios.len() > 0 {
        let prefix = ios.drop_last();
        assert(forall|i: int|
            0 <= i < prefix.len() ==> (#[trigger] prefix[i]).0 == wired_stdin(i)) by {
            assert(forall|i: int| 0 <= i < prefix.len() ==> prefix[i] == ios[i]);
        }
        lemma_pipe_count(prefix);
        assert(ios.last().0 == wired_stdin(ios.len() - 1));
    }
}

} // verus!
