//! Dispatcher: decides what one simple command does.
//!
//! Built-ins are computed here; commands that must touch the operating
//! system come back as instructions — exit the process, query the working
//! directory, change directory, or spawn an executable resolved against the
//! [`PathIndex`](crate::path_index::PathIndex) — for the caller to carry
//! out. A name that is neither a built-in nor in the index is reported as
//! "command not found" with exit code 127.

use vstd::prelude::*;
use itertools::Itertools;
use crate::args::{Arguments, spec_parse_i32};
use crate::lexer::{chars_of, string_from_chars};
use crate::path_index::{PathIndex, is_builtin, is_builtin_name, spec_lookup};
use crate::result::{CommandOutput, CommandResult, OutputView, spec_rendered_stdout};
use crate::text::str_eq;

verus! {

/// The words joined by single spaces: empty for no words, and one space
/// between adjacent words otherwise.
pub open spec fn spec_join_spaces(ws: Seq<Seq<char>>) -> Seq<char>
    decreases ws.len(),
{
    if ws.len() == 0 {
        Seq::empty()
    } else if ws.len() == 1 {
        ws[0]
    } else {
        spec_join_spaces(ws.drop_last()) + seq![' '] + ws.last()
    }
}

/// Joins words with single spaces.
///
/// Relies on itertools' `join`: the elements' text, with the separator
/// between adjacent elements and nothing else.
#[verifier::external_body]
fn join_words(words: &Vec<String>) -> (r: String)
    ensures
        r@ == spec_join_spaces(words.deep_view()),
{
    words.iter().join(" ")
}

/// The path with every `~` replaced by the home directory.
pub open spec fn spec_expand_tilde(p: Seq<char>, home: Seq<char>) -> Seq<char>
    decreases p.len(),
{
    if p.len() == 0 {
        Seq::empty()
    } else {
        (if p[0] == '~' {
            home
        } else {
            seq![p[0]]
        }) + spec_expand_tilde(p.skip(1), home)
    }
}

/// Replaces every `~` in a path by the home directory.
fn expand_tilde(p: &String, home: &String) -> (r: String)
    ensures
        r@ == spec_expand_tilde(p@, home@),
{
    let chars = chars_of(p.as_str());
    let home_chars = chars_of(home.as_str());
    let mut out: Vec<char> = Vec::new();
    let mut i: usize = 0;
    proof {
        assert(p@.skip(0) =~= p@);
        assert(Seq::<char>::empty() + spec_expand_tilde(p@, home@) =~= spec_expand_tilde(
            p@,
            home@,
        ));
    }
    while i < chars.len()
        invariant
            i <= chars.len(),
            chars@ == p@,
            home_chars@ == home@,
            spec_expand_tilde(p@, home@) == out@ + spec_expand_tilde(p@.skip(i as int), home@),
        decreases chars.len() - i,
    {
        proof {
            assert(p@.skip(i as int).len() == p@.len() - i);
            assert(p@.skip(i as int)[0] == p@[i as int]);
            assert(p@.skip(i as int).skip(1) =~= p@.skip(i + 1));
        }
        let ghost prev = out@;
        if chars[i] == '~' {
            let mut h = home_chars.clone();
            proof {
                assert(h@ =~= home@);
            }
            out.append(&mut h);
            proof {
                assert(out@ =~= prev + home@);
                assert(prev + (home@ + spec_expand_tilde(p@.skip(i + 1), home@)) =~= out@
                    + spec_expand_tilde(p@.skip(i + 1), home@));
            }
        } else {
            out.push(chars[i]);
            proof {
                assert(out@ =~= prev + seq![p@[i as int]]);
                assert(prev + (seq![p@[i as int]] + spec_expand_tilde(p@.skip(i + 1), home@))
                    =~= out@ + spec_expand_tilde(p@.skip(i + 1), home@));
            }
        }
        i = i + 1;
    }
    proof {
        assert(p@.skip(p@.len() as int) =~= Seq::<char>::empty());
        assert(out@ + Seq::<char>::empty() =~= out@);
    }
    string_from_chars(&out)
}

/// What the dispatcher decided for one simple command.
#[derive(Debug)]
pub enum Dispatch {
    /// The command is done; this is its result (built-ins, empty commands,
    /// and "command not found").
    Done(CommandResult),
    /// `exit`: terminate the shell with this code.
    Exit(i32),
    /// `pwd`: the caller reads the working directory and reports it with
    /// [`pwd_result`].
    QueryCwd,
    /// `cd`: the caller changes to this directory and reports the outcome
    /// with [`cd_result`].
    ChangeDir(String),
    /// An external command: spawn the executable at the path (first field)
    /// under its name (second field) with these arguments, the standard
    /// streams wired by the caller.
    Spawn(String, String, Vec<String>),
}

/// Specification-level dispatch decision.
pub ghost enum DispatchView {
    Done((OutputView, int)),
    Exit(int),
    QueryCwd,
    ChangeDir(Seq<char>),
    Spawn(Seq<char>, Seq<char>, Seq<Seq<char>>),
}

impl View for Dispatch {
    type V = DispatchView;

    open spec fn view(&self) -> DispatchView {
        match self {
            Dispatch::Done(r) => DispatchView::Done(r@),
            Dispatch::Exit(c) => DispatchView::Exit(*c as int),
            Dispatch::QueryCwd => DispatchView::QueryCwd,
            Dispatch::ChangeDir(p) => DispatchView::ChangeDir(p@),
            Dispatch::Spawn(p, n, a) => DispatchView::Spawn(p@, n@, a.deep_view()),
        }
    }
}

/// The view of an optional string.
pub open spec fn opt_view(o: Option<String>) -> Option<Seq<char>> {
    match o {
        Some(s) => Some(s@),
        None => None,
    }
}

/// The exit code `exit` uses: its first argument read as an integer, 0 when
/// absent or not an integer.
pub open spec fn spec_exit_code(args: Seq<Seq<char>>) -> int {
    if args.len() > 0 && spec_parse_i32(args[0]) is Some {
        spec_parse_i32(args[0])->0 as int
    } else {
        0
    }
}

/// The first argument, or empty text when there is none.
pub open spec fn spec_first_arg(args: Seq<Seq<char>>) -> Seq<char> {
    if args.len() > 0 {
        args[0]
    } else {
        Seq::empty()
    }
}

/// What `type` reports of a name: a built-in, the indexed path, or not
/// found (exit code 1).
pub open spec fn spec_type_output(n: Seq<char>, index: Seq<(Seq<char>, Seq<char>)>) -> (
    OutputView,
    int,
) {
    if is_builtin_name(n) {
        (OutputView::Stdout(n + " is a shell builtin"@, false), 0)
    } else {
        match spec_lookup(index, n) {
            Some(p) => (OutputView::Stdout(n + " is "@ + p, false), 0),
            None => (OutputView::Stderr(n + ": not found"@, false), 1),
        }
    }
}

/// The dispatch decision for one command.
///
/// An empty word list or an empty name is a finished no-op with exit code
/// 0. The built-ins `exit`, `echo`, `type`, `pwd` and `cd` are decided
/// here; `cd` without a home directory is a dispatch-tier error (exit code
/// 1), not a failure of the shell. Any other name is spawned at its indexed
/// path, or reported as not found with exit code 127.
pub open spec fn spec_dispatch(
    params: Seq<Seq<char>>,
    index: Seq<(Seq<char>, Seq<char>)>,
    home: Option<Seq<char>>,
) -> DispatchView {
    if params.len() == 0 || params[0].len() == 0 {
        DispatchView::Done((OutputView::NoOutput, 0))
    } else {
        let name = params[0];
        let args = params.skip(1);
        if name == "exit"@ {
            DispatchView::Exit(spec_exit_code(args))
        } else if name == "echo"@ {
            DispatchView::Done((OutputView::Stdout(spec_join_spaces(args), false), 0))
        } else if name == "type"@ {
            DispatchView::Done(spec_type_output(spec_first_arg(args), index))
        } else if name == "pwd"@ {
            DispatchView::QueryCwd
        } else if name == "cd"@ {
            match home {
                Some(h) => DispatchView::ChangeDir(
                    spec_expand_tilde(
                        if args.len() > 0 {
                            args[0]
                        } else {
                            "~"@
                        },
                        h,
                    ),
                ),
                None => DispatchView::Done((OutputView::Stderr("cd: HOME not set"@, false), 1)),
            }
        } else {
            match spec_lookup(index, name) {
                Some(p) => DispatchView::Spawn(p, name, args),
                None => DispatchView::Done(
                    (OutputView::Stderr(name + ": command not found\n"@, true), 127),
                ),
            }
        }
    }
}

/// What the dispatcher is given: the command's words, the executable index,
/// and the home directory (read from the environment by the caller).
pub struct ExecuteArgs<'a> {
    /// The command's words: name first, then the arguments.
    pub params: Vec<String>,
    /// The index of external executables.
    pub path: &'a PathIndex,
    /// The home directory, if the environment has one.
    pub home: Option<String>,
}

/// Decides one simple command: computes built-ins, and turns everything
/// that must touch the operating system into an instruction for the caller.
pub fn execute(args: ExecuteArgs) -> (d: Dispatch)
    ensures
        d@ == spec_dispatch(args.params.deep_view(), args.path@, opt_view(args.home)),
{
    let ExecuteArgs { params, path, home } = args;
    let ghost ps = params.deep_view();
    if params.len() == 0 {
        return Dispatch::Done(CommandResult::no_output());
    }
    if params[0].as_str().is_empty() {
        proof {
            assert(ps[0].len() == 0);
        }
        return Dispatch::Done(CommandResult::no_output());
    }
    proof {
        assert(ps[0].len() != 0);
    }
    let a = Arguments::new(params);
    let name = a.cmd();
    if str_eq(name.as_str(), "exit") {
        Dispatch::Exit(a.get_int(0, 0))
    } else if str_eq(name.as_str(), "echo") {
        let raw = a.get_raw();
        let joined = join_words(&raw);
        Dispatch::Done(CommandResult { output: CommandOutput::Stdout(joined, false), exit_code: 0 })
    } else if str_eq(name.as_str(), "type") {
        let exe = a.get_str(0, String::new());
        if is_builtin(exe.as_str()) {
            let mut s = exe;
            s.append(" is a shell builtin");
            Dispatch::Done(
                CommandResult { output: CommandOutput::Stdout(s, false), exit_code: 0 },
            )
        } else {
            match path.lookup(exe.as_str()) {
                Some(p) => {
                    let mut s = exe;
                    s.append(" is ");
                    s.append(p.as_str());
                    Dispatch::Done(
                        CommandResult { output: CommandOutput::Stdout(s, false), exit_code: 0 },
                    )
                }
                None => {
                    let mut s = exe;
                    s.append(": not found");
                    Dispatch::Done(
                        CommandResult { output: CommandOutput::Stderr(s, false), exit_code: 1 },
                    )
                }
            }
        }
    } else if str_eq(name.as_str(), "pwd") {
        Dispatch::QueryCwd
    } else if str_eq(name.as_str(), "cd") {
        match home {
            Some(h) => {
                let arg = a.get_str(0, String::from_str("~"));
                Dispatch::ChangeDir(expand_tilde(&arg, &h))
            }
            None => Dispatch::Done(
                CommandResult {
                    output: CommandOutput::Stderr(String::from_str("cd: HOME not set"), false),
                    exit_code: 1,
                },
            ),
        }
    } else {
        match path.lookup(name.as_str()) {
            Some(p) => Dispatch::Spawn(p, name, a.get_raw()),
            None => {
                let mut s = name;
                s.append(": command not found\n");
                Dispatch::Done(
                    CommandResult { output: CommandOutput::Stderr(s, true), exit_code: 127 },
                )
            }
        }
    }
}

/// The result `pwd` reports: the working directory, with a newline added
/// when rendered, and exit code 0.
pub fn pwd_result(cwd: String) -> (r: CommandResult)
    ensures
        r@ == (OutputView::Stdout(cwd@, false), 0int),
{
    CommandResult { output: CommandOutput::Stdout(cwd, false), exit_code: 0 }
}

/// The result `cd` reports: silence and exit code 0 when the directory
/// change succeeded, the error line and exit code 1 when it did not.
pub fn cd_result(target: &String, ok: bool) -> (r: CommandResult)
    ensures
        ok ==> r@ == (OutputView::NoOutput, 0int),
        !ok ==> r@ == (
            OutputView::Stderr("cd: "@ + target@ + ": No such file or directory"@, false),
            1int,
        ),
{
    if ok {
        CommandResult { output: CommandOutput::NoOutput, exit_code: 0 }
    } else {
        let mut s = String::from_str("cd: ");
        s.append(target.as_str());
        s.append(": No such file or directory");
        CommandResult { output: CommandOutput::Stderr(s, false), exit_code: 1 }
    }
}

/// One character of splitting on single spaces: every space ends the
/// current word (consecutive spaces give empty words).
pub open spec fn split_sp_step(st: (Seq<char>, Seq<Seq<char>>), c: char) -> (
    Seq<char>,
    Seq<Seq<char>>,
) {
    let (cur, done) = st;
    if c == ' ' {
        (Seq::<char>::empty(), done.push(cur))
    } else {
        (cur.push(c), done)
    }
}

/// Splitting on single spaces, character by character.
pub open spec fn split_sp_run(s: Seq<char>) -> (Seq<char>, Seq<Seq<char>>)
    decreases s.len(),
{
    if s.len() == 0 {
        (Seq::<char>::empty(), Seq::<Seq<char>>::empty())
    } else {
        split_sp_step(split_sp_run(s.drop_last()), s.last())
    }
}

/// The text split on every single space.
pub open spec fn spec_split_spaces(s: Seq<char>) -> Seq<Seq<char>> {
    let (cur, done) = split_sp_run(s);
    done.push(cur)
}

proof fn lemma_split_sp_word(s: Seq<char>, w: Seq<char>)
    requires
        forall|i: int| 0 <= i < w.len() ==> (#[trigger] w[i]) != ' ',
    ensures
        split_sp_run(s + w) == (split_sp_run(s).0 + w, split_sp_run(s).1),
    decreases w.len(),
{
    if w.len() == 0 {
        assert(s + w =~= s);
        assert(split_sp_run(s).0 + w =~= split_sp_run(s).0);
    } else {
        let w2 = w.drop_last();
        assert(forall|i: int| 0 <= i < w2.len() ==> (#[trigger] w2[i]) != ' ');
        lemma_split_sp_word(s, w2);
        assert((s + w).drop_last() =~= s + w2);
        assert((s + w).last() == w.last());
        assert((split_sp_run(s).0 + w2).push(w.last()) =~= split_sp_run(s).0 + w);
    }
}

proof fn lemma_join_then_split(ws: Seq<Seq<char>>)
    requires
        ws.len() > 0,
        forall|i: int, j: int|
            0 <= i < ws.len() && 0 <= j < ws[i].len() ==> #[trigger] ws[i][j] != ' ',
    ensures
        split_sp_run(spec_join_spaces(ws)) == (ws.last(), ws.drop_last()),
    decreases ws.len(),
{
    if ws.len() == 1 {
        lemma_split_sp_word(Seq::empty(), ws[0]);
        assert(Seq::<char>::empty() + ws[0] =~= ws[0]);
        assert(spec_join_spaces(ws) == ws[0]);
        assert(split_sp_run(ws[0]).0 =~= ws[0]);
        assert(split_sp_run(ws[0]).1 =~= ws.drop_last());
    } else {
        let prefix = ws.drop_last();
        assert(forall|i: int, j: int|
            0 <= i < prefix.len() && 0 <= j < prefix[i].len() ==> #[trigger] prefix[i][j]
                != ' ') by {
            assert(forall|i: int| 0 <= i < prefix.len() ==> prefix[i] == ws[i]);
        }
        lemma_join_then_split(prefix);
        let j1 = spec_join_spaces(prefix);
        let j2 = j1 + seq![' '];
        assert(j2.drop_last() =~= j1);
        assert(j2.last() == ' ');
        assert(split_sp_run(j2) == (
            Seq::<char>::empty(),
            prefix.drop_last().push(prefix.last()),
        ));
        assert(prefix.drop_last().push(prefix.last()) =~= prefix);
        assert(forall|i: int| 0 <= i < ws.last().len() ==> (#[trigger] ws.last()[i]) != ' ');
        lemma_split_sp_word(j2, ws.last());
        assert(spec_join_spaces(ws) == j1 + seq![' '] + ws.last());
        assert(j2 + ws.last() =~= spec_join_spaces(ws));
        assert(Seq::<char>::empty() + ws.last() =~= ws.last());
    }
}

/// `echo` is a left inverse of splitting on single spaces: for a non-empty
/// word list whose words hold no whitespace and no quote character,
/// splitting the space-joined text back on single spaces yields exactly the
/// word list.
pub proof fn lemma_echo_left_inverse(ws: Seq<Seq<char>>)
    requires
        ws.len() > 0,
        forall|i: int, j: int|
            0 <= i < ws.len() && 0 <= j < ws[i].len() ==> #[trigger] ws[i][j] != ' ' && ws[i][j]
                != '\t' && ws[i][j] != '\'' && ws[i][j] != '"',
    ensures
        spec_split_spaces(spec_join_spaces(ws)) == ws,
{
    assert(forall|i: int, j: int|
        0 <= i < ws.len() && 0 <= j < ws[i].len() ==> #[trigger] ws[i][j] != ' ');
    lemma_join_then_split(ws);
    assert(spec_split_spaces(spec_join_spaces(ws)) =~= ws.drop_last().push(ws.last()));
    assert(ws.drop_last().push(ws.last()) =~= ws);
}

/// What `echo` prints: dispatching `echo` with any word list produces the
/// arguments joined by single spaces on stdout, unflushed, with exit code
/// 0 — so rendering writes exactly the joined text followed by one newline.
pub proof fn lemma_echo_prints_join(
    params: Seq<Seq<char>>,
    index: Seq<(Seq<char>, Seq<char>)>,
    home: Option<Seq<char>>,
)
    requires
        params.len() > 0,
        params[0] == "echo"@,
    ensures
        spec_dispatch(params, index, home) == DispatchView::Done(
            (OutputView::Stdout(spec_join_spaces(params.skip(1)), false), 0),
        ),
        spec_rendered_stdout(OutputView::Stdout(spec_join_spaces(params.skip(1)), false)) == Some(
            spec_join_spaces(params.skip(1)).push('\n'),
        ),
{
    reveal_strlit("echo");
    reveal_strlit("exit");
    assert("echo"@ != "exit"@) by {
        assert("echo"@[1] == 'c');
        assert("exit"@[1] == 'x');
    }
}

} // verus!
