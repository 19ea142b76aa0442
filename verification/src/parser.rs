//! Parser: turns a list of shell words into a pipeline of simple commands,
//! extracting redirections.
//!
//! The word list is split on the word `|` into stages. Within each stage,
//! every redirection operator word consumes the following word as its
//! target; the remaining words are the command name and its arguments.
//! Operators are recognized only as whole words, never inside a word.

use vstd::prelude::*;

verus! {

/// Semantic kind of a redirection: which stream it binds and whether the
/// target file is appended to or truncated.
#[derive(Debug, Clone, Copy, PartialEq, Eq, Structural)]
pub enum RedirectionType {
    /// `>` or `1>`: stdout, truncating.
    Output,
    /// `>>` or `1>>`: stdout, appending.
    OutputAppend,
    /// `2>`: stderr, truncating.
    Error,
    /// `2>>`: stderr, appending.
    ErrorAppend,
}

/// The redirection operator words, one variant per spelling.
#[derive(Debug, Clone, Copy, PartialEq, Eq, Structural)]
pub enum Redirection {
    /// `>`
    Default,
    /// `>>`
    DefaultAppend,
    /// `1>`
    Output,
    /// `1>>`
    OutputAppend,
    /// `2>`
    Error,
    /// `2>>`
    ErrorAppend,
}

/// Why a word list failed to parse.
#[derive(Debug, Clone, Copy, PartialEq, Eq, Structural)]
pub enum ParseError {
    /// A `|` with no command words on one of its sides.
    EmptyStage,
    /// A redirection operator with no following target word.
    MissingRedirectTarget,
}

/// The redirection kind a word denotes, if it is an operator word.
pub open spec fn spec_redir_kind(w: Seq<char>) -> Option<RedirectionType> {
    if w == seq!['>'] || w == seq!['1', '>'] {
        Some(RedirectionType::Output)
    } else if w == seq!['>', '>'] || w == seq!['1', '>', '>'] {
        Some(RedirectionType::OutputAppend)
    } else if w == seq!['2', '>'] {
        Some(RedirectionType::Error)
    } else if w == seq!['2', '>', '>'] {
        Some(RedirectionType::ErrorAppend)
    } else {
        None
    }
}

/// Whether a word is the pipe operator.
pub open spec fn is_pipe_word(w: Seq<char>) -> bool {
    w == seq!['|']
}

impl RedirectionType {
    /// Classifies one word: `>`/`1>` truncate stdout, `>>`/`1>>` append to
    /// stdout, `2>` truncates stderr, `2>>` appends to stderr; anything
    /// else is not a redirection operator.
    pub fn from_str(s: &str) -> (r: Option<RedirectionType>)
        ensures
            r == spec_redir_kind(s@),
    {
        let n = s.unicode_len();
        if n == 1 {
            let c0 = s.get_char(0);
            if c0 == '>' {
                proof {
                    assert(s@ =~= seq!['>']);
                }
                Some(RedirectionType::Output)
            } else {
                None
            }
        } else if n == 2 {
            let c0 = s.get_char(0);
            let c1 = s.get_char(1);
            if c0 == '>' && c1 == '>' {
                proof {
                    assert(s@ =~= seq!['>', '>']);
                }
                Some(RedirectionType::OutputAppend)
            } else if c0 == '1' && c1 == '>' {
                proof {
                    assert(s@ =~= seq!['1', '>']);
                }
                Some(RedirectionType::Output)
            } else if c0 == '2' && c1 == '>' {
                proof {
                    assert(s@ =~= seq!['2', '>']);
                }
                Some(RedirectionType::Error)
            } else {
                None
            }
        } else if n == 3 {
            let c0 = s.get_char(0);
            let c1 = s.get_char(1);
            let c2 = s.get_char(2);
            if c0 == '1' && c1 == '>' && c2 == '>' {
                proof {
                    assert(s@ =~= seq!['1', '>', '>']);
                }
                Some(RedirectionType::OutputAppend)
            } else if c0 == '2' && c1 == '>' && c2 == '>' {
                proof {
                    assert(s@ =~= seq!['2', '>', '>']);
                }
                Some(RedirectionType::ErrorAppend)
            } else {
                None
            }
        } else {
            None
        }
    }

    /// Whether this kind binds stderr (rather than stdout).
    pub open spec fn spec_is_stderr(self) -> bool {
        self == RedirectionType::Error || self == RedirectionType::ErrorAppend
    }

    /// Whether this kind appends (rather than truncates).
    pub open spec fn spec_is_append(self) -> bool {
        self == RedirectionType::OutputAppend || self == RedirectionType::ErrorAppend
    }

    /// Whether this kind binds stderr (rather than stdout).
    pub fn is_stderr(&self) -> (r: bool)
        ensures
            r == self.spec_is_stderr(),
    {
        match self {
            RedirectionType::Error | RedirectionType::ErrorAppend => true,
            _ => false,
        }
    }

    /// Whether this kind appends (rather than truncates).
    pub fn is_append(&self) -> (r: bool)
        ensures
            r == self.spec_is_append(),
    {
        match self {
            RedirectionType::OutputAppend | RedirectionType::ErrorAppend => true,
            _ => false,
        }
    }
}

/// The operator word a [`Redirection`] variant spells.
pub open spec fn spec_redirection_word(r: Redirection) -> Seq<char> {
    match r {
        Redirection::Default => seq!['>'],
        Redirection::DefaultAppend => seq!['>', '>'],
        Redirection::Output => seq!['1', '>'],
        Redirection::OutputAppend => seq!['1', '>', '>'],
        Redirection::Error => seq!['2', '>'],
        Redirection::ErrorAppend => seq!['2', '>', '>'],
    }
}

impl Redirection {
    /// The variant whose spelling is exactly this word, if any.
    pub fn from_word(s: &str) -> (r: Option<Redirection>)
        ensures
            match r {
                Some(v) => spec_redirection_word(v) == s@,
                None => forall|v: Redirection| spec_redirection_word(v) != s@,
            },
    {
        let n = s.unicode_len();
        if n == 1 && s.get_char(0) == '>' {
            proof {
                assert(s@ =~= seq!['>']);
            }
            Some(Redirection::Default)
        } else if n == 2 {
            let c0 = s.get_char(0);
            let c1 = s.get_char(1);
            if c0 == '>' && c1 == '>' {
                proof {
                    assert(s@ =~= seq!['>', '>']);
                }
                Some(Redirection::DefaultAppend)
            } else if c0 == '1' && c1 == '>' {
                proof {
                    assert(s@ =~= seq!['1', '>']);
                }
                Some(Redirection::Output)
            } else if c0 == '2' && c1 == '>' {
                proof {
                    assert(s@ =~= seq!['2', '>']);
                }
                Some(Redirection::Error)
            } else {
                None
            }
        } else if n == 3 {
            let c0 = s.get_char(0);
            let c1 = s.get_char(1);
            let c2 = s.get_char(2);
            if c0 == '1' && c1 == '>' && c2 == '>' {
                proof {
                    assert(s@ =~= seq!['1', '>', '>']);
                }
                Some(Redirection::OutputAppend)
            } else if c0 == '2' && c1 == '>' && c2 == '>' {
                proof {
                    assert(s@ =~= seq!['2', '>', '>']);
                }
                Some(Redirection::ErrorAppend)
            } else {
                None
            }
        } else {
            None
        }
    }

    /// The semantic kind of this operator.
    pub fn kind(&self) -> (k: RedirectionType)
        ensures
            Some(k) == spec_redir_kind(spec_redirection_word(*self)),
    {
        let k = match self {
            Redirection::Default | Redirection::Output => RedirectionType::Output,
            Redirection::DefaultAppend | Redirection::OutputAppend => RedirectionType::OutputAppend,
            Redirection::Error => RedirectionType::Error,
            Redirection::ErrorAppend => RedirectionType::ErrorAppend,
        };
        proof {
            assert(seq!['>'].len() == 1);
            assert(seq!['>', '>'].len() == 2);
            assert(seq!['1', '>'].len() == 2);
            assert(seq!['1', '>', '>'].len() == 3);
            assert(seq!['2', '>'].len() == 2);
            assert(seq!['2', '>', '>'].len() == 3);
            assert(seq!['>', '>'][0] == '>' && seq!['1', '>'][0] == '1' && seq!['2', '>'][0]
                == '2');
            assert(seq!['1', '>', '>'][0] == '1' && seq!['2', '>', '>'][0] == '2');
            assert(spec_redir_kind(seq!['>']) == Some(RedirectionType::Output));
            assert(spec_redir_kind(seq!['1', '>']) == Some(RedirectionType::Output));
            assert(spec_redir_kind(seq!['>', '>']) == Some(RedirectionType::OutputAppend));
            assert(spec_redir_kind(seq!['1', '>', '>']) == Some(RedirectionType::OutputAppend));
            assert(spec_redir_kind(seq!['2', '>']) == Some(RedirectionType::Error));
            assert(spec_redir_kind(seq!['2', '>', '>']) == Some(RedirectionType::ErrorAppend));
        }
        k
    }
}

/// Whether a word is the pipe operator.
pub fn word_is_pipe(s: &str) -> (r: bool)
    ensures
        r == is_pipe_word(s@),
{
    let n = s.unicode_len();
    if n == 1 && s.get_char(0) == '|' {
        proof {
            assert(s@ =~= seq!['|']);
        }
        true
    } else {
        false
    }
}

/// One redirection of a simple command: its kind and its target path.
#[derive(Debug, PartialEq, Eq)]
pub struct RedirBinding {
    /// Which stream is redirected, and whether the file is appended to.
    pub kind: RedirectionType,
    /// The target path word.
    pub target: String,
}

impl View for RedirBinding {
    type V = (RedirectionType, Seq<char>);

    open spec fn view(&self) -> (RedirectionType, Seq<char>) {
        (self.kind, self.target@)
    }
}

/// A simple command: name, argument words, and redirections in the order
/// they were written (when one stream is redirected twice, the last one
/// wins; see [`effective_redir`]).
#[derive(Debug, PartialEq, Eq)]
pub struct SimpleCommand {
    /// The command name; empty when the stage had only redirections.
    pub name: String,
    /// The argument words, without the redirections.
    pub args: Vec<String>,
    /// The redirections, in the order they appeared.
    pub redirs: Vec<RedirBinding>,
}

/// Specification-level stage: name, arguments, redirections.
pub type SpecStage = (Seq<char>, Seq<Seq<char>>, Seq<(RedirectionType, Seq<char>)>);

impl View for SimpleCommand {
    type V = SpecStage;

    open spec fn view(&self) -> SpecStage {
        (
            self.name@,
            self.args.deep_view(),
            Seq::new(self.redirs@.len(), |i: int| self.redirs@[i]@),
        )
    }
}

/// An ordered list of simple commands connected by pipes.
#[derive(Debug, PartialEq, Eq)]
pub struct Pipeline {
    /// The stages, left to right; empty exactly when the input line held
    /// no words.
    pub stages: Vec<SimpleCommand>,
}

impl View for Pipeline {
    type V = Seq<SpecStage>;

    open spec fn view(&self) -> Seq<SpecStage> {
        Seq::new(self.stages@.len(), |i: int| self.stages@[i]@)
    }
}

/// One word of the stage-splitting pass: a pipe word completes the current
/// stage, any other word joins it.
pub open spec fn split_step(
    st: (Seq<Seq<char>>, Seq<Seq<Seq<char>>>),
    w: Seq<char>,
) -> (Seq<Seq<char>>, Seq<Seq<Seq<char>>>) {
    let (cur, done) = st;
    if is_pipe_word(w) {
        (Seq::<Seq<char>>::empty(), done.push(cur))
    } else {
        (cur.push(w), done)
    }
}

/// The stage-splitting pass over a whole word list.
pub open spec fn split_run(ws: Seq<Seq<char>>) -> (Seq<Seq<char>>, Seq<Seq<Seq<char>>>)
    decreases ws.len(),
{
    if ws.len() == 0 {
        (Seq::<Seq<char>>::empty(), Seq::<Seq<Seq<char>>>::empty())
    } else {
        split_step(split_run(ws.drop_last()), ws.last())
    }
}

/// The word list split into stages on the word `|`. There is always one
/// more stage than there are pipe words; stages may be empty.
pub open spec fn spec_split_stages(ws: Seq<Seq<char>>) -> Seq<Seq<Seq<char>>> {
    let (cur, done) = split_run(ws);
    done.push(cur)
}

/// Redirection extraction from one stage's words: each operator word
/// consumes the following word as its target; the remaining words are
/// returned with the ordered redirection list. Fails when an operator has
/// no following word.
pub open spec fn spec_stage_scan(words: Seq<Seq<char>>) -> Result<
    (Seq<Seq<char>>, Seq<(RedirectionType, Seq<char>)>),
    ParseError,
>
    decreases words.len(),
{
    if words.len() == 0 {
        Ok((Seq::<Seq<char>>::empty(), Seq::<(RedirectionType, Seq<char>)>::empty()))
    } else {
        match spec_redir_kind(words[0]) {
            Some(k) => if words.len() >= 2 {
                match spec_stage_scan(words.skip(2)) {
                    Ok((rem, rs)) => Ok((rem, seq![(k, words[1])] + rs)),
                    Err(e) => Err(e),
                }
            } else {
                Err(ParseError::MissingRedirectTarget)
            },
            None => match spec_stage_scan(words.skip(1)) {
                Ok((rem, rs)) => Ok((seq![words[0]] + rem, rs)),
                Err(e) => Err(e),
            },
        }
    }
}

/// The stage a segment of words denotes: the first remaining word is the
/// command name (empty when the segment held only redirections), the rest
/// are its arguments.
pub open spec fn spec_stage_of(seg: Seq<Seq<char>>) -> SpecStage {
    let (rem, rs) = spec_stage_scan(seg)->Ok_0;
    if rem.len() > 0 {
        (rem[0], rem.skip(1), rs)
    } else {
        (Seq::<char>::empty(), Seq::<Seq<char>>::empty(), rs)
    }
}

/// The pipeline a word list denotes.
///
/// An empty word list denotes the empty pipeline. A pipe word with no
/// command words on one of its sides is an [`ParseError::EmptyStage`]
/// error; a redirection operator with no following word is a
/// [`ParseError::MissingRedirectTarget`] error.
pub open spec fn spec_parse(ws: Seq<Seq<char>>) -> Result<Seq<SpecStage>, ParseError> {
    let segs = spec_split_stages(ws);
    if ws.len() == 0 {
        Ok(Seq::<SpecStage>::empty())
    } else if exists|i: int| 0 <= i < segs.len() && (#[trigger] segs[i]).len() == 0 {
        Err(ParseError::EmptyStage)
    } else if exists|i: int| 0 <= i < segs.len() && (#[trigger] spec_stage_scan(segs[i])) is Err {
        Err(ParseError::MissingRedirectTarget)
    } else {
        Ok(Seq::new(segs.len(), |i: int| spec_stage_of(segs[i])))
    }
}

/// The views of a redirection list.
pub open spec fn spec_redirs(rs: Seq<RedirBinding>) -> Seq<(RedirectionType, Seq<char>)> {
    Seq::new(rs.len(), |i: int| rs[i]@)
}

fn split_stages(words: &Vec<String>) -> (r: Vec<Vec<String>>)
    ensures
        r.deep_view() == spec_split_stages(words.deep_view()),
{
    let ghost ws = words.deep_view();
    let mut done: Vec<Vec<String>> = Vec::new();
    let mut cur: Vec<String> = Vec::new();
    let mut i: usize = 0;
    proof {
        assert(ws.take(0) =~= Seq::<Seq<char>>::empty());
        assert(cur.deep_view() =~= Seq::<Seq<char>>::empty());
        assert(done.deep_view() =~~= Seq::<Seq<Seq<char>>>::empty());
    }
    while i < words.len()
        invariant
            i <= words.len(),
            ws == words.deep_view(),
            ws.len() == words@.len(),
            (cur.deep_view(), done.deep_view()) == split_run(ws.take(i as int)),
        decreases words.len() - i,
    {
        proof {
            assert(ws.take(i + 1).drop_last() =~= ws.take(i as int));
            assert(ws.take(i + 1).last() == ws[i as int]);
        }
        let ghost prev_cur = cur.deep_view();
        let ghost prev_done = done.deep_view();
        if word_is_pipe(words[i].as_str()) {
            done.push(cur);
            cur = Vec::new();
            proof {
                assert(cur.deep_view() =~= Seq::<Seq<char>>::empty());
                assert(done.deep_view() =~~= prev_done.push(prev_cur));
            }
        } else {
            cur.push(words[i].clone());
            proof {
                assert(cur.deep_view() =~= prev_cur.push(ws[i as int]));
            }
        }
        i = i + 1;
    }
    proof {
        assert(ws.take(ws.len() as int) =~= ws);
    }
    let ghost prev_done = done.deep_view();
    let ghost final_cur = cur.deep_view();
    done.push(cur);
    proof {
        assert(done.deep_view() =~~= prev_done.push(final_cur));
    }
    done
}

/// Extracts the redirections from one stage's words and builds the stage.
fn scan_stage(seg: &Vec<String>) -> (r: Result<SimpleCommand, ParseError>)
    ensures
        match r {
            Ok(sc) => spec_stage_scan(seg.deep_view()) is Ok && sc@ == spec_stage_of(
                seg.deep_view(),
            ),
            Err(e) => spec_stage_scan(seg.deep_view()) == Err::<
                (Seq<Seq<char>>, Seq<(RedirectionType, Seq<char>)>),
                ParseError,
            >(e),
        },
{
    let ghost ws = seg.deep_view();
    let mut rem: Vec<String> = Vec::new();
    let mut rs: Vec<RedirBinding> = Vec::new();
    let mut i: usize = 0;
    proof {
        assert(ws.skip(0) =~= ws);
        assert(rem.deep_view() =~= Seq::<Seq<char>>::empty());
        assert(spec_redirs(rs@) =~= Seq::<(RedirectionType, Seq<char>)>::empty());
        if spec_stage_scan(ws) is Ok {
            assert(Seq::<Seq<char>>::empty() + spec_stage_scan(ws)->Ok_0.0 =~= spec_stage_scan(
                ws,
            )->Ok_0.0);
            assert(Seq::<(RedirectionType, Seq<char>)>::empty() + spec_stage_scan(ws)->Ok_0.1
                =~= spec_stage_scan(ws)->Ok_0.1);
        }
    }
    while i < seg.len()
        invariant
            i <= seg.len(),
            ws == seg.deep_view(),
            ws.len() == seg@.len(),
            ({
                let tail = spec_stage_scan(ws.skip(i as int));
                let full = spec_stage_scan(ws);
                &&& (tail is Ok ==> full == Ok::<
                    (Seq<Seq<char>>, Seq<(RedirectionType, Seq<char>)>),
                    ParseError,
                >((rem.deep_view() + tail->Ok_0.0, spec_redirs(rs@) + tail->Ok_0.1)))
                &&& (tail is Err ==> full == Err::<
                    (Seq<Seq<char>>, Seq<(RedirectionType, Seq<char>)>),
                    ParseError,
                >(tail->Err_0))
            }),
        decreases seg.len() - i,
    {
        proof {
            assert(ws.skip(i as int).len() == ws.len() - i);
            assert(ws.skip(i as int)[0] == ws[i as int]);
            if i + 1 < seg.len() {
                assert(ws.skip(i as int)[1] == ws[i + 1]);
            }
            assert(ws.skip(i as int).skip(1) =~= ws.skip(i + 1));
            if i + 2 <= seg.len() {
                assert(ws.skip(i as int).skip(2) =~= ws.skip(i + 2));
            }
        }
        let ghost prev_rem = rem.deep_view();
        let ghost prev_rs = spec_redirs(rs@);
        match RedirectionType::from_str(seg[i].as_str()) {
            Some(k) => {
                if i + 1 < seg.len() {
                    rs.push(RedirBinding { kind: k, target: seg[i + 1].clone() });
                    proof {
                        assert(spec_redirs(rs@) =~= prev_rs.push((k, ws[i + 1])));
                        let tail2 = spec_stage_scan(ws.skip(i + 2));
                        if tail2 is Ok {
                            assert(prev_rs + (seq![(k, ws[i + 1])] + tail2->Ok_0.1) =~= spec_redirs(
                                rs@,
                            ) + tail2->Ok_0.1);
                        }
                    }
                    i = i + 2;
                } else {
                    return Err(ParseError::MissingRedirectTarget);
                }
            }
            None => {
                rem.push(seg[i].clone());
                proof {
                    assert(rem.deep_view() =~= prev_rem.push(ws[i as int]));
                    let tail2 = spec_stage_scan(ws.skip(i + 1));
                    if tail2 is Ok {
                        assert(prev_rem + (seq![ws[i as int]] + tail2->Ok_0.0) =~= rem.deep_view()
                            + tail2->Ok_0.0);
                    }
                }
                i = i + 1;
            }
        }
    }
    proof {
        assert(ws.skip(ws.len() as int) =~= Seq::<Seq<char>>::empty());
        assert(rem.deep_view() + Seq::<Seq<char>>::empty() =~= rem.deep_view());
        assert(spec_redirs(rs@) + Seq::<(RedirectionType, Seq<char>)>::empty() =~= spec_redirs(
            rs@,
        ));
    }
    if rem.len() > 0 {
        let ghost whole_rem = rem.deep_view();
        let name = rem.remove(0);
        proof {
            assert(rem.deep_view() =~= whole_rem.skip(1));
        }
        let sc = SimpleCommand { name, args: rem, redirs: rs };
        Ok(sc)
    } else {
        let sc = SimpleCommand { name: String::new(), args: rem, redirs: rs };
        proof {
            assert(sc@.1 =~= Seq::<Seq<char>>::empty());
        }
        Ok(sc)
    }
}

/// Parses a word list into a pipeline.
///
/// The words are split into stages on the word `|`; in each stage every
/// redirection operator word consumes the following word as its target, and
/// the remaining words are the command name and its arguments. An empty
/// word list gives an empty pipeline. Fails with
/// [`ParseError::EmptyStage`] when a `|` has no command words on one of its
/// sides, and with [`ParseError::MissingRedirectTarget`] when an operator
/// has no following word.
pub fn parse(words: &Vec<String>) -> (r: Result<Pipeline, ParseError>)
    ensures
        match r {
            Ok(p) => spec_parse(words.deep_view()) == Ok::<Seq<SpecStage>, ParseError>(p@),
            Err(e) => spec_parse(words.deep_view()) == Err::<Seq<SpecStage>, ParseError>(e),
        },
{
    let ghost ws = words.deep_view();
    if words.len() == 0 {
        let p = Pipeline { stages: Vec::new() };
        proof {
            assert(ws.len() == 0);
            assert(p@ =~= Seq::<SpecStage>::empty());
        }
        return Ok(p);
    }
    let segs = split_stages(words);
    let ghost segs_dv = segs.deep_view();
    let mut i: usize = 0;
    while i < segs.len()
        invariant
            i <= segs.len(),
            ws == words.deep_view(),
            ws.len() > 0,
            segs_dv == segs.deep_view(),
            segs_dv == spec_split_stages(ws),
            segs_dv.len() == segs@.len(),
            forall|k: int| 0 <= k < i ==> (#[trigger] segs_dv[k]).len() != 0,
        decreases segs.len() - i,
    {
        if segs[i].len() == 0 {
            proof {
                assert(segs_dv[i as int].len() == 0);
                assert(ws.len() > 0);
            }
            return Err(ParseError::EmptyStage);
        }
        i = i + 1;
    }
    let mut stages: Vec<SimpleCommand> = Vec::new();
    let mut j: usize = 0;
    while j < segs.len()
        invariant
            j <= segs.len(),
            ws == words.deep_view(),
            ws.len() > 0,
            segs_dv == segs.deep_view(),
            segs_dv == spec_split_stages(ws),
            segs_dv.len() == segs@.len(),
            stages@.len() == j,
            forall|k: int| 0 <= k < segs_dv.len() ==> (#[trigger] segs_dv[k]).len() != 0,
            forall|k: int|
                0 <= k < j ==> (#[trigger] spec_stage_scan(segs_dv[k])) is Ok && stages@[k]@
                    == spec_stage_of(segs_dv[k]),
        decreases segs.len() - j,
    {
        match scan_stage(&segs[j]) {
            Ok(sc) => {
                stages.push(sc);
            }
            Err(_) => {
                proof {
                    assert(spec_stage_scan(segs_dv[j as int]) is Err);
                    assert(ws.len() > 0);
                }
                return Err(ParseError::MissingRedirectTarget);
            }
        }
        j = j + 1;
    }
    let p = Pipeline { stages };
    proof {
        assert(ws.len() > 0);
        assert(Seq::new(segs_dv.len(), |k: int| spec_stage_of(segs_dv[k])) =~= p@);
    }
    Ok(p)
}

/// The redirection that finally binds one stream of a stage: the last one
/// written for that stream, as its append flag and target path.
pub open spec fn spec_effective_redir(
    rs: Seq<(RedirectionType, Seq<char>)>,
    stderr: bool,
) -> Option<(bool, Seq<char>)>
    decreases rs.len(),
{
    if rs.len() == 0 {
        None
    } else if rs.last().0.spec_is_stderr() == stderr {
        Some((rs.last().0.spec_is_append(), rs.last().1))
    } else {
        spec_effective_redir(rs.drop_last(), stderr)
    }
}

impl SimpleCommand {
    /// The effective redirection of one stream (stderr when `stderr` is
    /// true, stdout otherwise): the last redirection written for it, as its
    /// append flag and target path. Later redirections win over earlier
    /// ones.
    pub fn effective_redir(&self, stderr: bool) -> (r: Option<(bool, String)>)
        ensures
            match r {
                Some(v) => spec_effective_redir(self@.2, stderr) == Some((v.0, v.1@)),
                None => spec_effective_redir(self@.2, stderr) is None,
            },
    {
        let ghost rv = self@.2;
        let mut j: usize = self.redirs.len();
        proof {
            assert(rv.take(rv.len() as int) =~= rv);
        }
        while j > 0
            invariant
                j <= self.redirs.len(),
                rv == self@.2,
                rv.len() == self.redirs@.len(),
                spec_effective_redir(rv, stderr) == spec_effective_redir(
                    rv.take(j as int),
                    stderr,
                ),
            decreases j,
        {
            let jj = j - 1;
            proof {
                assert(rv.take(j as int).drop_last() =~= rv.take(jj as int));
                assert(rv.take(j as int).last() == rv[jj as int]);
                assert(rv[jj as int] == self.redirs@[jj as int]@);
            }
            let rb = &self.redirs[jj];
            if rb.kind.is_stderr() == stderr {
                return Some((rb.kind.is_append(), rb.target.clone()));
            }
            j = jj;
        }
        proof {
            assert(rv.take(0) =~= Seq::<(RedirectionType, Seq<char>)>::empty());
        }
        None
    }
}

proof fn lemma_split_no_pipes(ws: Seq<Seq<char>>)
    requires
        forall|i: int| 0 <= i < ws.len() ==> !is_pipe_word(#[trigger] ws[i]),
    ensures
        split_run(ws) == (ws, Seq::<Seq<Seq<char>>>::empty()),
    decreases ws.len(),
{
    if ws.len() == 0 {
        assert(ws =~= Seq::<Seq<char>>::empty());
    } else {
        lemma_split_no_pipes(ws.drop_last());
        assert(!is_pipe_word(ws.last()));
        assert(ws.drop_last().push(ws.last()) =~= ws);
    }
}

proof fn lemma_scan_no_ops(ws: Seq<Seq<char>>)
    requires
        forall|i: int| 0 <= i < ws.len() ==> spec_redir_kind(#[trigger] ws[i]) is None,
    ensures
        spec_stage_scan(ws) == Ok::<(Seq<Seq<char>>, Seq<(RedirectionType, Seq<char>)>),
            ParseError,
        >((ws, Seq::<(RedirectionType, Seq<char>)>::empty())),
    decreases ws.len(),
{
    if ws.len() == 0 {
        assert(ws =~= Seq::<Seq<char>>::empty());
    } else {
        assert(forall|i: int|
            0 <= i < ws.skip(1).len() ==> spec_redir_kind(#[trigger] ws.skip(1)[i]) is None) by {
            assert(forall|i: int| 0 <= i < ws.skip(1).len() ==> ws.skip(1)[i] == ws[i + 1]);
        }
        lemma_scan_no_ops(ws.skip(1));
        assert(seq![ws[0]] + ws.skip(1) =~= ws);
    }
}

/// A word list with no redirection operator and no pipe word parses to
/// exactly one stage, with no redirections, whose name is the first word
/// and whose arguments are the remaining words.
pub proof fn lemma_plain_words_single_stage(ws: Seq<Seq<char>>)
    requires
        ws.len() > 0,
        forall|i: int|
            0 <= i < ws.len() ==> spec_redir_kind(#[trigger] ws[i]) is None && !is_pipe_word(
                ws[i],
            ),
    ensures
        spec_parse(ws) == Ok::<Seq<SpecStage>, ParseError>(
            seq![(ws[0], ws.skip(1), Seq::<(RedirectionType, Seq<char>)>::empty())],
        ),
{
    lemma_split_no_pipes(ws);
    let segs = spec_split_stages(ws);
    assert(segs =~= seq![ws]);
    assert(forall|i: int| 0 <= i < segs.len() ==> (#[trigger] segs[i]).len() != 0);
    lemma_scan_no_ops(ws);
    assert(forall|i: int| 0 <= i < segs.len() ==> (#[trigger] spec_stage_scan(segs[i])) is Ok);
    assert(Seq::new(segs.len(), |i: int| spec_stage_of(segs[i])) =~= seq![
        (ws[0], ws.skip(1), Seq::<(RedirectionType, Seq<char>)>::empty()),
    ]);
}

/// Lexing the text of a word that contains no whitespace, quote, or
/// backslash character and is not a redirection or pipe operator yields the
/// word list holding exactly that word.
pub proof fn lemma_plain_word_roundtrip(w: Seq<char>)
    requires
        w.len() > 0,
        forall|i: int| 0 <= i < w.len() ==> crate::lexer::is_plain_char(#[trigger] w[i]),
        spec_redir_kind(w) is None,
        !is_pipe_word(w),
    ensures
        crate::lexer::spec_tokenize(w) == Ok::<Seq<Seq<char>>, crate::lexer::LexError>(seq![w]),
{
    crate::lexer::lemma_plain_word_lexes_to_itself(w);
}

} // verus!
