//! Lexer: turns one raw line of input into shell words.
//!
//! The lexer makes two passes. A raw pass splits the line on unquoted
//! whitespace while keeping quote characters and backslash pairs intact,
//! so that quoted regions are never split. A second pass
//! ([`process_string`]) resolves quoting on each raw word: single quotes
//! keep everything literal, double quotes honor only the escapes `\"` and
//! `\\`, and outside quotes a backslash makes the next character literal.

use vstd::prelude::*;

verus! {

broadcast use vstd::string::group_string_axioms;

/// Why a line failed to lex.
#[derive(Debug, Clone, Copy, PartialEq, Eq, Structural)]
pub enum LexError {
    /// The line ended while a quoted region was still open.
    UnclosedQuote,
    /// The line ended with a lone backslash outside quotes.
    TrailingEscape,
}

/// Double-quote escape resolution: `\"` becomes `"`, `\\` becomes `\`,
/// any other backslash is preserved.
pub open spec fn dq_unescape(s: Seq<char>) -> Seq<char>
    decreases s.len(),
{
    if s.len() == 0 {
        Seq::empty()
    } else if s[0] == '\\' && s.len() >= 2 && (s[1] == '"' || s[1] == '\\') {
        seq![s[1]] + dq_unescape(s.skip(2))
    } else {
        seq![s[0]] + dq_unescape(s.skip(1))
    }
}

/// The characters of a string slice, as a vector.
pub(crate) fn chars_of(s: &str) -> (r: Vec<char>)
    ensures
        r@ == s@,
{
    let mut out: Vec<char> = Vec::new();
    for c in it: s.chars()
        invariant
            it.seq() == s@,
            out@ == s@.take(it.index() as int),
    {
        out.push(c);
    }
    proof {
        assert(s@.take(s@.len() as int) =~= s@);
    }
    out
}

/// Collects characters back into an owned string.
///
/// Relies on `String`'s `FromIterator<char>` implementation: collecting
/// characters yields the string made of exactly those characters in order.
#[verifier::external_body]
pub(crate) fn string_from_chars(v: &Vec<char>) -> (r: String)
    ensures
        r@ == v@,
{
    v.iter().collect()
}

/// Applies the double-quote escape rules to a vector of characters.
fn unescape_chars(s: &Vec<char>) -> (r: Vec<char>)
    ensures
        r@ == dq_unescape(s@),
{
    let mut out: Vec<char> = Vec::new();
    let mut i: usize = 0;
    proof {
        assert(s@.skip(0) =~= s@);
        assert(Seq::<char>::empty() + dq_unescape(s@) =~= dq_unescape(s@));
    }
    while i < s.len()
        invariant
            i <= s.len(),
            dq_unescape(s@) == out@ + dq_unescape(s@.skip(i as int)),
        decreases s.len() - i,
    {
        proof {
            assert(s@.skip(i as int).len() == s@.len() - i);
            assert(s@.skip(i as int)[0] == s@[i as int]);
            if i + 1 < s.len() {
                assert(s@.skip(i as int)[1] == s@[i + 1]);
            }
            assert(s@.skip(i as int).skip(1) =~= s@.skip(i + 1));
            if i + 2 <= s.len() {
                assert(s@.skip(i as int).skip(2) =~= s@.skip(i + 2));
            }
        }
        if s[i] == '\\' && i + 1 < s.len() && (s[i + 1] == '"' || s[i + 1] == '\\') {
            out.push(s[i + 1]);
            i = i + 2;
        } else {
            out.push(s[i]);
            i = i + 1;
        }
    }
    proof {
        assert(s@.skip(s@.len() as int) =~= Seq::<char>::empty());
        assert(dq_unescape(s@) =~= out@);
    }
    out
}

/// Resolves the escapes of a double-quoted region: `\"` becomes `"`,
/// `\\` becomes `\`, and any other backslash is preserved.
pub fn unescape_string(s: &str) -> (r: String)
    ensures
        r@ == dq_unescape(s@),
{
    let chars = chars_of(s);
    let out = unescape_chars(&chars);
    string_from_chars(&out)
}

/// State of quote resolution: text already resolved, the still-open quoted
/// part, which quote (if any) is open, and whether a backslash is pending.
pub type LexState = (Seq<char>, Seq<char>, Option<char>, bool);

/// What a closing quote contributes: double-quoted parts have their escapes
/// resolved, single-quoted parts are literal.
pub open spec fn flush_part(part: Seq<char>, q: char) -> Seq<char> {
    if q == '"' {
        dq_unescape(part)
    } else {
        part
    }
}

/// One character of quote resolution.
///
/// A pending backslash makes the next character literal: outside quotes the
/// backslash itself is dropped, inside quotes both characters are kept (the
/// double-quote pair is resolved later by [`flush_part`]). Otherwise a quote
/// character opens or closes a quoted region, a backslash becomes pending,
/// and any other character is copied.
pub open spec fn lex_step(st: LexState, c: char) -> LexState {
    let (result, part, quote, esc) = st;
    if esc {
        if quote is Some {
            (result, part + seq!['\\', c], quote, false)
        } else {
            (result.push(c), part, quote, false)
        }
    } else if quote is None && (c == '\'' || c == '"') {
        (result, part, Some(c), false)
    } else if quote == Some(c) {
        (result + flush_part(part, c), Seq::<char>::empty(), None::<char>, false)
    } else if c == '\\' {
        (result, part, quote, true)
    } else {
        if quote is Some {
            (result, part.push(c), quote, false)
        } else {
            (result.push(c), part, quote, false)
        }
    }
}

/// Quote resolution of a whole word, character by character.
pub open spec fn lex_run(s: Seq<char>) -> LexState
    decreases s.len(),
{
    if s.len() == 0 {
        (Seq::<char>::empty(), Seq::<char>::empty(), None::<char>, false)
    } else {
        lex_step(lex_run(s.drop_last()), s.last())
    }
}

/// End of a word: a trailing backslash is kept literally; a still-open
/// quote is an error (`None`), otherwise the resolved text is returned.
pub open spec fn lex_finish(st: LexState) -> Option<Seq<char>> {
    let (result, part, quote, esc) = st;
    let (r2, p2): (Seq<char>, Seq<char>) = if esc {
        if quote is Some {
            (result, part.push('\\'))
        } else {
            (result.push('\\'), part)
        }
    } else {
        (result, part)
    };
    if quote is Some {
        None
    } else {
        Some(r2 + p2)
    }
}

/// Quote resolution of one raw word: `None` exactly when a quote is left
/// open.
pub open spec fn spec_process(s: Seq<char>) -> Option<Seq<char>> {
    lex_finish(lex_run(s))
}

/// Running state of quote resolution over one raw word.
struct StringState {
    result: Vec<char>,
    current_part: Vec<char>,
    in_quote: Option<char>,
    pending_escape: bool,
}

impl View for StringState {
    type V = LexState;

    closed spec fn view(&self) -> LexState {
        (self.result@, self.current_part@, self.in_quote, self.pending_escape)
    }
}

impl StringState {
    fn new() -> (st: Self)
        ensures
            st@ == lex_run(Seq::<char>::empty()),
    {
        StringState {
            result: Vec::new(),
            current_part: Vec::new(),
            in_quote: None,
            pending_escape: false,
        }
    }

    /// Closes the open quoted region, resolving its escapes if it was
    /// double-quoted.
    fn finish_quote(&mut self)
        requires
            old(self).in_quote is Some,
        ensures
            final(self)@ == ((old(self).result@ + flush_part(
                old(self).current_part@,
                old(self).in_quote->0,
            )), Seq::<char>::empty(), None::<char>, old(self).pending_escape),
    {
        let q = match self.in_quote {
            Some(q) => q,
            None => unreached(),
        };
        if q == '"' {
            let mut unescaped = unescape_chars(&self.current_part);
            self.result.append(&mut unescaped);
            self.current_part = Vec::new();
        } else {
            self.result.append(&mut self.current_part);
        }
        self.in_quote = None;
    }

    /// Records a backslash; the following character will be taken literally.
    fn handle_backslash(&mut self)
        ensures
            final(self)@ == (old(self).result@, old(self).current_part@, old(self).in_quote, true),
    {
        self.pending_escape = true;
    }

    /// Advances the state by one character.
    fn step(&mut self, c: char)
        ensures
            final(self)@ == lex_step(old(self)@, c),
    {
        if self.pending_escape {
            match self.in_quote {
                Some(_) => {
                    self.current_part.push('\\');
                    self.current_part.push(c);
                }
                None => {
                    self.result.push(c);
                }
            }
            self.pending_escape = false;
            proof {
                assert(old(self).current_part@ + seq!['\\', c] =~= old(self).current_part@.push(
                    '\\',
                ).push(c));
            }
        } else {
            let open_quote = match self.in_quote {
                None => c == '\'' || c == '"',
                Some(_) => false,
            };
            let close_quote = match self.in_quote {
                Some(q) => q == c,
                None => false,
            };
            if open_quote {
                self.in_quote = Some(c);
            } else if close_quote {
                self.finish_quote();
            } else if c == '\\' {
                self.handle_backslash();
            } else {
                match self.in_quote {
                    Some(_) => {
                        self.current_part.push(c);
                    }
                    None => {
                        self.result.push(c);
                    }
                }
            }
        }
    }

    /// Ends the word: keeps a trailing backslash literally, appends the
    /// last open part, and reports a still-open quote as an error.
    fn finish(self) -> (r: Result<Vec<char>, LexError>)
        ensures
            match r {
                Ok(v) => lex_finish(self@) == Some(v@),
                Err(e) => lex_finish(self@) is None && e == LexError::UnclosedQuote,
            },
    {
        let StringState { mut result, mut current_part, in_quote, pending_escape } = self;
        if pending_escape {
            match in_quote {
                Some(_) => current_part.push('\\'),
                None => result.push('\\'),
            }
        }
        match in_quote {
            Some(_) => Err(LexError::UnclosedQuote),
            None => {
                result.append(&mut current_part);
                Ok(result)
            }
        }
    }
}

/// Quote resolution over a vector of characters.
fn process_chars(s: &Vec<char>) -> (r: Result<Vec<char>, LexError>)
    ensures
        match r {
            Ok(v) => spec_process(s@) == Some(v@),
            Err(e) => spec_process(s@) is None && e == LexError::UnclosedQuote,
        },
{
    let mut st = StringState::new();
    let mut i: usize = 0;
    proof {
        assert(s@.take(0) =~= Seq::<char>::empty());
    }
    while i < s.len()
        invariant
            i <= s.len(),
            st@ == lex_run(s@.take(i as int)),
        decreases s.len() - i,
    {
        proof {
            assert(s@.take(i + 1).drop_last() =~= s@.take(i as int));
            assert(s@.take(i + 1).last() == s@[i as int]);
        }
        st.step(s[i]);
        i = i + 1;
    }
    proof {
        assert(s@.take(s@.len() as int) =~= s@);
    }
    st.finish()
}

/// State of the raw splitting pass: the word being built, the words already
/// completed, which quote (if any) is open, and whether a backslash is
/// pending.
pub type RawState = (Seq<char>, Seq<Seq<char>>, Option<char>, bool);

/// Whitespace that separates words outside quotes.
pub open spec fn is_space(c: char) -> bool {
    c == ' ' || c == '\t'
}

/// One character of the raw splitting pass.
///
/// Quote characters and backslash pairs are kept in the word, so that
/// [`spec_process`] can resolve them later; unquoted whitespace ends the
/// current word, and consecutive whitespace collapses.
pub open spec fn raw_step(st: RawState, c: char) -> RawState {
    let (cur, toks, quote, esc) = st;
    if esc {
        (cur + seq!['\\', c], toks, quote, false)
    } else if quote is None && (c == '\'' || c == '"') {
        (cur.push(c), toks, Some(c), false)
    } else if quote == Some(c) {
        (cur.push(c), toks, None::<char>, false)
    } else if c == '\\' {
        (cur, toks, quote, true)
    } else if quote is None && is_space(c) {
        if cur.len() > 0 {
            (Seq::<char>::empty(), toks.push(cur), quote, false)
        } else {
            (cur, toks, quote, false)
        }
    } else {
        (cur.push(c), toks, quote, false)
    }
}

/// The raw splitting pass over a whole line, character by character.
pub open spec fn raw_run(s: Seq<char>) -> RawState
    decreases s.len(),
{
    if s.len() == 0 {
        (Seq::<char>::empty(), Seq::<Seq<char>>::empty(), None::<char>, false)
    } else {
        raw_step(raw_run(s.drop_last()), s.last())
    }
}

/// The raw words of a line: an error if the line ends inside a quote
/// (`UnclosedQuote`) or with a pending backslash outside quotes
/// (`TrailingEscape`), otherwise the completed words plus the last
/// unfinished one (if non-empty).
pub open spec fn spec_raw_tokens(s: Seq<char>) -> Result<Seq<Seq<char>>, LexError> {
    let (cur, toks, quote, esc) = raw_run(s);
    if quote is Some {
        Err(LexError::UnclosedQuote)
    } else if esc {
        Err(LexError::TrailingEscape)
    } else if cur.len() > 0 {
        Ok(toks.push(cur))
    } else {
        Ok(toks)
    }
}

/// The words of a line: the raw words with quoting resolved on each.
pub open spec fn spec_tokenize(s: Seq<char>) -> Result<Seq<Seq<char>>, LexError> {
    match spec_raw_tokens(s) {
        Err(e) => Err(e),
        Ok(raws) => if forall|j: int|
            0 <= j < raws.len() ==> (#[trigger] spec_process(raws[j])) is Some {
            Ok(Seq::new(raws.len(), |j: int| spec_process(raws[j])->0))
        } else {
            Err(LexError::UnclosedQuote)
        },
    }
}

/// The raw splitting pass over a vector of characters.
fn raw_tokens(s: &Vec<char>) -> (r: Result<Vec<Vec<char>>, LexError>)
    ensures
        match r {
            Ok(v) => spec_raw_tokens(s@) == Ok::<Seq<Seq<char>>, LexError>(v.deep_view()),
            Err(e) => spec_raw_tokens(s@) == Err::<Seq<Seq<char>>, LexError>(e),
        },
{
    let mut cur: Vec<char> = Vec::new();
    let mut toks: Vec<Vec<char>> = Vec::new();
    let mut quote: Option<char> = None;
    let mut escaped: bool = false;
    let mut i: usize = 0;
    proof {
        assert(s@.take(0) =~= Seq::<char>::empty());
        assert(toks.deep_view() =~~= Seq::<Seq<char>>::empty());
    }
    while i < s.len()
        invariant
            i <= s.len(),
            (cur@, toks.deep_view(), quote, escaped) == raw_run(s@.take(i as int)),
        decreases s.len() - i,
    {
        proof {
            assert(s@.take(i + 1).drop_last() =~= s@.take(i as int));
            assert(s@.take(i + 1).last() == s@[i as int]);
        }
        let ghost prev = toks.deep_view();
        let c = s[i];
        if escaped {
            cur.push('\\');
            cur.push(c);
            escaped = false;
            proof {
                assert(raw_run(s@.take(i as int)).0 + seq!['\\', c] =~= raw_run(
                    s@.take(i as int),
                ).0.push('\\').push(c));
            }
        } else {
            let open_quote = match quote {
                None => c == '\'' || c == '"',
                Some(_) => false,
            };
            let close_quote = match quote {
                Some(q) => q == c,
                None => false,
            };
            let in_quote = match quote {
                Some(_) => true,
                None => false,
            };
            if open_quote {
                quote = Some(c);
                cur.push(c);
            } else if close_quote {
                quote = None;
                cur.push(c);
            } else if c == '\\' {
                escaped = true;
            } else if !in_quote && (c == ' ' || c == '\t') {
                if cur.len() > 0 {
                    toks.push(cur);
                    cur = Vec::new();
                    proof {
                        assert(toks.deep_view() =~~= prev.push(raw_run(s@.take(i as int)).0));
                    }
                }
            } else {
                cur.push(c);
            }
        }
        i = i + 1;
    }
    proof {
        assert(s@.take(s@.len() as int) =~= s@);
    }
    let still_quoted = match quote {
        Some(_) => true,
        None => false,
    };
    if still_quoted {
        return Err(LexError::UnclosedQuote);
    }
    if escaped {
        return Err(LexError::TrailingEscape);
    }
    if cur.len() > 0 {
        let ghost prev = toks.deep_view();
        toks.push(cur);
        proof {
            assert(toks.deep_view() =~~= prev.push(raw_run(s@).0));
        }
    }
    Ok(toks)
}

/// Splits one line of input into shell words.
///
/// A raw pass splits on unquoted whitespace (consecutive whitespace
/// collapses; empty input yields no words); quoting is then resolved on
/// each raw word. Fails with [`LexError::TrailingEscape`] when the line
/// ends with a lone unquoted backslash, and with
/// [`LexError::UnclosedQuote`] when a quote is left open.
pub fn tokenize(input: &str) -> (r: Result<Vec<String>, LexError>)
    ensures
        match r {
            Ok(v) => spec_tokenize(input@) == Ok::<Seq<Seq<char>>, LexError>(v.deep_view()),
            Err(e) => spec_tokenize(input@) == Err::<Seq<Seq<char>>, LexError>(e),
        },
{
    let chars = chars_of(input);
    let raws = match raw_tokens(&chars) {
        Ok(raws) => raws,
        Err(e) => {
            return Err(e);
        }
    };
    let mut out: Vec<String> = Vec::new();
    let mut j: usize = 0;
    while j < raws.len()
        invariant
            j <= raws.len(),
            spec_raw_tokens(chars@) == Ok::<Seq<Seq<char>>, LexError>(raws.deep_view()),
            chars@ == input@,
            out.deep_view().len() == j,
            forall|k: int|
                0 <= k < j ==> spec_process(#[trigger] raws.deep_view()[k]) == Some(
                    out.deep_view()[k],
                ),
        decreases raws.len() - j,
    {
        proof {
            assert(raws.deep_view()[j as int] =~= raws@[j as int]@);
        }
        let ghost prev = out.deep_view();
        match process_chars(&raws[j]) {
            Ok(v) => {
                out.push(string_from_chars(&v));
                proof {
                    assert(out.deep_view() =~= prev.push(v@));
                }
            }
            Err(e) => {
                proof {
                    assert(spec_process(raws.deep_view()[j as int]) is None);
                }
                return Err(e);
            }
        }
        j = j + 1;
    }
    proof {
        let raws_dv = raws.deep_view();
        assert(Seq::new(raws_dv.len(), |j: int| spec_process(raws_dv[j])->0) =~= out.deep_view());
    }
    Ok(out)
}

proof fn lemma_lex_run_push(s: Seq<char>, c: char)
    ensures
        lex_run(s.push(c)) == lex_step(lex_run(s), c),
{
    assert(s.push(c).drop_last() =~= s);
    assert(s.push(c).last() == c);
}

proof fn lemma_raw_run_push(s: Seq<char>, c: char)
    ensures
        raw_run(s.push(c)) == raw_step(raw_run(s), c),
{
    assert(s.push(c).drop_last() =~= s);
    assert(s.push(c).last() == c);
}

/// The word being built, together with a pending backslash that has not
/// been stored in it yet.
pub open spec fn raw_aug(cur: Seq<char>, esc: bool) -> Seq<char> {
    if esc {
        cur.push('\\')
    } else {
        cur
    }
}

/// Along the raw pass, quote resolution of the word being built tracks the
/// raw pass exactly: same open quote, same pending backslash, an open quote
/// is always one of the two quote characters, and every completed word
/// resolves successfully.
proof fn lemma_raw_lex_consistent(s: Seq<char>)
    ensures
        ({
            let (cur, toks, quote, esc) = raw_run(s);
            &&& lex_run(raw_aug(cur, esc)).2 == quote
            &&& lex_run(raw_aug(cur, esc)).3 == esc
            &&& (quote is Some ==> quote->0 == '\'' || quote->0 == '"')
            &&& forall|j: int| 0 <= j < toks.len() ==> (#[trigger] spec_process(toks[j])) is Some
        }),
    decreases s.len(),
{
    if s.len() == 0 {
    } else {
        let prefix = s.drop_last();
        let c = s.last();
        lemma_raw_lex_consistent(prefix);
        assert(prefix.push(c) =~= s);
        lemma_raw_run_push(prefix, c);
        let (cur, toks, quote, esc) = raw_run(prefix);
        let a = raw_aug(cur, esc);
        if esc {
            // The pending backslash and this character join the word.
            assert(cur + seq!['\\', c] =~= a.push(c));
            lemma_lex_run_push(a, c);
        } else if quote is None && (c == '\'' || c == '"') {
            lemma_lex_run_push(cur, c);
        } else if quote == Some(c) {
            lemma_lex_run_push(cur, c);
        } else if c == '\\' {
            // The backslash becomes pending on both sides.
            assert(raw_aug(cur, true) == cur.push('\\'));
            lemma_lex_run_push(cur, '\\');
        } else if quote is None && is_space(c) {
            // The word (if any) is completed; it resolves because no quote
            // is open and no backslash is pending in it.
            if cur.len() > 0 {
                let toks2 = raw_run(s).1;
                assert(toks2 == toks.push(cur));
                assert(spec_process(cur) is Some);
                assert(forall|j: int|
                    0 <= j < toks2.len() ==> (#[trigger] spec_process(toks2[j])) is Some) by {
                    assert(forall|j: int| 0 <= j < toks.len() ==> toks2[j] == toks[j]);
                }
            }
        } else {
            lemma_lex_run_push(cur, c);
        }
    }
}

/// A line with balanced quotes and no trailing backslash lexes
/// successfully, and no other line does: lexing succeeds exactly when the
/// raw scan of the line ends with no open quote and no pending backslash.
pub proof fn lemma_balanced_line_lexes(l: Seq<char>)
    ensures
        spec_tokenize(l) is Ok <==> (raw_run(l).2 is None && !raw_run(l).3),
{
    lemma_raw_lex_consistent(l);
    let (cur, toks, quote, esc) = raw_run(l);
    if quote is None && !esc {
        let raws = spec_raw_tokens(l)->Ok_0;
        if cur.len() > 0 {
            assert(raws == toks.push(cur));
            assert(spec_process(cur) is Some);
            assert(forall|j: int|
                0 <= j < raws.len() ==> (#[trigger] spec_process(raws[j])) is Some) by {
                assert(forall|j: int| 0 <= j < toks.len() ==> raws[j] == toks[j]);
            }
        }
    }
}

proof fn lemma_raw_run_whitespace(l: Seq<char>)
    requires
        forall|i: int| 0 <= i < l.len() ==> is_space(#[trigger] l[i]),
    ensures
        raw_run(l) == (Seq::<char>::empty(), Seq::<Seq<char>>::empty(), None::<char>, false),
    decreases l.len(),
{
    if l.len() > 0 {
        lemma_raw_run_whitespace(l.drop_last());
        assert(is_space(l.last()));
    }
}

/// A line of nothing but whitespace lexes to no words at all; in
/// particular, so does the empty line.
pub proof fn lemma_whitespace_only_line(l: Seq<char>)
    requires
        forall|i: int| 0 <= i < l.len() ==> is_space(#[trigger] l[i]),
    ensures
        spec_tokenize(l) == Ok::<Seq<Seq<char>>, LexError>(Seq::<Seq<char>>::empty()),
{
    lemma_raw_run_whitespace(l);
    let raws = Seq::<Seq<char>>::empty();
    assert(Seq::new(raws.len(), |j: int| spec_process(raws[j])->0) =~= raws);
}

/// A character with no special meaning to the lexer: not whitespace, not a
/// quote, not a backslash.
pub open spec fn is_plain_char(c: char) -> bool {
    !is_space(c) && c != '\'' && c != '"' && c != '\\'
}

proof fn lemma_raw_run_plain(w: Seq<char>)
    requires
        forall|i: int| 0 <= i < w.len() ==> is_plain_char(#[trigger] w[i]),
    ensures
        raw_run(w) == (w, Seq::<Seq<char>>::empty(), None::<char>, false),
    decreases w.len(),
{
    if w.len() == 0 {
        assert(w =~= Seq::<char>::empty());
    } else {
        lemma_raw_run_plain(w.drop_last());
        assert(is_plain_char(w.last()));
        assert(w.drop_last().push(w.last()) =~= w);
    }
}

proof fn lemma_lex_run_plain(w: Seq<char>)
    requires
        forall|i: int| 0 <= i < w.len() ==> is_plain_char(#[trigger] w[i]),
    ensures
        lex_run(w) == (w, Seq::<char>::empty(), None::<char>, false),
    decreases w.len(),
{
    if w.len() == 0 {
        assert(w =~= Seq::<char>::empty());
    } else {
        lemma_lex_run_plain(w.drop_last());
        assert(is_plain_char(w.last()));
        assert(w.drop_last().push(w.last()) =~= w);
    }
}

/// Lexing the text of a word made only of plain characters yields exactly
/// that word, alone.
pub proof fn lemma_plain_word_lexes_to_itself(w: Seq<char>)
    requires
        w.len() > 0,
        forall|i: int| 0 <= i < w.len() ==> is_plain_char(#[trigger] w[i]),
    ensures
        spec_tokenize(w) == Ok::<Seq<Seq<char>>, LexError>(seq![w]),
{
    lemma_raw_run_plain(w);
    lemma_lex_run_plain(w);
    let raws = spec_raw_tokens(w)->Ok_0;
    assert(raws =~= seq![w]);
    assert(spec_process(w) == Some(w + Seq::<char>::empty()));
    assert(w + Seq::<char>::empty() =~= w);
    assert(forall|j: int| 0 <= j < raws.len() ==> (#[trigger] spec_process(raws[j])) is Some);
    assert(Seq::new(raws.len(), |j: int| spec_process(raws[j])->0) =~= seq![w]);
}

/// Resolves quoting on one raw word, following the shell rules: single
/// quotes keep everything literal, double quotes honor only `\"` and `\\`,
/// and outside quotes a backslash makes the next character literal. Fails
/// exactly when a quote is left open.
pub fn process_string(input: &str) -> (r: Result<String, LexError>)
    ensures
        match r {
            Ok(v) => spec_process(input@) == Some(v@),
            Err(e) => spec_process(input@) is None && e == LexError::UnclosedQuote,
        },
{
    let chars = chars_of(input);
    match process_chars(&chars) {
        Ok(v) => Ok(string_from_chars(&v)),
        Err(e) => Err(e),
    }
}

} // verus!
