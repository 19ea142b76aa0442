//! Argument model: the words of one command, with typed read-on-demand
//! access.
//!
//! Arguments are plain text; built-ins that want a typed value (such as the
//! exit code of `exit`) parse the word when they read it and fall back to a
//! default on absence or mismatch. External commands receive the raw word
//! vector unchanged.

use vstd::prelude::*;
use crate::lexer::chars_of;

verus! {

/// Whether a character is a decimal digit.
pub open spec fn is_digit_char(c: char) -> bool {
    48 <= c as u32 && c as u32 <= 57
}

/// The value of one decimal digit.
pub open spec fn digit_val(c: char) -> int {
    c as u32 as int - 48
}

/// Whether a text is all decimal digits.
pub open spec fn all_digits(s: Seq<char>) -> bool {
    forall|i: int| 0 <= i < s.len() ==> is_digit_char(#[trigger] s[i])
}

/// The value of a digit string, most significant digit first.
pub open spec fn digits_val(s: Seq<char>) -> int
    decreases s.len(),
{
    if s.len() == 0 {
        0
    } else {
        digits_val(s.drop_last()) * 10 + digit_val(s.last())
    }
}

/// The `i32` a word denotes under the standard decimal syntax: an optional
/// `+` or `-` sign, then one or more digits, and the value must fit in an
/// `i32`; anything else denotes no integer.
pub open spec fn spec_parse_i32(s: Seq<char>) -> Option<i32> {
    let body = if s.len() > 0 && (s[0] == '+' || s[0] == '-') {
        s.skip(1)
    } else {
        s
    };
    let neg = s.len() > 0 && s[0] == '-';
    if body.len() > 0 && all_digits(body) {
        let v = if neg {
            -digits_val(body)
        } else {
            digits_val(body)
        };
        if -0x8000_0000 <= v && v <= 0x7fff_ffff {
            Some(v as i32)
        } else {
            None
        }
    } else {
        None
    }
}

proof fn lemma_digits_val_nonneg(s: Seq<char>)
    requires
        all_digits(s),
    ensures
        digits_val(s) >= 0,
    decreases s.len(),
{
    if s.len() > 0 {
        assert(forall|i: int|
            0 <= i < s.drop_last().len() ==> is_digit_char(#[trigger] s.drop_last()[i]));
        lemma_digits_val_nonneg(s.drop_last());
    }
}

fn parse_i32_chars(s: &Vec<char>) -> (r: Option<i32>)
    ensures
        r == spec_parse_i32(s@),
{
    let n = s.len();
    if n == 0 {
        return None;
    }
    let c0 = s[0];
    let neg = c0 == '-';
    let start: usize = if c0 == '-' || c0 == '+' {
        1
    } else {
        0
    };
    let ghost body = if start == 1 {
        s@.skip(1)
    } else {
        s@
    };
    proof {
        if start == 0 {
            assert(s@.skip(0) =~= s@);
        }
        assert(body =~= s@.skip(start as int));
        assert(body.take(0) =~= Seq::<char>::empty());
    }
    if n == start {
        return None;
    }
    let mut acc: i64 = 0;
    let mut overflow: bool = false;
    let mut i: usize = start;
    while i < n
        invariant
            start <= i <= n,
            n == s@.len(),
            n > start,
            start == 0 || start == 1,
            (start == 1) <==> (s@[0] == '+' || s@[0] == '-'),
            neg == (s@[0] == '-'),
            body == s@.skip(start as int),
            body.len() == n - start,
            all_digits(body.take((i - start) as int)),
            !overflow ==> acc == digits_val(body.take((i - start) as int)) && 0 <= acc
                <= 0x8000_0000,
            overflow ==> digits_val(body.take((i - start) as int)) > 0x8000_0000,
        decreases n - i,
    {
        let c = s[i];
        let u = c as u32;
        let ghost k = (i - start) as int;
        proof {
            assert(body[k] == s@[i as int]);
            assert(body.take(k + 1).drop_last() =~= body.take(k));
            assert(body.take(k + 1).last() == body[k]);
        }
        if u < 48 || u > 57 {
            proof {
                assert(!is_digit_char(body[k]));
                assert(!all_digits(body));
            }
            return None;
        }
        let d: i64 = (u - 48) as i64;
        proof {
            assert(all_digits(body.take(k + 1))) by {
                assert(forall|q: int| 0 <= q < k ==> body.take(k + 1)[q] == body.take(k)[q]);
                assert(is_digit_char(body.take(k + 1)[k]));
            }
            assert(digits_val(body.take(k + 1)) == digits_val(body.take(k)) * 10 + digit_val(
                body[k],
            ));
        }
        if overflow {
            proof {
                lemma_digits_val_nonneg(body.take(k));
            }
        } else {
            let step = acc * 10 + d;
            if step > 0x8000_0000 {
                overflow = true;
            } else {
                acc = step;
            }
        }
        i = i + 1;
    }
    proof {
        assert(body.take((n - start) as int) =~= body);
    }
    if overflow {
        proof {
            lemma_digits_val_nonneg(body);
        }
        return None;
    }
    if neg {
        let v: i64 = -acc;
        proof {
            lemma_digits_val_nonneg(body);
        }
        Some(v as i32)
    } else {
        if acc <= 0x7fff_ffff {
            Some(acc as i32)
        } else {
            proof {
                lemma_digits_val_nonneg(body);
            }
            None
        }
    }
}

/// Parses a word as an `i32`: optional sign, then digits, value in range;
/// `None` otherwise.
pub fn parse_i32(s: &str) -> (r: Option<i32>)
    ensures
        r == spec_parse_i32(s@),
{
    let chars = chars_of(s);
    parse_i32_chars(&chars)
}

/// The command name and argument words of one command, with typed
/// read-on-demand access for built-ins.
pub struct Arguments {
    cmd: String,
    raw_args: Vec<String>,
}

impl Arguments {
    /// The name of the command.
    pub closed spec fn spec_cmd(&self) -> Seq<char> {
        self.cmd@
    }

    /// The argument words, in order.
    pub closed spec fn spec_args(&self) -> Seq<Seq<char>> {
        self.raw_args.deep_view()
    }

    /// Splits a non-empty word list into the command name and its
    /// arguments.
    pub fn new(cmd: Vec<String>) -> (r: Arguments)
        requires
            cmd@.len() > 0,
        ensures
            r.spec_cmd() == cmd.deep_view()[0],
            r.spec_args() == cmd.deep_view().skip(1),
    {
        let mut words = cmd;
        let ghost whole = words.deep_view();
        let name = words.remove(0);
        proof {
            assert(words.deep_view() =~= whole.skip(1));
        }
        Arguments { cmd: name, raw_args: words }
    }

    /// The command name.
    pub fn cmd(&self) -> (r: String)
        ensures
            r@ == self.spec_cmd(),
    {
        self.cmd.clone()
    }

    /// The raw argument words, unclassified, as handed to external
    /// commands.
    pub fn get_raw(&self) -> (r: Vec<String>)
        ensures
            r.deep_view() == self.spec_args(),
    {
        let r = self.raw_args.clone();
        proof {
            assert(r.deep_view() =~= self.raw_args.deep_view());
        }
        r
    }

    /// The number of argument words.
    pub fn len(&self) -> (r: usize)
        ensures
            r == self.spec_args().len(),
    {
        self.raw_args.len()
    }

    /// Reads argument `index` as an `i32`; the default when the argument is
    /// missing or does not parse.
    pub fn get_int(&self, index: usize, default: i32) -> (r: i32)
        ensures
            r == if index < self.spec_args().len() && spec_parse_i32(self.spec_args()[index as int])
                is Some {
                spec_parse_i32(self.spec_args()[index as int])->0
            } else {
                default
            },
    {
        if index < self.raw_args.len() {
            match parse_i32(self.raw_args[index].as_str()) {
                Some(v) => v,
                None => default,
            }
        } else {
            default
        }
    }

    /// Reads argument `index` as text; the default when the argument is
    /// missing.
    pub fn get_str(&self, index: usize, default: String) -> (r: String)
        ensures
            r@ == if index < self.spec_args().len() {
                self.spec_args()[index as int]
            } else {
                default@
            },
    {
        if index < self.raw_args.len() {
            self.raw_args[index].clone()
        } else {
            default
        }
    }
}

} // verus!
