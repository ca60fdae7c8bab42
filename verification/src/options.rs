//! The command line: width, height, samples per pixel and the output name.
//!
//! The arguments arrive as strings, the program's own name first. Numbers are
//! written in decimal: an optional `+`, then digits `0` to `9` and nothing
//! else, with a value that fits 32 bits.

use vstd::prelude::*;
use vstd::string::{StrSliceExecFns, StringExecFns};

verus! {

/// Why the command line could not be read.
#[derive(Debug, PartialEq, Eq)]
pub enum ParseError {
    /// An argument is missing.
    TooFewArgs,
    /// The argument, given here, is not a number as described above.
    InvalidInteger(String),
}

/// What the command line asks for.
#[derive(Debug, PartialEq, Eq)]
pub struct Options {
    pub width: u32,
    pub height: u32,
    pub sample_count: u32,
    pub output_name: String,
}

/// The arguments that are still to be read.
pub struct ParseArgs {
    args: Vec<String>,
    next: usize,
}

/// `c` is one of `0` to `9`.
pub open spec fn is_digit(c: char) -> bool {
    '0' <= c <= '9'
}

/// What the digit `c` counts; 0 for any other character.
pub open spec fn digit_value(c: char) -> nat {
    if is_digit(c) {
        (c as nat - '0' as nat) as nat
    } else {
        0
    }
}

/// Every character of `s` is a digit.
pub open spec fn all_digits(s: Seq<char>) -> bool {
    forall|i: int| 0 <= i < s.len() ==> is_digit(#[trigger] s[i])
}

/// The number that the digits of `s` write in decimal.
pub open spec fn decimal_value(s: Seq<char>) -> nat
    decreases s.len(),
{
    if s.len() == 0 {
        0
    } else {
        decimal_value(s.drop_last()) * 10 + digit_value(s.last())
    }
}

/// `s` without its leading `+`, if it has one.
pub open spec fn unsigned_part(s: Seq<char>) -> Seq<char> {
    if s.len() > 0 && s[0] == '+' {
        s.drop_first()
    } else {
        s
    }
}

/// The number that `s` writes, if it writes one that fits 32 bits.
pub open spec fn spec_parse_u32(s: Seq<char>) -> Option<u32> {
    let digits = unsigned_part(s);
    if digits.len() > 0 && all_digits(digits) && decimal_value(digits) <= u32::MAX {
        Some(decimal_value(digits) as u32)
    } else {
        None
    }
}

/// What the arguments ask for. They are read in order, and the first one
/// that is missing or is not a number decides the error.
pub open spec fn spec_parse_options(args: Seq<String>) -> Result<Options, ParseError> {
    if args.len() < 2 {
        Err(ParseError::TooFewArgs)
    } else if spec_parse_u32(args[1]@) is None {
        Err(ParseError::InvalidInteger(args[1]))
    } else if args.len() < 3 {
        Err(ParseError::TooFewArgs)
    } else if spec_parse_u32(args[2]@) is None {
        Err(ParseError::InvalidInteger(args[2]))
    } else if args.len() < 4 {
        Err(ParseError::TooFewArgs)
    } else if spec_parse_u32(args[3]@) is None {
        Err(ParseError::InvalidInteger(args[3]))
    } else if args.len() < 5 {
        Err(ParseError::TooFewArgs)
    } else {
        Ok(
            Options {
                width: spec_parse_u32(args[1]@).unwrap(),
                height: spec_parse_u32(args[2]@).unwrap(),
                sample_count: spec_parse_u32(args[3]@).unwrap(),
                output_name: args[4],
            },
        )
    }
}

impl ParseError {
    /// The text of the error.
    pub open spec fn spec_message(&self) -> Seq<char> {
        match self {
            ParseError::TooFewArgs => "Too Few Args"@,
            ParseError::InvalidInteger(s) => "Not an integer: "@ + s@,
        }
    }

    /// The error as a line for the user.
    pub fn to_string(&self) -> (r: String)
        ensures
            r@ == self.spec_message(),
    {
        match self {
            ParseError::TooFewArgs => String::from_str("Too Few Args"),
            ParseError::InvalidInteger(s) => String::from_str("Not an integer: ").concat(s.as_str()),
        }
    }
}

impl ParseArgs {
    #[verifier::type_invariant]
    spec fn in_bounds(&self) -> bool {
        self.next <= self.args.len()
    }

    /// The arguments not yet read, in order.
    pub closed spec fn remaining(&self) -> Seq<String> {
        self.args@.skip(self.next as int)
    }

    /// A reader that stands before the first of `args`.
    pub fn new(args: Vec<String>) -> (r: ParseArgs)
        ensures
            r.remaining() == args@,
    {
        ParseArgs { args, next: 0 }
    }

    /// Reads the next argument, or fails if none is left.
    pub fn require_arg(&mut self) -> (r: Result<String, ParseError>)
        ensures
            old(self).remaining().len() == 0 ==> r == Err::<String, ParseError>(ParseError::TooFewArgs)
                && final(self).remaining() == old(self).remaining(),
            old(self).remaining().len() > 0 ==> r == Ok::<String, ParseError>(old(self).remaining()[0])
                && final(self).remaining() == old(self).remaining().drop_first(),
    {
        proof {
            use_type_invariant(&*self);
        }
        if self.next < self.args.len() {
            let s = self.args[self.next].clone();
            assert(self.args@.skip(self.next as int).drop_first() =~= self.args@.skip(self.next + 1));
            self.next = self.next + 1;
            Ok(s)
        } else {
            Err(ParseError::TooFewArgs)
        }
    }
}

/// A longer run of characters never writes a smaller number.
proof fn lemma_decimal_value_grows(s: Seq<char>, k: int)
    requires
        0 <= k <= s.len(),
    ensures
        decimal_value(s.take(k)) <= decimal_value(s),
    decreases s.len() - k,
{
    if k < s.len() {
        let longer = s.take(k + 1);
        assert(longer.drop_last() =~= s.take(k));
        lemma_decimal_value_grows(s, k + 1);
    } else {
        assert(s.take(k) =~= s);
    }
}

/// Reads a number.
///
/// Succeeds exactly on an optional `+` followed by one or more digits whose
/// value fits 32 bits. On anything else the error gives the string back.
pub fn parse_u32(s: String) -> (r: Result<u32, ParseError>)
    ensures
        spec_parse_u32(s@) matches Some(v) ==> r == Ok::<u32, ParseError>(v),
        spec_parse_u32(s@) is None ==> r == Err::<u32, ParseError>(ParseError::InvalidInteger(s)),
{
    let text = s.as_str();
    let len: usize = text.unicode_len();
    let start: usize = if len > 0 && text.get_char(0) == '+' {
        1
    } else {
        0
    };
    let ghost digits = unsigned_part(s@);
    assert(digits =~= s@.skip(start as int));
    if start == len {
        return Err(ParseError::InvalidInteger(s));
    }
    let mut value: u64 = 0;
    let mut i: usize = start;
    while i < len
        invariant
            start <= i <= len,
            len == s@.len(),
            text@ == s@,
            digits == unsigned_part(s@),
            digits.len() == len - start,
            all_digits(digits.take(i - start)),
            value == decimal_value(digits.take(i - start)),
            value <= u32::MAX,
        decreases len - i,
    {
        let c: char = text.get_char(i);
        let ghost k = i - start;
        assert(digits =~= s@.skip(start as int));
        assert(digits[k] == c);
        if !(c >= '0' && c <= '9') {
            assert(!is_digit(digits[k]));
            return Err(ParseError::InvalidInteger(s));
        }
        let digit: u64 = (c as u64) - ('0' as u64);
        let next: u64 = value * 10 + digit;
        proof {
            let longer = digits.take(k + 1);
            assert(longer.drop_last() =~= digits.take(k));
            assert(longer.last() == c);
            assert(next == decimal_value(longer));
            assert forall|j: int| 0 <= j < longer.len() implies is_digit(#[trigger] longer[j]) by {
                if j < k {
                    assert(digits.take(k)[j] == longer[j]);
                }
            }
        }
        if next > 0xffff_ffff {
            proof {
                lemma_decimal_value_grows(digits, k + 1);
            }
            return Err(ParseError::InvalidInteger(s));
        }
        value = next;
        i = i + 1;
    }
    assert(digits.take(i - start) =~= digits);
    Ok(value as u32)
}

/// Reads the options from the arguments of the program, its own name first.
pub fn parse_options(args: Vec<String>) -> (r: Result<Options, ParseError>)
    ensures
        r == spec_parse_options(args@),
{
    let ghost all = args@;
    let mut parse_args = ParseArgs::new(args);
    match parse_args.require_arg() {
        Ok(_) => {},
        Err(e) => {
            return Err(e);
        },
    }
    let width_str = match parse_args.require_arg() {
        Ok(s) => s,
        Err(e) => {
            return Err(e);
        },
    };
    let width = match parse_u32(width_str) {
        Ok(v) => v,
        Err(e) => {
            return Err(e);
        },
    };
    let height_str = match parse_args.require_arg() {
        Ok(s) => s,
        Err(e) => {
            return Err(e);
        },
    };
    let height = match parse_u32(height_str) {
        Ok(v) => v,
        Err(e) => {
            return Err(e);
        },
    };
    let sample_count_str = match parse_args.require_arg() {
        Ok(s) => s,
        Err(e) => {
            return Err(e);
        },
    };
    let sample_count = match parse_u32(sample_count_str) {
        Ok(v) => v,
        Err(e) => {
            return Err(e);
        },
    };
    let output_name = match parse_args.require_arg() {
        Ok(s) => s,
        Err(e) => {
            return Err(e);
        },
    };
    Ok(Options { width, height, sample_count, output_name })
}

} // verus!
