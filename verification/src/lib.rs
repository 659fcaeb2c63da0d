//! A single-pass recursive-descent JSON parser.
//!
//! The parser turns a complete text buffer into an in-memory [`Value`] tree,
//! or reports a structured [`ParseError`] naming the offending character and
//! its character offset.  Its behaviour is pinned down by a mathematical
//! grammar, the spec functions of [`grammar`]: the top-level entry point
//! [`parse`] returns exactly what the grammar assigns to the input.

use vstd::prelude::*;
use vstd::string::StringExecFns;

pub mod grammar;
pub mod parser;
pub mod laws;

pub use parser::Parser;
pub use parser::parse;

verus! {

/// A parsed JSON value.
///
/// `Array` and `Object` keep their elements and pairs in source order;
/// duplicate object keys are all retained.  `Number` carries the numeric
/// literal text assembled by the number production (escapes in `Text` are
/// already resolved); converting that text to a binary floating-point value
/// is left to the consumer, so the tree itself stays float-free.
#[derive(Debug, PartialEq)]
pub enum Value {
    Null,
    True,
    False,
    Text(String),
    Number(String),
    Array(Vec<Value>),
    Object(Vec<(String, Value)>),
}

/// The mathematical model of a [`Value`]: the same tree over `Seq<char>`.
pub enum Json {
    Null,
    True,
    False,
    Text(Seq<char>),
    Number(Seq<char>),
    Array(Seq<Json>),
    Object(Seq<(Seq<char>, Json)>),
}

/// The models of a sequence of values, in order.
pub open spec fn seq_view(vs: Seq<Value>) -> Seq<Json>
    decreases vs,
{
    Seq::new(
        vs.len(),
        |i: int|
            if 0 <= i < vs.len() {
                vs[i].view()
            } else {
                Json::Null
            },
    )
}

/// The models of a sequence of key-value pairs, in order.
pub open spec fn pairs_view(ps: Seq<(String, Value)>) -> Seq<(Seq<char>, Json)>
    decreases ps,
{
    Seq::new(
        ps.len(),
        |i: int|
            if 0 <= i < ps.len() {
                (ps[i].0@, ps[i].1.view())
            } else {
                (Seq::empty(), Json::Null)
            },
    )
}

impl View for Value {
    type V = Json;

    open spec fn view(&self) -> Json
        decreases self,
    {
        match self {
            Value::Null => Json::Null,
            Value::True => Json::True,
            Value::False => Json::False,
            Value::Text(t) => Json::Text(t@),
            Value::Number(n) => Json::Number(n@),
            Value::Array(vs) => Json::Array(seq_view(vs@)),
            Value::Object(ps) => Json::Object(pairs_view(ps@)),
        }
    }
}

impl Value {
    /// Extracts the text of a `Text` value; any other variant is refused.
    pub fn to_string(self) -> (r: Result<String, ()>)
        ensures
            (self@ matches Json::Text(t) ==> r matches Ok(s) && s@ == t),
            !(self@ is Text) ==> r is Err,
    {
        match self {
            Value::Text(string) => Ok(string),
            _ => Err(()),
        }
    }
}

/// A parse failure.
///
/// `UnexpectedToken` carries the offending character and its offset in
/// decoded characters from the start of the input.
/// `NumericConversionFailure` reports a number literal whose assembled text
/// has no numeric content (see [`grammar::spec_number`]).
#[derive(Debug, PartialEq, Eq, Clone, Copy)]
pub enum ParseError {
    UnexpectedEndOfInput,
    UnexpectedToken(char, usize),
    NumericConversionFailure,
}

/// The mathematical model of a [`ParseError`], with an unbounded offset.
pub enum JErr {
    Eoi,
    Tok(char, int),
    NumFail,
}

impl View for ParseError {
    type V = JErr;

    open spec fn view(&self) -> JErr {
        match *self {
            ParseError::UnexpectedEndOfInput => JErr::Eoi,
            ParseError::UnexpectedToken(c, p) => JErr::Tok(c, p as int),
            ParseError::NumericConversionFailure => JErr::NumFail,
        }
    }
}

/// The character for one decimal digit.
pub open spec fn digit_char(d: nat) -> char {
    if d == 0 {
        '0'
    } else if d == 1 {
        '1'
    } else if d == 2 {
        '2'
    } else if d == 3 {
        '3'
    } else if d == 4 {
        '4'
    } else if d == 5 {
        '5'
    } else if d == 6 {
        '6'
    } else if d == 7 {
        '7'
    } else if d == 8 {
        '8'
    } else {
        '9'
    }
}

/// The decimal digits of `n`, most significant first.
pub open spec fn dec_digits(n: nat) -> Seq<char>
    decreases n,
{
    if n < 10 {
        seq![digit_char(n)]
    } else {
        dec_digits(n / 10).push(digit_char(n % 10))
    }
}

/// The decimal rendering of a position.
fn position_string(n: usize) -> (s: String)
    ensures
        s@ == dec_digits(n as nat),
    decreases n,
{
    let d: usize = n % 10;
    let c: char = if d == 0 {
        '0'
    } else if d == 1 {
        '1'
    } else if d == 2 {
        '2'
    } else if d == 3 {
        '3'
    } else if d == 4 {
        '4'
    } else if d == 5 {
        '5'
    } else if d == 6 {
        '6'
    } else if d == 7 {
        '7'
    } else if d == 8 {
        '8'
    } else {
        '9'
    };
    if n < 10 {
        let mut s = String::new();
        push_char(&mut s, c);
        proof {
            assert(s@ =~= dec_digits(n as nat));
        }
        s
    } else {
        let mut s = position_string(n / 10);
        push_char(&mut s, c);
        s
    }
}

impl ParseError {
    /// The error's report, one line of text.
    pub open spec fn spec_message(self) -> Seq<char> {
        match self {
            ParseError::UnexpectedEndOfInput => "Unexpected end of input"@,
            ParseError::UnexpectedToken(c, p) => "Unexpected token '"@ + seq![c]
                + "' at position '"@ + dec_digits(p as nat) + "'"@,
            ParseError::NumericConversionFailure => "Failed to parse number"@,
        }
    }

    /// Renders the error as the one-line report `spec_message` describes.
    pub fn message(&self) -> (s: String)
        ensures
            s@ == self.spec_message(),
    {
        match *self {
            ParseError::UnexpectedEndOfInput => String::from_str("Unexpected end of input"),
            ParseError::UnexpectedToken(c, p) => {
                let mut s = String::from_str("Unexpected token '");
                push_char(&mut s, c);
                s.append("' at position '");
                let digits = position_string(p);
                s.append(digits.as_str());
                s.append("'");
                proof {
                    assert(s@ =~= self.spec_message());
                }
                s
            },
            ParseError::NumericConversionFailure => String::from_str("Failed to parse number"),
        }
    }
}

/// Relies on `String::push`: appends the given character to the end of the
/// string.
#[verifier::external_body]
pub(crate) fn push_char(s: &mut String, c: char)
    ensures
        final(s)@ == old(s)@.push(c),
{
    s.push(c);
}

} // verus!
