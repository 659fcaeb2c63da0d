//! The executable parser: a cursor over the decoded characters of the input
//! and one function per grammar production, each proved to return exactly
//! what the corresponding spec function of [`crate::grammar`] defines.

use vstd::prelude::*;
use vstd::string::StrSliceExecFns;
use vstd::string::StringExecFns;

use crate::Value;
use crate::Json;
use crate::seq_view;
use crate::pairs_view;
use crate::push_char;
use crate::ParseError;
use crate::grammar::skip_ws;
use crate::grammar::digits_end;
use crate::grammar::is_digit_char;
use crate::grammar::hex_digit_val;
use crate::grammar::char_code;
use crate::grammar::char_of;
use crate::grammar::is_scalar_value;
use crate::grammar::spec_unicode;
use crate::grammar::spec_string;
use crate::grammar::spec_number;
use crate::grammar::spec_literal;
use crate::grammar::spec_value;
use crate::grammar::spec_array;
use crate::grammar::spec_array_items;
use crate::grammar::spec_object;
use crate::grammar::spec_object_items;
use crate::grammar::spec_parse;
use crate::grammar::prepend_text;
use crate::JErr;

verus! {

/// Relies on `char::from_u32`: returns the character with the given code for
/// every Unicode scalar value (codes below the surrogate range at
/// 0xD800..=0xDFFF, or between it and 0x10FFFF inclusive), and `None` for
/// every other value.
#[verifier::external_body]
fn char_from_u32(v: u32) -> (r: Option<char>)
    ensures
        r is Some <==> is_scalar_value(v),
        r matches Some(c) ==> char_code(c) == v,
{
    char::from_u32(v)
}

/// Builds a `String` from decoded characters.
fn string_from_chars(chars: &Vec<char>) -> (s: String)
    ensures
        s@ == chars@,
{
    let mut s = String::new();
    let mut i: usize = 0;
    while i < chars.len()
        invariant
            i <= chars@.len(),
            s@ == chars@.subrange(0, i as int),
        decreases chars@.len() - i,
    {
        push_char(&mut s, chars[i]);
        i = i + 1;
        proof {
            assert(s@ =~= chars@.subrange(0, i as int));
        }
    }
    proof {
        assert(s@ =~= chars@);
    }
    s
}

/// Decodes a text buffer into its sequence of characters.
fn chars_of(text: &str) -> (chars: Vec<char>)
    ensures
        chars@ == text@,
{
    let n: usize = text.unicode_len();
    let mut chars: Vec<char> = Vec::new();
    let mut i: usize = 0;
    while i < n
        invariant
            n == text@.len(),
            i <= n,
            chars@ == text@.subrange(0, i as int),
        decreases n - i,
    {
        chars.push(text.get_char(i));
        i = i + 1;
        proof {
            assert(chars@ =~= text@.subrange(0, i as int));
        }
    }
    proof {
        assert(chars@ =~= text@);
    }
    chars
}

/// The value of a hexadecimal digit, case-insensitive.
fn hex_digit(c: char) -> (r: Option<u32>)
    ensures
        r == hex_digit_val(c),
{
    if c >= '0' && c <= '9' {
        Some(c as u32 - '0' as u32)
    } else if c >= 'a' && c <= 'f' {
        Some(c as u32 - 'a' as u32 + 10)
    } else if c >= 'A' && c <= 'F' {
        Some(c as u32 - 'A' as u32 + 10)
    } else {
        None
    }
}

/// The cursor over the input: the decoded characters and the position of the
/// next unconsumed one.
pub struct Parser {
    pub chars: Vec<char>,
    pub pos: usize,
}

/// The outcome a production owes its caller: the cursor is intact but for a
/// forward move of the position, and the result and new position are exactly
/// those of the grammar's `out`; a successful production always consumes at
/// least one character.
pub open spec fn production_post(
    pre: Parser,
    post: Parser,
    r: Result<Value, ParseError>,
    out: Result<(Json, int), JErr>,
) -> bool {
    &&& post.wf()
    &&& post.chars == pre.chars
    &&& pre.pos <= post.pos
    &&& (match out {
        Ok((jv, k)) => {
            &&& r matches Ok(v) && v@ == jv
            &&& post.pos as int == k
            &&& pre.pos < post.pos
        },
        Err(e) => r matches Err(pe) && pe@ == e,
    })
}

impl Parser {
    /// The cursor never stands past the end of the input.
    pub open spec fn wf(&self) -> bool {
        self.pos <= self.chars@.len()
    }

    /// The input as a character sequence.
    pub open spec fn src(&self) -> Seq<char> {
        self.chars@
    }

    /// The error for a rejected character and its position, or for end of
    /// input.
    pub fn error(&self, data: Option<(usize, char)>) -> (r: Result<Value, ParseError>)
        ensures
            (match data {
                Some((index, ch)) => r == Err::<Value, ParseError>(
                    ParseError::UnexpectedToken(ch, index),
                ),
                None => r == Err::<Value, ParseError>(ParseError::UnexpectedEndOfInput),
            }),
    {
        match data {
            Some((index, ch)) => Err(ParseError::UnexpectedToken(ch, index)),
            None => Err(ParseError::UnexpectedEndOfInput),
        }
    }

    /// Consumes the maximal run of whitespace at the cursor.
    pub fn consume_whitespace(&mut self)
        requires
            old(self).wf(),
        ensures
            final(self).wf(),
            final(self).chars == old(self).chars,
            old(self).pos <= final(self).pos,
            final(self).pos as int == skip_ws(old(self).src(), old(self).pos as int),
    {
        while self.pos < self.chars.len() && (self.chars[self.pos] == ' '
            || self.chars[self.pos] == '\t' || self.chars[self.pos] == '\r'
            || self.chars[self.pos] == '\n')
            invariant
                self.wf(),
                self.chars == old(self).chars,
                old(self).pos <= self.pos,
                skip_ws(self.src(), old(self).pos as int) == skip_ws(self.src(), self.pos as int),
            decreases self.chars@.len() - self.pos,
        {
            self.pos = self.pos + 1;
        }
    }

    /// Consumes the next character only if it equals `ch`; reports whether it
    /// did.
    pub fn consume(&mut self, ch: char) -> (consumed: bool)
        requires
            old(self).wf(),
        ensures
            final(self).wf(),
            final(self).chars == old(self).chars,
            (if old(self).pos < old(self).src().len()
                && old(self).src()[old(self).pos as int] == ch {
                consumed && final(self).pos == old(self).pos + 1
            } else {
                !consumed && final(self).pos == old(self).pos
            }),
    {
        if self.pos < self.chars.len() && self.chars[self.pos] == ch {
            self.pos = self.pos + 1;
            true
        } else {
            false
        }
    }

    /// Consumes the next character, which must equal `ch`; any other
    /// character is reported with its position, and a missing one as end of
    /// input.
    pub fn try_consume(&mut self, ch: char) -> (r: Result<(), ParseError>)
        requires
            old(self).wf(),
        ensures
            final(self).wf(),
            final(self).chars == old(self).chars,
            (if old(self).pos >= old(self).src().len() {
                &&& r == Err::<(), ParseError>(ParseError::UnexpectedEndOfInput)
                &&& final(self).pos == old(self).pos
            } else if old(self).src()[old(self).pos as int] == ch {
                &&& r == Ok::<(), ParseError>(())
                &&& final(self).pos == old(self).pos + 1
            } else {
                &&& r == Err::<(), ParseError>(ParseError::UnexpectedToken(
                    old(self).src()[old(self).pos as int],
                    old(self).pos,
                ))
                &&& final(self).pos == old(self).pos + 1
            }),
    {
        if self.pos >= self.chars.len() {
            return Err(ParseError::UnexpectedEndOfInput);
        }
        let next = self.chars[self.pos];
        self.pos = self.pos + 1;
        if next == ch {
            Ok(())
        } else {
            Err(ParseError::UnexpectedToken(next, self.pos - 1))
        }
    }

    /// Appends to `buffer` the maximal run of decimal digits at the cursor,
    /// consuming it.
    pub fn collect_digits(&mut self, buffer: &mut Vec<char>)
        requires
            old(self).wf(),
        ensures
            final(self).wf(),
            final(self).chars == old(self).chars,
            old(self).pos <= final(self).pos,
            final(self).pos as int == digits_end(old(self).src(), old(self).pos as int),
            final(buffer)@ == old(buffer)@ + old(self).src().subrange(
                old(self).pos as int,
                final(self).pos as int,
            ),
    {
        while self.pos < self.chars.len() && self.chars[self.pos] >= '0'
            && self.chars[self.pos] <= '9'
            invariant
                self.wf(),
                self.chars == old(self).chars,
                old(self).pos <= self.pos,
                digits_end(self.src(), old(self).pos as int) == digits_end(
                    self.src(),
                    self.pos as int,
                ),
                buffer@ == old(buffer)@ + self.src().subrange(
                    old(self).pos as int,
                    self.pos as int,
                ),
            decreases self.chars@.len() - self.pos,
        {
            buffer.push(self.chars[self.pos]);
            self.pos = self.pos + 1;
            proof {
                assert(buffer@ =~= old(buffer)@ + self.src().subrange(
                    old(self).pos as int,
                    self.pos as int,
                ));
            }
        }
    }

    /// Consumes one character that must be a hexadecimal digit and yields its
    /// value; any other character is reported with its position, and a
    /// missing one as end of input.
    fn read_hex(&mut self) -> (r: Result<u32, ParseError>)
        requires
            old(self).wf(),
        ensures
            final(self).wf(),
            final(self).chars == old(self).chars,
            old(self).pos <= final(self).pos <= old(self).pos + 1,
            (if old(self).pos < old(self).src().len() {
                match hex_digit_val(old(self).src()[old(self).pos as int]) {
                    Some(d) => {
                        &&& r == Ok::<u32, ParseError>(d)
                        &&& d < 16
                        &&& final(self).pos == old(self).pos + 1
                    },
                    None => {
                        &&& r == Err::<u32, ParseError>(ParseError::UnexpectedToken(
                            old(self).src()[old(self).pos as int],
                            old(self).pos,
                        ))
                        &&& final(self).pos == old(self).pos + 1
                    },
                }
            } else {
                &&& r == Err::<u32, ParseError>(ParseError::UnexpectedEndOfInput)
                &&& final(self).pos == old(self).pos
            }),
    {
        if self.pos >= self.chars.len() {
            return Err(ParseError::UnexpectedEndOfInput);
        }
        let c = self.chars[self.pos];
        self.pos = self.pos + 1;
        match hex_digit(c) {
            Some(d) => Ok(d),
            None => Err(ParseError::UnexpectedToken(c, self.pos - 1)),
        }
    }

    /// Consumes the four hexadecimal digits of a `\u` escape and yields the
    /// character they name.  `start` is the position of the `u`, reported
    /// when the digits name no Unicode scalar value.
    pub fn parse_unicode(&mut self, start: usize) -> (r: Result<char, ParseError>)
        requires
            old(self).wf(),
        ensures
            final(self).wf(),
            final(self).chars == old(self).chars,
            old(self).pos <= final(self).pos,
            (match spec_unicode(old(self).src(), old(self).pos as int, start as int) {
                Ok(c) => r == Ok::<char, ParseError>(c) && final(self).pos == old(self).pos + 4,
                Err(e) => r matches Err(pe) && pe@ == e,
            }),
    {
        let d0 = match self.read_hex() {
            Ok(d) => d,
            Err(e) => return Err(e),
        };
        let d1 = match self.read_hex() {
            Ok(d) => d,
            Err(e) => return Err(e),
        };
        let d2 = match self.read_hex() {
            Ok(d) => d,
            Err(e) => return Err(e),
        };
        let d3 = match self.read_hex() {
            Ok(d) => d,
            Err(e) => return Err(e),
        };
        let value: u32 = d0 * 4096 + d1 * 256 + d2 * 16 + d3;
        match char_from_u32(value) {
            Some(ch) => {
                proof {
                    assert(char_code(ch) == value);
                    assert(char_code(char_of(value)) == value);
                    lemma_char_code_injective(char_of(value), ch);
                }
                Ok(ch)
            },
            None => Err(ParseError::UnexpectedToken('u', start)),
        }
    }

    /// The string production, entered just past the opening quote: consumes
    /// the body and the closing quote, resolving escapes, and yields the
    /// decoded text.
    pub fn parse_string(&mut self) -> (r: Result<Value, ParseError>)
        requires
            old(self).wf(),
        ensures
            final(self).wf(),
            final(self).chars == old(self).chars,
            old(self).pos <= final(self).pos,
            (match spec_string(old(self).src(), old(self).pos as int) {
                Ok((t, k)) => {
                    &&& r matches Ok(v) && v@ == Json::Text(t)
                    &&& final(self).pos as int == k
                    &&& old(self).pos < final(self).pos
                },
                Err(e) => r matches Err(pe) && pe@ == e,
            }),
    {
        let ghost s = old(self).src();
        let ghost i0 = old(self).pos as int;
        let mut acc: Vec<char> = Vec::new();
        loop
            invariant
                self.wf(),
                self.chars == old(self).chars,
                s == self.src(),
                i0 == old(self).pos as int,
                i0 <= self.pos as int,
                spec_string(s, i0) == prepend_text(acc@, spec_string(s, self.pos as int)),
            decreases s.len() - self.pos,
        {
            if self.pos >= self.chars.len() {
                return Err(ParseError::UnexpectedEndOfInput);
            }
            let ghost acc0 = acc@;
            let c = self.chars[self.pos];
            self.pos = self.pos + 1;
            if c == '"' {
                let out = string_from_chars(&acc);
                proof {
                    assert(acc@ + Seq::<char>::empty() =~= acc@);
                }
                return Ok(Value::Text(out));
            }
            let decoded: char;
            if c == '\\' {
                if self.pos >= self.chars.len() {
                    return Err(ParseError::UnexpectedEndOfInput);
                }
                let e = self.chars[self.pos];
                self.pos = self.pos + 1;
                if e == '"' || e == '\\' || e == '/' {
                    decoded = e;
                } else if e == 'n' {
                    decoded = '\n';
                } else if e == 'r' {
                    decoded = '\r';
                } else if e == 't' {
                    decoded = '\t';
                } else if e == 'u' {
                    let start: usize = self.pos - 1;
                    match self.parse_unicode(start) {
                        Ok(c2) => {
                            decoded = c2;
                        },
                        Err(err) => {
                            return Err(err);
                        },
                    }
                } else {
                    return Err(ParseError::UnexpectedToken(e, self.pos - 1));
                }
            } else {
                decoded = c;
            }
            acc.push(decoded);
            proof {
                lemma_prepend_prepend(acc0, seq![decoded], spec_string(s, self.pos as int));
                assert(acc0 + seq![decoded] =~= acc@);
            }
        }
    }

    /// The literal production: the fixed characters `values` must follow at
    /// the cursor; on success yields `value`.
    pub fn parse_literal(&mut self, values: &[char], value: Value) -> (r: Result<
        Value,
        ParseError,
    >)
        requires
            old(self).wf(),
        ensures
            final(self).wf(),
            final(self).chars == old(self).chars,
            old(self).pos <= final(self).pos,
            (match spec_literal(old(self).src(), old(self).pos as int, values@) {
                Ok(k) => r == Ok::<Value, ParseError>(value) && final(self).pos as int == k,
                Err(e) => r matches Err(pe) && pe@ == e,
            }),
    {
        let ghost s = old(self).src();
        let ghost i0 = old(self).pos as int;
        proof {
            assert(values@.skip(0) =~= values@);
        }
        let mut idx: usize = 0;
        while idx < values.len()
            invariant
                self.wf(),
                self.chars == old(self).chars,
                s == self.src(),
                i0 == old(self).pos as int,
                i0 <= self.pos as int,
                idx <= values@.len(),
                spec_literal(s, i0, values@) == spec_literal(
                    s,
                    self.pos as int,
                    values@.skip(idx as int),
                ),
            decreases values@.len() - idx,
        {
            let expected = values[idx];
            if self.pos >= self.chars.len() {
                return Err(ParseError::UnexpectedEndOfInput);
            }
            let c = self.chars[self.pos];
            self.pos = self.pos + 1;
            if c != expected {
                return Err(ParseError::UnexpectedToken(c, self.pos - 1));
            }
            idx = idx + 1;
            proof {
                assert(values@.skip(idx as int - 1).drop_first() =~= values@.skip(idx as int));
            }
        }
        proof {
            assert(values@.skip(values@.len() as int) =~= Seq::<char>::empty());
        }
        Ok(value)
    }

    /// The number production.  `ch` is the number's first character (sign or
    /// digit), which the dispatcher has already consumed; the assembled
    /// literal text becomes the value's payload, and text with no numeric
    /// content is refused as a conversion failure.
    pub fn parse_number(&mut self, ch: char) -> (r: Result<Value, ParseError>)
        requires
            old(self).wf(),
            old(self).pos >= 1,
            old(self).src()[old(self).pos as int - 1] == ch,
            ch == '-' || is_digit_char(ch),
        ensures
            final(self).wf(),
            final(self).chars == old(self).chars,
            old(self).pos <= final(self).pos,
            (match spec_number(old(self).src(), old(self).pos as int - 1) {
                Ok((t, k)) => {
                    &&& r matches Ok(v) && v@ == Json::Number(t)
                    &&& final(self).pos as int == k
                },
                Err(e) => r matches Err(pe) && pe@ == e,
            }),
    {
        let ghost s = old(self).src();
        let ghost i = old(self).pos as int - 1;
        let mut num: Vec<char> = Vec::new();
        if ch == '0' {
            let tail_follows = self.pos < self.chars.len() && (self.chars[self.pos] == '.'
                || self.chars[self.pos] == 'e' || self.chars[self.pos] == 'E');
            if !tail_follows {
                proof {
                    reveal_strlit("0");
                    assert("0"@ =~= seq!['0']);
                }
                return Ok(Value::Number(String::from_str("0")));
            }
        } else if ch == '-' {
            if self.pos >= self.chars.len() {
                return Err(ParseError::UnexpectedEndOfInput);
            }
            let next = self.chars[self.pos];
            self.pos = self.pos + 1;
            if !(next >= '0' && next <= '9') {
                return Err(ParseError::UnexpectedToken(next, self.pos - 1));
            }
            num.push(ch);
            num.push(next);
            self.collect_digits(&mut num);
            proof {
                assert(num@ =~= seq!['-', next] + s.subrange(i + 2, self.pos as int));
            }
        } else {
            num.push(ch);
            self.collect_digits(&mut num);
            proof {
                assert(num@ =~= seq![ch] + s.subrange(i + 1, self.pos as int));
            }
        }
        let ghost tail_i = self.pos as int;
        let ghost num_int = num@;
        if self.consume('.') {
            num.push('.');
            self.collect_digits(&mut num);
            proof {
                assert(num@ =~= num_int + seq!['.'] + s.subrange(tail_i + 1, self.pos as int));
            }
        }
        let ghost num_frac = num@;
        if self.pos < self.chars.len() && (self.chars[self.pos] == 'e' || self.chars[self.pos]
            == 'E') {
            self.pos = self.pos + 1;
            if self.pos < self.chars.len() && (self.chars[self.pos] == '+'
                || self.chars[self.pos] == '-') {
                self.pos = self.pos + 1;
            }
            if self.pos >= self.chars.len() {
                return Err(ParseError::UnexpectedEndOfInput);
            }
            let c2 = self.chars[self.pos];
            self.pos = self.pos + 1;
            if !(c2 >= '0' && c2 <= '9') {
                return Err(ParseError::UnexpectedToken(c2, self.pos - 1));
            }
            // the exponent's digits are consumed but contribute nothing to the text
            let mut pow: Vec<char> = Vec::new();
            self.collect_digits(&mut pow);
        }
        if num.len() == 0 || (num.len() == 1 && num[0] == '.') {
            proof {
                if num@.len() == 1 && num@[0] == '.' {
                    assert(num@ =~= seq!['.']);
                }
            }
            return Err(ParseError::NumericConversionFailure);
        }
        proof {
            if num_frac == seq!['.'] {
                assert(num@.len() == 1 && num@[0] == '.');
            }
        }
        Ok(Value::Number(string_from_chars(&num)))
    }

    /// The value production: skips whitespace, dispatches on one character,
    /// and skips whitespace again after the chosen production returns.
    pub fn parse_value(&mut self) -> (r: Result<Value, ParseError>)
        requires
            old(self).wf(),
        ensures
            production_post(
                *old(self),
                *final(self),
                r,
                spec_value(old(self).src(), old(self).pos as int),
            ),
        decreases old(self).chars@.len() - old(self).pos, 0int,
    {
        let ghost s = old(self).src();
        let ghost i0 = old(self).pos as int;
        self.consume_whitespace();
        let ghost j = self.pos as int;
        let result: Result<Value, ParseError>;
        if self.pos >= self.chars.len() {
            result = self.error(None);
        } else {
            let c = self.chars[self.pos];
            self.pos = self.pos + 1;
            if c == 'n' {
                let rest = ['u', 'l', 'l'];
                proof {
                    assert(rest@ =~= seq!['u', 'l', 'l']);
                }
                result = self.parse_literal(&rest, Value::Null);
            } else if c == 't' {
                let rest = ['r', 'u', 'e'];
                proof {
                    assert(rest@ =~= seq!['r', 'u', 'e']);
                }
                result = self.parse_literal(&rest, Value::True);
            } else if c == 'f' {
                let rest = ['a', 'l', 's', 'e'];
                proof {
                    assert(rest@ =~= seq!['a', 'l', 's', 'e']);
                }
                result = self.parse_literal(&rest, Value::False);
            } else if c == '"' {
                result = self.parse_string();
            } else if c == '[' {
                result = self.parse_array();
            } else if c == '{' {
                result = self.parse_object();
            } else if c == '-' || (c >= '0' && c <= '9') {
                result = self.parse_number(c);
            } else {
                result = self.error(Some((self.pos - 1, c)));
            }
        }
        self.consume_whitespace();
        result
    }

    /// The array production, entered just past the opening bracket: comma-
    /// separated values until the closing bracket, kept in source order.
    pub fn parse_array(&mut self) -> (r: Result<Value, ParseError>)
        requires
            old(self).wf(),
        ensures
            production_post(
                *old(self),
                *final(self),
                r,
                spec_array(old(self).src(), old(self).pos as int),
            ),
        decreases old(self).chars@.len() - old(self).pos, 2int,
    {
        let ghost s = old(self).src();
        let ghost i0 = old(self).pos as int;
        let mut array: Vec<Value> = Vec::new();
        self.consume_whitespace();
        let ghost j = self.pos as int;
        if !self.consume(']') {
            proof {
                assert(seq_view(array@) =~= Seq::<Json>::empty());
            }
            loop
                invariant
                    self.wf(),
                    self.chars == old(self).chars,
                    s == self.src(),
                    i0 == old(self).pos as int,
                    i0 <= self.pos as int,
                    spec_array(s, i0) == spec_array_items(
                        s,
                        self.pos as int,
                        seq_view(array@),
                    ),
                decreases s.len() - self.pos,
            {
                let ghost acc0 = seq_view(array@);
                let value = match self.parse_value() {
                    Ok(v) => v,
                    Err(e) => return Err(e),
                };
                array.push(value);
                proof {
                    assert(seq_view(array@) =~= acc0.push(value@));
                }
                if !self.consume(',') {
                    match self.try_consume(']') {
                        Ok(()) => {
                            return Ok(Value::Array(array));
                        },
                        Err(e) => {
                            return Err(e);
                        },
                    }
                }
            }
        }
        proof {
            assert(seq_view(array@) =~= Seq::<Json>::empty());
        }
        Ok(Value::Array(array))
    }

    /// The object production, entered just past the opening brace: comma-
    /// separated pairs of a quoted key, a colon and a value until the closing
    /// brace, kept in source order with duplicate keys retained.
    pub fn parse_object(&mut self) -> (r: Result<Value, ParseError>)
        requires
            old(self).wf(),
        ensures
            production_post(
                *old(self),
                *final(self),
                r,
                spec_object(old(self).src(), old(self).pos as int),
            ),
        decreases old(self).chars@.len() - old(self).pos, 2int,
    {
        let ghost s = old(self).src();
        let ghost i0 = old(self).pos as int;
        self.consume_whitespace();
        let ghost j = self.pos as int;
        let mut key_values: Vec<(String, Value)> = Vec::new();
        if !self.consume('}') {
            proof {
                assert(pairs_view(key_values@) =~= Seq::<(Seq<char>, Json)>::empty());
            }
            loop
                invariant
                    self.wf(),
                    self.chars == old(self).chars,
                    s == self.src(),
                    i0 == old(self).pos as int,
                    i0 <= self.pos as int,
                    spec_object(s, i0) == spec_object_items(
                        s,
                        self.pos as int,
                        pairs_view(key_values@),
                    ),
                decreases s.len() - self.pos,
            {
                let ghost acc0 = pairs_view(key_values@);
                self.consume_whitespace();
                match self.try_consume('"') {
                    Ok(()) => {},
                    Err(e) => return Err(e),
                }
                let key = match self.parse_string() {
                    Ok(v) => v,
                    Err(e) => return Err(e),
                };
                self.consume_whitespace();
                match self.try_consume(':') {
                    Ok(()) => {},
                    Err(e) => return Err(e),
                }
                let value = match self.parse_value() {
                    Ok(v) => v,
                    Err(e) => return Err(e),
                };
                let key_string = key.to_string().unwrap();
                key_values.push((key_string, value));
                proof {
                    assert(pairs_view(key_values@) =~= acc0.push((key_string@, value@)));
                }
                if !self.consume(',') {
                    match self.try_consume('}') {
                        Ok(()) => {
                            return Ok(Value::Object(key_values));
                        },
                        Err(e) => {
                            return Err(e);
                        },
                    }
                }
            }
        }
        proof {
            assert(pairs_view(key_values@) =~= Seq::<(Seq<char>, Json)>::empty());
        }
        Ok(Value::Object(key_values))
    }

    /// The whole document: one value, then nothing may remain but the
    /// whitespace the value production itself consumed.
    pub fn parse(&mut self) -> (r: Result<Value, ParseError>)
        requires
            old(self).wf(),
            old(self).pos == 0,
        ensures
            (match spec_parse(old(self).src()) {
                Ok(jv) => r matches Ok(v) && v@ == jv,
                Err(e) => r matches Err(pe) && pe@ == e,
            }),
    {
        let value = match self.parse_value() {
            Ok(v) => v,
            Err(e) => return Err(e),
        };
        if self.pos < self.chars.len() {
            let data = (self.pos, self.chars[self.pos]);
            self.error(Some(data))
        } else {
            Ok(value)
        }
    }
}

/// Parses a complete JSON document: one value, optionally surrounded by
/// whitespace, spanning the whole input.  The result is exactly what the
/// grammar's [`spec_parse`] assigns to the input's character sequence.
pub fn parse(string: &str) -> (r: Result<Value, ParseError>)
    ensures
        (match spec_parse(string@) {
            Ok(jv) => r matches Ok(v) && v@ == jv,
            Err(e) => r matches Err(pe) && pe@ == e,
        }),
{
    let mut parser = Parser { chars: chars_of(string), pos: 0 };
    parser.parse()
}

/// Two characters with the same code are the same character.
proof fn lemma_char_code_injective(a: char, b: char)
    requires
        a as u32 == b as u32,
    ensures
        a == b,
{
}

/// Prepending decoded text twice is prepending the concatenation once.
proof fn lemma_prepend_prepend(a: Seq<char>, b: Seq<char>, r: Result<(Seq<char>, int), JErr>)
    ensures
        prepend_text(a, prepend_text(b, r)) == prepend_text(a + b, r),
{
    match r {
        Ok((t, k)) => {
            assert(a + (b + t) =~= (a + b) + t);
        },
        Err(_) => {},
    }
}

} // verus!
