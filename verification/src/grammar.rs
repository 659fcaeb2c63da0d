//! The JSON grammar as a mathematical function.
//!
//! Every spec function here maps the input character sequence and a start
//! position to the result of one grammar production: the parsed entity
//! together with the position just past it, or the error the production
//! reports.  The executable parser in [`crate::parser`] is proved to return
//! exactly these values.
//!
//! Positions are `int` indices into the character sequence.  A few branches
//! test bounds that in fact always hold (the productions only ever move the
//! position forward); those tests exist to give the mutually recursive
//! definitions a termination measure, and the corresponding dead branches
//! report end of input.

use vstd::prelude::*;

use crate::Json;
use crate::JErr;

verus! {

/// The whitespace the parser skips: space, tab, carriage return, line feed.
pub open spec fn is_ws_char(c: char) -> bool {
    c == ' ' || c == '\t' || c == '\r' || c == '\n'
}

/// A decimal digit.
pub open spec fn is_digit_char(c: char) -> bool {
    '0' <= c && c <= '9'
}

/// The first position at or after `i` holding no whitespace.
pub open spec fn skip_ws(s: Seq<char>, i: int) -> int
    decreases s.len() - i,
{
    if 0 <= i && i < s.len() && is_ws_char(s[i]) {
        skip_ws(s, i + 1)
    } else {
        i
    }
}

/// The first position at or after `i` holding no decimal digit.
pub open spec fn digits_end(s: Seq<char>, i: int) -> int
    decreases s.len() - i,
{
    if 0 <= i && i < s.len() && is_digit_char(s[i]) {
        digits_end(s, i + 1)
    } else {
        i
    }
}

/// The value of a hexadecimal digit, case-insensitive.
pub open spec fn hex_digit_val(c: char) -> Option<u32> {
    if '0' <= c && c <= '9' {
        Some((c as u32 - '0' as u32) as u32)
    } else if 'a' <= c && c <= 'f' {
        Some((c as u32 - 'a' as u32 + 10) as u32)
    } else if 'A' <= c && c <= 'F' {
        Some((c as u32 - 'A' as u32 + 10) as u32)
    } else {
        None
    }
}

/// A Unicode scalar value: what `char` can hold.
pub open spec fn is_scalar_value(v: u32) -> bool {
    v < 0xD800 || (0xE000 <= v && v <= 0x10FFFF)
}

/// The code of a character.
pub open spec fn char_code(c: char) -> u32 {
    c as u32
}

/// The character with code `v`.
pub open spec fn char_of(v: u32) -> char {
    choose|c: char| char_code(c) == v
}

/// The literal production: the fixed character sequence `rest` must follow
/// at position `i`; on success the parse continues just past it.
pub open spec fn spec_literal(s: Seq<char>, i: int, rest: Seq<char>) -> Result<int, JErr>
    decreases rest.len(),
{
    if rest.len() == 0 {
        Ok(i)
    } else if !(0 <= i && i < s.len()) {
        Err(JErr::Eoi)
    } else if s[i] == rest[0] {
        spec_literal(s, i + 1, rest.drop_first())
    } else {
        Err(JErr::Tok(s[i], i))
    }
}

/// The four-hex-digit escape body starting at `i` (just past `\u`).
/// `upos` is the position of the `u`, reported when the digits name a value
/// that is no Unicode scalar value.  Success consumes exactly four characters.
pub open spec fn spec_unicode(s: Seq<char>, i: int, upos: int) -> Result<char, JErr> {
    if !(0 <= i && i < s.len()) {
        Err(JErr::Eoi)
    } else {
        match hex_digit_val(s[i]) {
            None => Err(JErr::Tok(s[i], i)),
            Some(d0) => if !(i + 1 < s.len()) {
                Err(JErr::Eoi)
            } else {
                match hex_digit_val(s[i + 1]) {
                    None => Err(JErr::Tok(s[i + 1], i + 1)),
                    Some(d1) => if !(i + 2 < s.len()) {
                        Err(JErr::Eoi)
                    } else {
                        match hex_digit_val(s[i + 2]) {
                            None => Err(JErr::Tok(s[i + 2], i + 2)),
                            Some(d2) => if !(i + 3 < s.len()) {
                                Err(JErr::Eoi)
                            } else {
                                match hex_digit_val(s[i + 3]) {
                                    None => Err(JErr::Tok(s[i + 3], i + 3)),
                                    Some(d3) => {
                                        let v = (4096 * d0 + 256 * d1 + 16 * d2 + d3) as u32;
                                        if is_scalar_value(v) {
                                            Ok(char_of(v))
                                        } else {
                                            Err(JErr::Tok('u', upos))
                                        }
                                    },
                                }
                            },
                        }
                    },
                }
            },
        }
    }
}

/// Prepends already-decoded text to the outcome of the rest of a string body.
pub open spec fn prepend_text(
    p: Seq<char>,
    r: Result<(Seq<char>, int), JErr>,
) -> Result<(Seq<char>, int), JErr> {
    match r {
        Ok((t, k)) => Ok((p + t, k)),
        Err(e) => Err(e),
    }
}

/// The string production, entered just past the opening quote.  Yields the
/// decoded text and the position just past the closing quote.
pub open spec fn spec_string(s: Seq<char>, i: int) -> Result<(Seq<char>, int), JErr>
    decreases s.len() - i,
{
    if !(0 <= i && i < s.len()) {
        Err(JErr::Eoi)
    } else if s[i] == '"' {
        Ok((Seq::empty(), i + 1))
    } else if s[i] == '\\' {
        if !(i + 1 < s.len()) {
            Err(JErr::Eoi)
        } else {
            let e = s[i + 1];
            if e == '"' || e == '\\' || e == '/' {
                prepend_text(seq![e], spec_string(s, i + 2))
            } else if e == 'n' {
                prepend_text(seq!['\n'], spec_string(s, i + 2))
            } else if e == 'r' {
                prepend_text(seq!['\r'], spec_string(s, i + 2))
            } else if e == 't' {
                prepend_text(seq!['\t'], spec_string(s, i + 2))
            } else if e == 'u' {
                match spec_unicode(s, i + 2, i + 1) {
                    Err(err) => Err(err),
                    Ok(c) => if i + 6 <= s.len() {
                        prepend_text(seq![c], spec_string(s, i + 6))
                    } else {
                        // dead: the escape succeeds only with all four digits present
                        Err(JErr::Eoi)
                    },
                }
            } else {
                Err(JErr::Tok(e, i + 1))
            }
        }
    } else {
        prepend_text(seq![s[i]], spec_string(s, i + 1))
    }
}

/// Finishes the number production: literal text with no numeric content
/// (empty, or a lone dot) cannot be converted and is refused.
pub open spec fn finish_number(num: Seq<char>, p: int) -> Result<(Seq<char>, int), JErr> {
    if num.len() == 0 || num == seq!['.'] {
        Err(JErr::NumFail)
    } else {
        Ok((num, p))
    }
}

/// The fractional and exponent parts of a number, starting at `i` with the
/// integer part's text `num` already assembled.  The fractional part is a dot
/// followed by any run of digits, the empty run included; the exponent marker
/// demands at least one digit after its optional sign.  The exponent's digits
/// are consumed but contribute nothing to the literal text, which holds the
/// sign, integer and fractional parts alone.
pub open spec fn spec_number_tail(
    s: Seq<char>,
    i: int,
    num: Seq<char>,
) -> Result<(Seq<char>, int), JErr> {
    let with_frac = if 0 <= i && i < s.len() && s[i] == '.' {
        (num + seq!['.'] + s.subrange(i + 1, digits_end(s, i + 1)), digits_end(s, i + 1))
    } else {
        (num, i)
    };
    let num2 = with_frac.0;
    let p2 = with_frac.1;
    if 0 <= p2 && p2 < s.len() && (s[p2] == 'e' || s[p2] == 'E') {
        let p3 = if p2 + 1 < s.len() && (s[p2 + 1] == '+' || s[p2 + 1] == '-') {
            p2 + 2
        } else {
            p2 + 1
        };
        if !(p3 < s.len()) {
            Err(JErr::Eoi)
        } else if !is_digit_char(s[p3]) {
            Err(JErr::Tok(s[p3], p3))
        } else {
            finish_number(num2, digits_end(s, p3 + 1))
        }
    } else {
        finish_number(num2, p2)
    }
}

/// The number production.  `i` is the position of the number's first
/// character (sign or digit), which the dispatcher has already inspected.
///
/// A leading `0` not followed by `.`, `e` or `E` is the number `0` by itself;
/// when one of those does follow, the leading zero contributes nothing to the
/// literal text, so `0` directly before an exponent marker, or before a dot
/// with no digits after it, leaves text with no numeric content and the
/// production reports `NumFail`.
pub open spec fn spec_number(s: Seq<char>, i: int) -> Result<(Seq<char>, int), JErr> {
    let c = s[i];
    if c == '0' {
        if i + 1 < s.len() && (s[i + 1] == '.' || s[i + 1] == 'e' || s[i + 1] == 'E') {
            spec_number_tail(s, i + 1, Seq::empty())
        } else {
            Ok((seq!['0'], i + 1))
        }
    } else if c == '-' {
        if !(i + 1 < s.len()) {
            Err(JErr::Eoi)
        } else if !is_digit_char(s[i + 1]) {
            Err(JErr::Tok(s[i + 1], i + 1))
        } else {
            let d1 = digits_end(s, i + 2);
            spec_number_tail(s, d1, seq!['-', s[i + 1]] + s.subrange(i + 2, d1))
        }
    } else {
        let d1 = digits_end(s, i + 1);
        spec_number_tail(s, d1, seq![c] + s.subrange(i + 1, d1))
    }
}

/// The value production: skips whitespace, dispatches on one character, and
/// skips whitespace again after the chosen production returns.
pub open spec fn spec_value(s: Seq<char>, i: int) -> Result<(Json, int), JErr>
    decreases s.len() - i, 0int,
{
    let j = skip_ws(s, i);
    if !(i <= j && j <= s.len()) {
        // dead: skipping whitespace only moves forward within the input
        Err(JErr::Eoi)
    } else if !(j < s.len()) {
        Err(JErr::Eoi)
    } else {
        let c = s[j];
        let r: Result<(Json, int), JErr> = if c == 'n' {
            match spec_literal(s, j + 1, seq!['u', 'l', 'l']) {
                Ok(k) => Ok((Json::Null, k)),
                Err(e) => Err(e),
            }
        } else if c == 't' {
            match spec_literal(s, j + 1, seq!['r', 'u', 'e']) {
                Ok(k) => Ok((Json::True, k)),
                Err(e) => Err(e),
            }
        } else if c == 'f' {
            match spec_literal(s, j + 1, seq!['a', 'l', 's', 'e']) {
                Ok(k) => Ok((Json::False, k)),
                Err(e) => Err(e),
            }
        } else if c == '"' {
            match spec_string(s, j + 1) {
                Ok((t, k)) => Ok((Json::Text(t), k)),
                Err(e) => Err(e),
            }
        } else if c == '[' {
            spec_array(s, j + 1)
        } else if c == '{' {
            spec_object(s, j + 1)
        } else if c == '-' || is_digit_char(c) {
            match spec_number(s, j) {
                Ok((t, k)) => Ok((Json::Number(t), k)),
                Err(e) => Err(e),
            }
        } else {
            Err(JErr::Tok(c, j))
        };
        match r {
            Ok((v, k)) => Ok((v, skip_ws(s, k))),
            Err(e) => Err(e),
        }
    }
}

/// The array production, entered just past the opening bracket.
pub open spec fn spec_array(s: Seq<char>, i: int) -> Result<(Json, int), JErr>
    decreases s.len() - i, 2int,
{
    let j = skip_ws(s, i);
    if !(i <= j && j <= s.len()) {
        // dead: skipping whitespace only moves forward within the input
        Err(JErr::Eoi)
    } else if j < s.len() && s[j] == ']' {
        Ok((Json::Array(Seq::empty()), j + 1))
    } else {
        spec_array_items(s, j, Seq::empty())
    }
}

/// The comma-separated elements of a non-empty array, with the elements
/// already parsed accumulated in `acc` in source order.
pub open spec fn spec_array_items(
    s: Seq<char>,
    i: int,
    acc: Seq<Json>,
) -> Result<(Json, int), JErr>
    decreases s.len() - i, 1int,
{
    match spec_value(s, i) {
        Err(e) => Err(e),
        Ok((v, k)) => if !(i < k && k <= s.len()) {
            // dead: the value production always consumes at least one character
            Err(JErr::Eoi)
        } else {
            let acc2 = acc.push(v);
            if k < s.len() && s[k] == ',' {
                spec_array_items(s, k + 1, acc2)
            } else if !(k < s.len()) {
                Err(JErr::Eoi)
            } else if s[k] == ']' {
                Ok((Json::Array(acc2), k + 1))
            } else {
                Err(JErr::Tok(s[k], k))
            }
        },
    }
}

/// The object production, entered just past the opening brace.
pub open spec fn spec_object(s: Seq<char>, i: int) -> Result<(Json, int), JErr>
    decreases s.len() - i, 2int,
{
    let j = skip_ws(s, i);
    if !(i <= j && j <= s.len()) {
        // dead: skipping whitespace only moves forward within the input
        Err(JErr::Eoi)
    } else if j < s.len() && s[j] == '}' {
        Ok((Json::Object(Seq::empty()), j + 1))
    } else {
        spec_object_items(s, j, Seq::empty())
    }
}

/// The comma-separated pairs of a non-empty object, with the pairs already
/// parsed accumulated in `acc` in source order.  Each pair is a quoted string
/// key, a colon, and a value; duplicate keys are all retained.
pub open spec fn spec_object_items(
    s: Seq<char>,
    i: int,
    acc: Seq<(Seq<char>, Json)>,
) -> Result<(Json, int), JErr>
    decreases s.len() - i, 1int,
{
    let j = skip_ws(s, i);
    if !(i <= j && j <= s.len()) {
        // dead: skipping whitespace only moves forward within the input
        Err(JErr::Eoi)
    } else if !(j < s.len()) {
        Err(JErr::Eoi)
    } else if s[j] != '"' {
        Err(JErr::Tok(s[j], j))
    } else {
        match spec_string(s, j + 1) {
            Err(e) => Err(e),
            Ok((key, k1)) => if !(j + 1 < k1 && k1 <= s.len()) {
                // dead: the string production always consumes the closing quote
                Err(JErr::Eoi)
            } else {
                let k2 = skip_ws(s, k1);
                if !(k1 <= k2 && k2 <= s.len()) {
                    // dead: skipping whitespace only moves forward within the input
                    Err(JErr::Eoi)
                } else if !(k2 < s.len()) {
                    Err(JErr::Eoi)
                } else if s[k2] != ':' {
                    Err(JErr::Tok(s[k2], k2))
                } else {
                    match spec_value(s, k2 + 1) {
                        Err(e) => Err(e),
                        Ok((v, k)) => if !(i < k && k <= s.len()) {
                            // dead: the value production always consumes at least one character
                            Err(JErr::Eoi)
                        } else {
                            let acc2 = acc.push((key, v));
                            if k < s.len() && s[k] == ',' {
                                spec_object_items(s, k + 1, acc2)
                            } else if !(k < s.len()) {
                                Err(JErr::Eoi)
                            } else if s[k] == '}' {
                                Ok((Json::Object(acc2), k + 1))
                            } else {
                                Err(JErr::Tok(s[k], k))
                            }
                        },
                    }
                }
            },
        }
    }
}

/// The whole document: one value, then nothing but the whitespace the value
/// production itself consumed.  A remaining character is reported at its
/// position; the first error of the single left-to-right scan is the result.
pub open spec fn spec_parse(s: Seq<char>) -> Result<Json, JErr> {
    match spec_value(s, 0) {
        Err(e) => Err(e),
        Ok((v, k)) => if k < s.len() {
            Err(JErr::Tok(s[k], k))
        } else {
            Ok(v)
        },
    }
}

} // verus!
