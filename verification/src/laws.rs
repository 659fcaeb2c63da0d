//! Proved laws of the grammar.
//!
//! The executable parser returns exactly what [`crate::grammar::spec_parse`]
//! assigns to the input, so each law stated here of the grammar holds of
//! [`crate::parser::parse`] as well.

use vstd::prelude::*;

use crate::Json;
use crate::JErr;
use crate::grammar::is_ws_char;
use crate::grammar::skip_ws;
use crate::grammar::spec_literal;
use crate::grammar::spec_value;
use crate::grammar::spec_string;
use crate::grammar::spec_array_items;
use crate::grammar::spec_object_items;
use crate::grammar::spec_parse;

verus! {

/// A character sequence holding nothing but whitespace.
pub open spec fn all_ws(s: Seq<char>) -> bool {
    forall|k: int| 0 <= k < s.len() ==> is_ws_char(#[trigger] s[k])
}

/// Skipping whitespace over a run of whitespace that ends at `j` stops
/// exactly at `j`.
proof fn lemma_skip_ws_run(s: Seq<char>, i: int, j: int)
    requires
        0 <= i <= j <= s.len(),
        forall|k: int| i <= k < j ==> is_ws_char(#[trigger] s[k]),
        j == s.len() || !is_ws_char(s[j]),
    ensures
        skip_ws(s, i) == j,
    decreases j - i,
{
    if i < j {
        lemma_skip_ws_run(s, i + 1, j);
    }
}

/// Wherever skipping whitespace stops inside the input, no whitespace
/// stands.
proof fn lemma_skip_ws_settled(s: Seq<char>, i: int)
    ensures
        ({
            let r = skip_ws(s, i);
            !(0 <= r < s.len()) || !is_ws_char(s[r])
        }),
    decreases s.len() - i,
{
    if 0 <= i && i < s.len() && is_ws_char(s[i]) {
        lemma_skip_ws_settled(s, i + 1);
    }
}

/// The common shape of the three keyword laws: the input is whitespace, then
/// the keyword's first character at position `n`, then `rest`, then
/// whitespace, and the document parses to `v`.
proof fn lemma_parse_keyword(s: Seq<char>, n: int, rest: Seq<char>, v: Json)
    requires
        0 <= n,
        n + 1 + rest.len() <= s.len(),
        forall|k: int| 0 <= k < n ==> is_ws_char(#[trigger] s[k]),
        !is_ws_char(s[n]),
        forall|k: int| 0 <= k < rest.len() ==> s[n + 1 + k] == #[trigger] rest[k],
        forall|k: int| n + 1 + rest.len() <= k < s.len() ==> is_ws_char(#[trigger] s[k]),
        (if s[n] == 'n' {
            rest == seq!['u', 'l', 'l'] && v == Json::Null
        } else if s[n] == 't' {
            rest == seq!['r', 'u', 'e'] && v == Json::True
        } else if s[n] == 'f' {
            rest == seq!['a', 'l', 's', 'e'] && v == Json::False
        } else {
            false
        }),
    ensures
        spec_parse(s) == Ok::<Json, JErr>(v),
{
    lemma_skip_ws_run(s, 0, n);
    lemma_literal_exact(s, n + 1, rest);
    lemma_skip_ws_run(s, n + 1 + rest.len(), s.len() as int);
    assert(spec_value(s, 0) == Ok::<(Json, int), JErr>((v, s.len() as int)));
}

/// The literal production succeeds on exactly its own characters.
proof fn lemma_literal_exact(s: Seq<char>, i: int, rest: Seq<char>)
    requires
        0 <= i,
        i + rest.len() <= s.len(),
        forall|k: int| 0 <= k < rest.len() ==> s[i + k] == #[trigger] rest[k],
    ensures
        spec_literal(s, i, rest) == Ok::<int, JErr>(i + rest.len()),
    decreases rest.len(),
{
    if rest.len() > 0 {
        lemma_literal_exact(s, i + 1, rest.drop_first());
    }
}

/// Any input that is the keyword `null` with optional surrounding whitespace
/// parses to exactly the null value, the whole input consumed.
pub proof fn lemma_parse_null_ws(pre: Seq<char>, post: Seq<char>)
    requires
        all_ws(pre),
        all_ws(post),
    ensures
        spec_parse(pre + seq!['n', 'u', 'l', 'l'] + post) == Ok::<Json, JErr>(Json::Null),
{
    let s = pre + seq!['n', 'u', 'l', 'l'] + post;
    lemma_parse_keyword(s, pre.len() as int, seq!['u', 'l', 'l'], Json::Null);
}

/// Any input that is the keyword `true` with optional surrounding whitespace
/// parses to exactly the true value, the whole input consumed.
pub proof fn lemma_parse_true_ws(pre: Seq<char>, post: Seq<char>)
    requires
        all_ws(pre),
        all_ws(post),
    ensures
        spec_parse(pre + seq!['t', 'r', 'u', 'e'] + post) == Ok::<Json, JErr>(Json::True),
{
    let s = pre + seq!['t', 'r', 'u', 'e'] + post;
    lemma_parse_keyword(s, pre.len() as int, seq!['r', 'u', 'e'], Json::True);
}

/// Any input that is the keyword `false` with optional surrounding
/// whitespace parses to exactly the false value, the whole input consumed.
pub proof fn lemma_parse_false_ws(pre: Seq<char>, post: Seq<char>)
    requires
        all_ws(pre),
        all_ws(post),
    ensures
        spec_parse(pre + seq!['f', 'a', 'l', 's', 'e'] + post) == Ok::<Json, JErr>(Json::False),
{
    let s = pre + seq!['f', 'a', 'l', 's', 'e'] + post;
    lemma_parse_keyword(s, pre.len() as int, seq!['a', 'l', 's', 'e'], Json::False);
}

/// Order preservation in arrays: once a value stands as element `j` of the
/// elements accumulated so far, every successful continuation of the array
/// production keeps it as element `j`.  Since each newly parsed element is
/// appended after all earlier ones, a parsed array holds its elements in
/// exactly the order the source text presented them.
pub proof fn lemma_array_order(s: Seq<char>, i: int, acc: Seq<Json>, items: Seq<Json>, k: int)
    requires
        spec_array_items(s, i, acc) == Ok::<(Json, int), JErr>((Json::Array(items), k)),
    ensures
        acc.len() <= items.len(),
        forall|j: int| 0 <= j < acc.len() ==> items[j] == acc[j],
    decreases s.len() - i,
{
    match spec_value(s, i) {
        Ok((v, k0)) => {
            if i < k0 && k0 <= s.len() {
                let acc2 = acc.push(v);
                if k0 < s.len() && s[k0] == ',' {
                    lemma_array_order(s, k0 + 1, acc2, items, k);
                    assert forall|j: int| 0 <= j < acc.len() implies items[j] == acc[j] by {
                        assert(items[j] == acc2[j]);
                    }
                }
            }
        },
        Err(_) => {},
    }
}

/// Order preservation in objects: once a pair stands at place `j` of the
/// pairs accumulated so far, every successful continuation of the object
/// production keeps it at place `j`.  Since each newly parsed pair is
/// appended after all earlier ones, a parsed object holds its pairs — a
/// duplicate key's pairs included — in exactly the order the source text
/// presented them.
pub proof fn lemma_object_order(
    s: Seq<char>,
    i: int,
    acc: Seq<(Seq<char>, Json)>,
    pairs: Seq<(Seq<char>, Json)>,
    k: int,
)
    requires
        spec_object_items(s, i, acc) == Ok::<(Json, int), JErr>((Json::Object(pairs), k)),
    ensures
        acc.len() <= pairs.len(),
        forall|j: int| 0 <= j < acc.len() ==> pairs[j] == acc[j],
    decreases s.len() - i,
{
    let j0 = skip_ws(s, i);
    if i <= j0 && j0 < s.len() && s[j0] == '"' {
        match spec_string(s, j0 + 1) {
            Ok((key, k1)) => {
                if j0 + 1 < k1 && k1 <= s.len() {
                    let k2 = skip_ws(s, k1);
                    if k1 <= k2 && k2 < s.len() && s[k2] == ':' {
                        match spec_value(s, k2 + 1) {
                            Ok((v, kv)) => {
                                if i < kv && kv <= s.len() {
                                    let acc2 = acc.push((key, v));
                                    if kv < s.len() && s[kv] == ',' {
                                        lemma_object_order(s, kv + 1, acc2, pairs, k);
                                        assert forall|j: int| 0 <= j < acc.len()
                                            implies pairs[j] == acc[j] by {
                                            assert(pairs[j] == acc2[j]);
                                        }
                                    }
                                }
                            },
                            Err(_) => {},
                        }
                    }
                }
            },
            Err(_) => {},
        }
    }
}

/// Trailing garbage: when the value production succeeds but stops short of
/// the input's end, the document fails with an UnexpectedToken naming the
/// character where it stopped — the first position after the value holding
/// no whitespace.
pub proof fn lemma_trailing_garbage(s: Seq<char>, v: Json, k: int)
    requires
        spec_value(s, 0) == Ok::<(Json, int), JErr>((v, k)),
        0 <= k < s.len(),
    ensures
        spec_parse(s) == Err::<Json, JErr>(JErr::Tok(s[k], k)),
        !is_ws_char(s[k]),
{
    assert forall|j: int|
        !(0 <= skip_ws(s, j) < s.len()) || !is_ws_char(s[#[trigger] skip_ws(s, j)]) by {
        lemma_skip_ws_settled(s, j);
    }
}

} // verus!

