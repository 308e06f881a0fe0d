//! JSON answers of the venues as the library reads them: a document of
//! values, parsed by `serde_json`, and the lookups the adapters make in it.
use vstd::prelude::*;
use serde_json::from_slice;
use serde_json::Value::{Array as ValArray, Bool as ValBool, Null as ValNull, Number as ValNumber, Object as ValObject, String as ValText};
use crate::json::JsonNode::{Array, Bool, Null, Number, Object, Text};
use std::mem::take;
use crate::adapters::opt_text;

verus! {

/// One value of a JSON document. Arrays and objects refer to their members
/// by position in the document; a number keeps the text `serde_json` writes
/// for it.
#[derive(Debug, Clone)]
pub enum JsonNode {
    Null,
    Bool(bool),
    Number(String),
    Text(String),
    Array(Vec<usize>),
    Object(Vec<(String, usize)>),
}

/// A JSON document: its values in breadth-first order, the root first.
#[derive(Debug, Clone)]
pub struct JsonDoc {
    pub nodes: Vec<JsonNode>,
}

/// What `serde_json::from_slice` reads from `body` as a `serde_json::Value`,
/// laid out as a document, or the text of its error.
pub uninterp spec fn json_outcome(body: Seq<u8>) -> Result<JsonDoc, Seq<char>>;

/// A parse outcome, its error taken as text.
pub open spec fn outcome_view(r: Result<JsonDoc, String>) -> Result<JsonDoc, Seq<char>> {
    match r {
        Ok(d) => Ok(d),
        Err(m) => Err(m@),
    }
}

/// Parses `body` with `serde_json::from_slice` into a `serde_json::Value`
/// and lays the value out as a document in breadth-first order (each
/// value's members appended after every value already laid out), an
/// object's members in the order of the value's map (sorted by key, as
/// `serde_json` keeps them without its `preserve_order` feature), numbers as
/// their `Display` text. A body that is not JSON gives the `Display` text
/// of the parse error.
#[verifier::external_body]
pub(crate) fn parse_json(body: &[u8]) -> (res: Result<JsonDoc, String>)
    ensures
        outcome_view(res) == json_outcome(body@),
{
    let mut values = vec![from_slice(body).map_err(|e| e.to_string())?];
    let mut nodes = vec![];
    while nodes.len() < values.len() {
        let k = values.len();
        nodes.push(match take(&mut values[nodes.len()]) {
            ValNull => Null,
            ValBool(b) => Bool(b),
            ValNumber(n) => Number(n.to_string()),
            ValText(s) => Text(s),
            ValArray(a) => { values.extend(a); Array((k..values.len()).collect()) }
            ValObject(o) => Object(o.into_iter().map(|(s, v)| { values.push(v); s }).zip(k..).collect()),
        });
    }
    Ok(JsonDoc { nodes })
}

/// Value `k` of `d`, when `k` is one.
pub open spec fn json_node(d: JsonDoc, k: Option<usize>) -> Option<JsonNode> {
    match k {
        Some(k) => if k < d.nodes@.len() {
            Some(d.nodes@[k as int])
        } else {
            None
        },
        None => None,
    }
}

/// The member named `key` of the first pair of `pairs` with that name.
pub open spec fn member_named(pairs: Seq<(String, usize)>, key: Seq<char>) -> Option<usize>
    decreases pairs.len(),
{
    if pairs.len() == 0 {
        None
    } else if pairs[0].0@ == key {
        Some(pairs[0].1)
    } else {
        member_named(pairs.skip(1), key)
    }
}

/// The member `key` of object `k` (`value[key]`); nothing when `k` is not an object.
pub open spec fn json_field(d: JsonDoc, k: Option<usize>, key: Seq<char>) -> Option<usize> {
    match json_node(d, k) {
        Some(JsonNode::Object(pairs)) => member_named(pairs@, key),
        _ => None,
    }
}

/// The text of value `k` when it is a string (`as_str`).
pub open spec fn json_text(d: JsonDoc, k: Option<usize>) -> Option<Seq<char>> {
    match json_node(d, k) {
        Some(JsonNode::Text(s)) => Some(s@),
        _ => None,
    }
}

/// Value `k` when it is a boolean (`as_bool`).
pub open spec fn json_bool(d: JsonDoc, k: Option<usize>) -> Option<bool> {
    match json_node(d, k) {
        Some(JsonNode::Bool(b)) => Some(b),
        _ => None,
    }
}

/// The members of value `k` when it is an array (`as_array`).
pub open spec fn json_items(d: JsonDoc, k: Option<usize>) -> Option<Seq<usize>> {
    match json_node(d, k) {
        Some(JsonNode::Array(a)) => Some(a@),
        _ => None,
    }
}

/// An ASCII decimal digit.
pub open spec fn is_digit(c: char) -> bool {
    '0' <= c && c <= '9'
}

/// The value of a string of decimal digits.
pub open spec fn digits_value(s: Seq<char>) -> int
    decreases s.len(),
{
    if s.len() == 0 {
        0
    } else {
        10 * digits_value(s.drop_last()) + (s.last() as int - '0' as int)
    }
}

/// A non-empty string of decimal digits.
pub open spec fn all_digits(s: Seq<char>) -> bool {
    s.len() > 0 && forall|i: int| 0 <= i < s.len() ==> is_digit(#[trigger] s[i])
}

/// The integer a number's text writes, when it is an integer that fits an
/// `i64`: digits, with a leading `-` when negative.
pub open spec fn integer_text(t: Seq<char>) -> Option<i64> {
    if t.len() > 0 && t[0] == '-' && all_digits(t.skip(1)) && -digits_value(t.skip(1)) >= i64::MIN {
        Some((-digits_value(t.skip(1))) as i64)
    } else if all_digits(t) && digits_value(t) <= i64::MAX {
        Some(digits_value(t) as i64)
    } else {
        None
    }
}

/// Value `k` when it is a number that is an integer fitting an `i64` (`as_i64`).
pub open spec fn json_integer(d: JsonDoc, k: Option<usize>) -> Option<i64> {
    match json_node(d, k) {
        Some(JsonNode::Number(t)) => integer_text(t@),
        _ => None,
    }
}

/// The member `key` of object `k` (`value[key]`).
pub fn field(doc: &JsonDoc, k: Option<usize>, key: &str) -> (res: Option<usize>)
    ensures
        res == json_field(*doc, k, key@),
{
    let idx = match k {
        Some(idx) => idx,
        None => return None,
    };
    if idx >= doc.nodes.len() {
        return None;
    }
    match &doc.nodes[idx] {
        JsonNode::Object(pairs) => {
            assert(json_node(*doc, k) == Some(JsonNode::Object(*pairs)));
            assert(pairs@.skip(0) =~= pairs@);
            let mut i: usize = 0;
            while i < pairs.len()
                invariant
                    i <= pairs.len(),
                    json_field(*doc, k, key@) == member_named(pairs@, key@),
                    member_named(pairs@, key@) == member_named(pairs@.skip(i as int), key@),
                decreases pairs.len() - i,
            {
                let ghost rest = pairs@.skip(i as int);
                assert(rest[0] == pairs@[i as int]);
                assert(rest.skip(1) =~= pairs@.skip(i + 1));
                if crate::text::text_equal(pairs[i].0.as_str(), key) {
                    assert(member_named(rest, key@) == Some(pairs@[i as int].1));
                    return Some(pairs[i].1);
                }
                i += 1;
            }
            None
        },
        _ => None,
    }
}

/// The text of value `k` when it is a string (`as_str`).
pub fn text<'a>(doc: &'a JsonDoc, k: Option<usize>) -> (res: Option<&'a str>)
    ensures
        opt_text(res) == json_text(*doc, k),
{
    let k = match k {
        Some(k) => k,
        None => return None,
    };
    if k >= doc.nodes.len() {
        return None;
    }
    match &doc.nodes[k] {
        JsonNode::Text(s) => Some(s.as_str()),
        _ => None,
    }
}

/// Value `k` when it is a boolean (`as_bool`).
pub fn boolean(doc: &JsonDoc, k: Option<usize>) -> (res: Option<bool>)
    ensures
        res == json_bool(*doc, k),
{
    let k = match k {
        Some(k) => k,
        None => return None,
    };
    if k >= doc.nodes.len() {
        return None;
    }
    match &doc.nodes[k] {
        JsonNode::Bool(b) => Some(*b),
        _ => None,
    }
}

/// The members of value `k` when it is an array (`as_array`).
pub fn items<'a>(doc: &'a JsonDoc, k: Option<usize>) -> (res: Option<&'a Vec<usize>>)
    ensures
        match res {
            Some(v) => json_items(*doc, k) == Some(v@),
            None => json_items(*doc, k) is None,
        },
{
    let k = match k {
        Some(k) => k,
        None => return None,
    };
    if k >= doc.nodes.len() {
        return None;
    }
    match &doc.nodes[k] {
        JsonNode::Array(a) => Some(a),
        _ => None,
    }
}

/// The text of value `k` when it is a number.
pub fn number_text<'a>(doc: &'a JsonDoc, k: Option<usize>) -> (res: Option<&'a str>)
    ensures
        opt_text(res) == (match json_node(*doc, k) {
            Some(JsonNode::Number(t)) => Some(t@),
            _ => None,
        }),
{
    let k = match k {
        Some(k) => k,
        None => return None,
    };
    if k >= doc.nodes.len() {
        return None;
    }
    match &doc.nodes[k] {
        JsonNode::Number(t) => Some(t.as_str()),
        _ => None,
    }
}

/// The `i64` a number's text writes, when it writes one.
pub fn integer_of_text(t: &str) -> (res: Option<i64>)
    ensures
        res == integer_text(t@),
{
    let chars = crate::text::chars_of(t);
    let n = chars.len();
    let negative = n > 0 && chars[0] == '-';
    let start: usize = if negative { 1 } else { 0 };
    if start >= n {
        proof {
            if n > 0 {
                assert(t@.skip(1).len() == 0);
                assert(!is_digit(t@[0]));
            }
        }
        return None;
    }
    let ghost digits = t@.skip(start as int);
    let big: i128 = 0x1_0000_0000_0000_0000;
    let mut acc: i128 = 0;
    let mut i: usize = start;
    while i < n
        invariant
            chars@ == t@,
            n == chars.len(),
            start <= i <= n,
            negative == (n > 0 && t@[0] == '-'),
            start == (if negative { 1usize } else { 0usize }),
            digits == t@.skip(start as int),
            big == 0x1_0000_0000_0000_0000,
            all_digits(digits.take(i - start)) || i == start,
            digits_value(digits.take(i - start)) >= 0,
            acc == if digits_value(digits.take(i - start)) < big { digits_value(digits.take(i - start)) } else { big as int },
        decreases n - i,
    {
        let c = chars[i];
        if !('0' <= c && c <= '9') {
            proof {
                assert(digits[i - start] == c);
                assert(!all_digits(digits));
                assert(t@[i as int] == c);
                if negative {
                    assert(!is_digit(t@[0]));
                } else {
                    assert(digits =~= t@);
                }
            }
            return None;
        }
        let d: i128 = (c as u32 - '0' as u32) as i128;
        assert(digits.take(i - start + 1).drop_last() =~= digits.take(i - start));
        assert(digits.take(i - start + 1).last() == c);
        acc = if acc >= big { big } else if acc * 10 + d >= big { big } else { acc * 10 + d };
        i += 1;
    }
    assert(digits.take(n - start) =~= digits);
    assert(all_digits(digits));
    proof {
        if negative {
            assert(!is_digit(t@[0]));
        } else {
            assert(digits =~= t@);
        }
    }
    if negative {
        if acc > 0x8000_0000_0000_0000 {
            None
        } else {
            Some((-acc) as i64)
        }
    } else {
        if acc > 0x7FFF_FFFF_FFFF_FFFF {
            None
        } else {
            Some(acc as i64)
        }
    }
}

/// Value `k` when it is a number that is an integer fitting an `i64` (`as_i64`).
pub fn integer(doc: &JsonDoc, k: Option<usize>) -> (res: Option<i64>)
    ensures
        res == json_integer(*doc, k),
{
    match number_text(doc, k) {
        Some(t) => integer_of_text(t),
        None => None,
    }
}

} // verus!
