//! The upstream URLs that the adapters request: a venue endpoint with its
//! query pairs in `application/x-www-form-urlencoded` form.
use vstd::prelude::*;
use crate::text::{push_char, push_chars, push_text};

verus! {

/// A byte that form encoding keeps as it is: an ASCII letter or digit or one of `* - . _`.
pub open spec fn form_unchanged(b: u8) -> bool {
    b == 0x2A || b == 0x2D || b == 0x2E || (0x30 <= b && b <= 0x39) || (0x41 <= b && b <= 0x5A) || b
        == 0x5F || (0x61 <= b && b <= 0x7A)
}

/// The upper-case hexadecimal digit of `d` (`0 <= d < 16`).
pub open spec fn hex_upper(d: int) -> char {
    if d < 10 {
        (d + 0x30) as char
    } else {
        (d - 10 + 0x41) as char
    }
}

/// The form encoding of one byte: kept, `+` for a space, else `%` and two
/// upper-case hexadecimal digits.
pub open spec fn form_byte(b: u8) -> Seq<char> {
    if form_unchanged(b) {
        seq![b as char]
    } else if b == 0x20 {
        seq!['+']
    } else {
        seq!['%', hex_upper((b / 16) as int), hex_upper((b % 16) as int)]
    }
}

/// The form encoding of a byte string, byte by byte.
pub open spec fn form_encoded(bytes: Seq<u8>) -> Seq<char>
    decreases bytes.len(),
{
    if bytes.len() == 0 {
        Seq::empty()
    } else {
        form_encoded(bytes.drop_last()) + form_byte(bytes.last())
    }
}

/// The form-encoded text of `t`.
pub open spec fn form_text(t: Seq<char>) -> Seq<char> {
    form_encoded(vstd::utf8::encode_utf8(t))
}

/// The query of `pairs`: each key and value form-encoded, joined by `=`,
/// the pairs joined by `&`.
pub open spec fn query_text(pairs: Seq<(Seq<char>, Seq<char>)>) -> Seq<char>
    decreases pairs.len(),
{
    if pairs.len() == 0 {
        Seq::empty()
    } else {
        let head = if pairs.len() == 1 {
            Seq::empty()
        } else {
            query_text(pairs.drop_last()) + seq!['&']
        };
        head + form_text(pairs.last().0) + seq!['='] + form_text(pairs.last().1)
    }
}

/// The URL of endpoint `base` with the query `pairs`.
pub open spec fn url_text(base: Seq<char>, pairs: Seq<(Seq<char>, Seq<char>)>) -> Seq<char> {
    base + seq!['?'] + query_text(pairs)
}

/// The text of each key and value of `pairs`.
pub open spec fn pair_texts(pairs: Seq<(&str, String)>) -> Seq<(Seq<char>, Seq<char>)> {
    pairs.map_values(|p: (&str, String)| (p.0@, p.1@))
}

/// The query of `pairs`, serialized by `url::form_urlencoded::Serializer`
/// into an empty string: each name and value form-encoded by
/// `byte_serialize` (ASCII letters, digits and `* - . _` kept, a space as
/// `+`, every other UTF-8 byte as `%` and two upper-case hexadecimal
/// digits), joined by `=`, and the pairs joined by `&`.
#[verifier::external_body]
fn form_query(pairs: &Vec<(&str, String)>) -> (res: String)
    ensures
        res@ == query_text(pair_texts(pairs@)),
{
    url::form_urlencoded::Serializer::new(String::new()).extend_pairs(pairs.iter()).finish()
}

/// The URL of endpoint `base` with the query `pairs`, the way
/// `Url::query_pairs_mut().append_pair` writes it onto a URL without a query.
pub fn build_url(base: &str, pairs: &Vec<(&str, String)>) -> (res: String)
    ensures
        res@ == url_text(base@, pair_texts(pairs@)),
{
    let mut out = String::new();
    push_text(&mut out, base);
    push_char(&mut out, '?');
    let query = form_query(pairs);
    push_text(&mut out, query.as_str());
    out
}

/// The decimal digits of `n`.
pub open spec fn digits_text(n: nat) -> Seq<char>
    decreases n,
{
    if n < 10 {
        seq![(n + 0x30) as char]
    } else {
        digits_text(n / 10).push(((n % 10) + 0x30) as char)
    }
}

/// The decimal text of `n`, with a leading `-` when negative.
pub open spec fn decimal_text(n: int) -> Seq<char> {
    if n < 0 {
        seq!['-'] + digits_text((-n) as nat)
    } else {
        digits_text(n as nat)
    }
}

/// The decimal digits of `n`.
fn digits_of(n: u64) -> (res: Vec<char>)
    ensures
        res@ == digits_text(n as nat),
    decreases n,
{
    let d: u8 = (n % 10) as u8;
    let c = (d + 0x30) as char;
    if n < 10 {
        let mut v: Vec<char> = Vec::new();
        v.push(c);
        v
    } else {
        let mut v = digits_of(n / 10);
        v.push(c);
        v
    }
}

/// The decimal text of `n` (`i64::to_string`).
pub fn decimal_i64(n: i64) -> (res: String)
    ensures
        res@ == decimal_text(n as int),
{
    let mut out = String::new();
    let magnitude: u64 = if n < 0 {
        push_char(&mut out, '-');
        ((-(n as i128)) as u64)
    } else {
        n as u64
    };
    let digits = digits_of(magnitude);
    let mut i: usize = 0;
    let ghost start = out@;
    while i < digits.len()
        invariant
            i <= digits.len(),
            out@ == start + digits@.take(i as int),
        decreases digits.len() - i,
    {
        push_char(&mut out, digits[i]);
        i += 1;
        assert(digits@.take(i as int) =~= digits@.take(i - 1).push(digits@[i - 1]));
    }
    assert(digits@.take(digits.len() as int) =~= digits@);
    out
}

/// The decimal text of `n` (`u64::to_string`).
pub fn decimal_u64(n: u64) -> (res: String)
    ensures
        res@ == decimal_text(n as int),
{
    let digits = digits_of(n);
    let mut out = String::new();
    push_chars(&mut out, &digits);
    out
}

/// The decimal text of `n` (`usize::to_string`).
pub fn decimal_usize(n: usize) -> (res: String)
    ensures
        res@ == decimal_text(n as int),
{
    let digits = digits_of(n as u64);
    let mut out = String::new();
    let mut i: usize = 0;
    while i < digits.len()
        invariant
            i <= digits.len(),
            out@ == digits@.take(i as int),
        decreases digits.len() - i,
    {
        push_char(&mut out, digits[i]);
        i += 1;
        assert(digits@.take(i as int) =~= digits@.take(i - 1).push(digits@[i - 1]));
    }
    assert(digits@.take(digits.len() as int) =~= digits@);
    out
}

} // verus!
