//! Text conversions shared by the profiling stages.

use vstd::prelude::*;
use vstd::string::StringExecFns;
use vstd::utf8::*;
use dynfmt::{Format, SimpleCurlyFormat};
use itertools::Itertools;
use rayon::slice::ParallelSliceMut;
use crate::maps::texts;

verus! {

/// The failure of a text conversion: the bytes are not valid UTF-8.
#[derive(Clone, Debug)]
pub struct EncodingError {
    /// The offending bytes.
    pub bytes: Vec<u8>,
}

/// Checks the bytes with `simdutf8::basic::from_utf8` and copies them into a `String`.
///
/// Trusted: the outside function accepts exactly the valid UTF-8 byte
/// sequences, and the text it returns is the decoding of the bytes.
#[verifier::external_body]
fn utf8_text(byte_slice: &[u8]) -> (r: Option<String>)
    ensures
        r is Some <==> valid_utf8(byte_slice@),
        r matches Some(s) ==> s@ == decode_utf8(byte_slice@),
{
    match simdutf8::basic::from_utf8(byte_slice) {
        Ok(s) => Some(s.to_string()),
        Err(_) => None,
    }
}

/// Converts a byte slice to text, or reports the bytes that are not text.
pub fn convert_to_string(byte_slice: &[u8]) -> (r: Result<String, EncodingError>)
    ensures
        r is Ok <==> valid_utf8(byte_slice@),
        r matches Ok(s) ==> s@ == decode_utf8(byte_slice@),
        r matches Err(e) ==> e.bytes@ == byte_slice@,
{
    match utf8_text(byte_slice) {
        Some(s) => Ok(s),
        None => Err(EncodingError { bytes: vstd::slice::slice_to_vec(byte_slice) }),
    }
}

/// Compares two texts with `==` on `str`.
///
/// Trusted: std compares the two texts character by character.
#[verifier::external_body]
pub(crate) fn same_text(a: &str, b: &str) -> (r: bool)
    ensures
        r == (a@ == b@),
{
    a == b
}

/// What `atoi_simd::parse::<i64>` makes of the bytes: the number, or
/// `None` where it rejects them.
pub uninterp spec fn atoi_i64(bytes: Seq<u8>) -> Option<i64>;

/// Parses a signed integer with `atoi_simd::parse::<i64>`.
///
/// Trusted: the outcome depends on the bytes of the text alone.
#[verifier::external_body]
pub(crate) fn parse_i64(text: &str) -> (r: Option<i64>)
    ensures
        r == atoi_i64(encode_utf8(text@)),
{
    atoi_simd::parse::<i64>(text.as_bytes()).ok()
}

/// What `dynfmt::SimpleCurlyFormat` makes of a format and one number:
/// the formatted text, or `None` where it rejects the format.
pub uninterp spec fn curly_formatted(format: Seq<char>, number: u64) -> Option<Seq<char>>;

/// Formats one number with `dynfmt::SimpleCurlyFormat`.
///
/// Trusted: the outcome depends on the format and the number alone.
#[verifier::external_body]
pub(crate) fn curly_format(format: &str, number: u64) -> (r: Option<String>)
    ensures
        r is Some <==> curly_formatted(format@, number) is Some,
        r matches Some(text) ==> curly_formatted(format@, number) == Some(text@),
{
    match SimpleCurlyFormat.format(format, [number]) {
        Ok(text) => Some(text.to_string()),
        Err(_) => None,
    }
}

/// Whether the character is one of the ten decimal digits.
pub open spec fn is_digit(c: char) -> bool {
    '0' <= c <= '9'
}

/// The number that a sequence of decimal digits writes.
pub open spec fn digits_value(digits: Seq<char>) -> nat
    decreases digits.len(),
{
    if digits.len() == 0 {
        0
    } else {
        (digits_value(digits.drop_last()) * 10 + (digits.last() as u32 - '0' as u32)) as nat
    }
}

/// The digits of an unsigned decimal literal: the text without one leading `+`.
pub open spec fn literal_digits(text: Seq<char>) -> Seq<char> {
    if text.len() > 0 && text[0] == '+' {
        text.skip(1)
    } else {
        text
    }
}

/// The value of an unsigned decimal literal that is at most `max`:
/// an optional `+`, then one or more digits and nothing else.
pub open spec fn unsigned_literal(text: Seq<char>, max: nat) -> Option<nat> {
    let digits = literal_digits(text);
    if digits.len() > 0 && (forall|i: int| 0 <= i < digits.len() ==> is_digit(#[trigger] digits[i]))
        && digits_value(digits) <= max {
        Some(digits_value(digits))
    } else {
        None
    }
}

/// The decimal digits of a number, without leading zeros.
pub open spec fn decimal_digits(n: nat) -> Seq<char>
    decreases n,
{
    if n < 10 {
        seq![(('0' as u32 + n) as u32) as char]
    } else {
        decimal_digits(n / 10).push((('0' as u32 + n % 10) as u32) as char)
    }
}

/// Parses a count with `str::parse::<usize>`.
///
/// Trusted: std accepts an optional `+` followed by decimal digits only,
/// and fails on empty text, on any other character and on overflow.
#[verifier::external_body]
pub(crate) fn parse_count(text: &str) -> (r: Option<usize>)
    ensures
        r is Some <==> unsigned_literal(text@, usize::MAX as nat) is Some,
        r matches Some(v) ==> unsigned_literal(text@, usize::MAX as nat) == Some(v as nat),
{
    text.parse::<usize>().ok()
}

/// Parses a length: a count that fits thirty-two bits.
pub fn parse_length(text: &str) -> (r: Option<u32>)
    ensures
        r is Some <==> unsigned_literal(text@, u32::MAX as nat) is Some,
        r matches Some(v) ==> unsigned_literal(text@, u32::MAX as nat) == Some(v as nat),
{
    match parse_count(text) {
        Some(v) => if v <= u32::MAX as usize { Some(v as u32) } else { None },
        None => None,
    }
}

/// The texts joined into one, with the separator between neighbours.
pub open spec fn joined(items: Seq<Seq<char>>, separator: Seq<char>) -> Seq<char>
    decreases items.len(),
{
    if items.len() == 0 {
        Seq::empty()
    } else if items.len() == 1 {
        items[0]
    } else {
        joined(items.drop_last(), separator) + separator + items.last()
    }
}

/// Joins the texts with `Itertools::join`.
///
/// Trusted: the outside function writes the items in order and puts the
/// separator between each two neighbours; no items give the empty text.
#[verifier::external_body]
pub(crate) fn join_texts(items: &Vec<String>, separator: &str) -> (r: String)
    ensures
        r@ == joined(texts(items@), separator@),
{
    items.iter().join(separator)
}

/// Whether byte sequence `a` comes before `b`, or equals it, in
/// lexicographic order.
pub open spec fn bytes_le(a: Seq<u8>, b: Seq<u8>) -> bool
    decreases a.len(),
{
    if a.len() == 0 {
        true
    } else if b.len() == 0 {
        false
    } else if a[0] != b[0] {
        a[0] < b[0]
    } else {
        bytes_le(a.skip(1), b.skip(1))
    }
}

/// The order of texts: lexicographic by the bytes of their UTF-8 encoding.
pub open spec fn text_le(a: Seq<char>, b: Seq<char>) -> bool {
    bytes_le(encode_utf8(a), encode_utf8(b))
}

/// Whether the texts stand in ascending order.
pub open spec fn ascending(items: Seq<Seq<char>>) -> bool {
    forall|i: int, j: int| 0 <= i < j < items.len() ==> text_le(#[trigger] items[i], #[trigger] items[j])
}

/// Sorts the texts with rayon's `par_sort_unstable`.
///
/// Trusted: the outside function reorders the items so that they ascend in
/// the order of `String`, which is the lexicographic order of their bytes;
/// no item is lost or added.
#[verifier::external_body]
pub(crate) fn sort_texts(items: &mut Vec<String>)
    ensures
        ascending(texts(final(items)@)),
        texts(final(items)@).to_multiset() == texts(old(items)@).to_multiset(),
{
    items.par_sort_unstable();
}

/// Writes one character as a text with `char::to_string`.
///
/// Trusted: std writes the character and nothing else.
#[verifier::external_body]
pub(crate) fn char_text(c: char) -> (r: String)
    ensures
        r@ == seq![c],
{
    c.to_string()
}

/// Writes a number in decimal, without sign or leading zeros.
pub fn decimal_text(n: u64) -> (r: String)
    ensures
        r@ == decimal_digits(n as nat),
    decreases n,
{
    if n < 10 {
        char_text((48u8 + n as u8) as char)
    } else {
        let mut text = decimal_text(n / 10);
        let last = char_text((48u8 + (n % 10) as u8) as char);
        text.append(last.as_str());
        text
    }
}

/// The digits in groups of three, counted from the right, with commas between the groups.
pub open spec fn grouped(digits: Seq<char>) -> Seq<char>
    decreases digits.len(),
{
    if digits.len() <= 3 {
        digits
    } else {
        grouped(digits.subrange(0, digits.len() - 3)) + seq![','] + digits.subrange(
            digits.len() - 3,
            digits.len() as int,
        )
    }
}

/// Writes a count for human readers with `indicatif::HumanCount`.
///
/// Trusted: the outside type writes the decimal digits of the number and
/// puts a comma before each group of three digits, counted from the right.
#[verifier::external_body]
pub(crate) fn human_count(n: u64) -> (r: String)
    ensures
        r@ == grouped(decimal_digits(n as nat)),
{
    indicatif::HumanCount(n).to_string()
}

} // verus!
