//! Hexadecimal text: what it means as a sequence of characters, and the calls
//! that produce and read it.

use vstd::prelude::*;
use vstd::utf8::*;

verus! {

/// The lower-case hexadecimal digit for a value below sixteen.
pub open spec fn hex_digit(n: int) -> char {
    if n == 0 {
        '0'
    } else if n == 1 {
        '1'
    } else if n == 2 {
        '2'
    } else if n == 3 {
        '3'
    } else if n == 4 {
        '4'
    } else if n == 5 {
        '5'
    } else if n == 6 {
        '6'
    } else if n == 7 {
        '7'
    } else if n == 8 {
        '8'
    } else if n == 9 {
        '9'
    } else if n == 10 {
        'a'
    } else if n == 11 {
        'b'
    } else if n == 12 {
        'c'
    } else if n == 13 {
        'd'
    } else if n == 14 {
        'e'
    } else {
        'f'
    }
}

/// The value of a hexadecimal digit of either case, `None` for every other
/// character.
pub open spec fn digit_value(c: char) -> Option<int> {
    if c == '0' {
        Some(0)
    } else if c == '1' {
        Some(1)
    } else if c == '2' {
        Some(2)
    } else if c == '3' {
        Some(3)
    } else if c == '4' {
        Some(4)
    } else if c == '5' {
        Some(5)
    } else if c == '6' {
        Some(6)
    } else if c == '7' {
        Some(7)
    } else if c == '8' {
        Some(8)
    } else if c == '9' {
        Some(9)
    } else if c == 'a' || c == 'A' {
        Some(10)
    } else if c == 'b' || c == 'B' {
        Some(11)
    } else if c == 'c' || c == 'C' {
        Some(12)
    } else if c == 'd' || c == 'D' {
        Some(13)
    } else if c == 'e' || c == 'E' {
        Some(14)
    } else if c == 'f' || c == 'F' {
        Some(15)
    } else {
        None
    }
}

/// A text is hexadecimal when it has an even number of characters and each of
/// them is a hexadecimal digit.
pub open spec fn is_hex_text(s: Seq<char>) -> bool {
    &&& s.len() % 2 == 0
    &&& forall|i: int| 0 <= i < s.len() ==> (#[trigger] digit_value(s[i])) is Some
}

/// The byte that the `i`-th pair of digits of `s` stands for.
pub open spec fn byte_at(s: Seq<char>, i: int) -> u8 {
    (digit_value(s[2 * i]).unwrap() * 16 + digit_value(s[2 * i + 1]).unwrap()) as u8
}

/// The bytes that a hexadecimal text stands for: one for each pair of digits,
/// the high digit first.
pub open spec fn hex_to_bytes(s: Seq<char>) -> Seq<u8> {
    Seq::new((s.len() / 2) as nat, |i: int| byte_at(s, i))
}

/// The `i`-th character of the hexadecimal text of `b`.
pub open spec fn hex_char_at(b: Seq<u8>, i: int) -> char {
    if i % 2 == 0 {
        hex_digit(b[i / 2] as int / 16)
    } else {
        hex_digit(b[i / 2] as int % 16)
    }
}

/// The lower-case hexadecimal text of a byte sequence: two digits for each
/// byte, the high digit first.
pub open spec fn bytes_to_hex(b: Seq<u8>) -> Seq<char> {
    Seq::new(2 * b.len(), |i: int| hex_char_at(b, i))
}

/// Reading a digit that was written for a value below sixteen gives the value
/// back.
pub proof fn lemma_digit_round_trip(n: int)
    requires
        0 <= n < 16,
    ensures
        digit_value(hex_digit(n)) == Some(n),
{
}

/// The text written for a byte sequence is hexadecimal, and reading it gives
/// the bytes back.
pub proof fn lemma_hex_round_trip(b: Seq<u8>)
    ensures
        is_hex_text(bytes_to_hex(b)),
        bytes_to_hex(b).len() == 2 * b.len(),
        hex_to_bytes(bytes_to_hex(b)) == b,
{
    let s = bytes_to_hex(b);
    assert forall|i: int| 0 <= i < s.len() implies (#[trigger] digit_value(s[i])) is Some by {
        let v = b[i / 2] as int;
        lemma_digit_round_trip(v / 16);
        lemma_digit_round_trip(v % 16);
    }
    assert forall|i: int| 0 <= i < b.len() implies hex_to_bytes(s)[i] == b[i] by {
        let v = b[i] as int;
        lemma_digit_round_trip(v / 16);
        lemma_digit_round_trip(v % 16);
        assert(s[2 * i] == hex_digit(v / 16));
        assert(s[2 * i + 1] == hex_digit(v % 16));
    }
    assert(hex_to_bytes(s) =~= b);
}

/// Makes `hex::FromHexError` known as an opaque type: the error that
/// `hex::decode` returns. Nothing is claimed of what it holds.
#[verifier::external_type_specification]
#[verifier::external_body]
pub struct ExFromHexError(hex::FromHexError);

/// Calls `hex::encode`. Trusted: the result is the lower-case hexadecimal
/// text of `data`, two digits for each byte with the high digit first.
#[verifier::external_body]
pub(crate) fn hex_encode(data: &[u8]) -> (text: String)
    ensures
        text@ == bytes_to_hex(data@),
{
    hex::encode(data)
}

/// Calls `hex::decode`. Trusted: the call succeeds exactly on a text of even
/// length made of hexadecimal digits of either case, and then returns one
/// byte for each pair of digits, the high digit first.
#[verifier::external_body]
pub(crate) fn hex_decode(text: &str) -> (r: Result<Vec<u8>, hex::FromHexError>)
    ensures
        r is Ok <==> is_hex_text(text@),
        r is Ok ==> r->Ok_0@ == hex_to_bytes(text@),
{
    hex::decode(text)
}

/// Calls `String::from_utf8`. Trusted: the call succeeds exactly on valid
/// UTF-8, and the string then holds the characters that the bytes encode.
#[verifier::external_body]
pub(crate) fn string_from_utf8(bytes: Vec<u8>) -> (r: Option<String>)
    ensures
        r is Some <==> valid_utf8(bytes@),
        r is Some ==> r->Some_0@ == decode_utf8(bytes@),
{
    match String::from_utf8(bytes) {
        Ok(s) => Some(s),
        Err(_) => None,
    }
}

} // verus!
