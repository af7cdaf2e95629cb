//! Text from bytes, and numbers as decimal text.

use vstd::prelude::*;
use vstd::utf8::decode_utf8;
use vstd::utf8::encode_utf8;
use vstd::utf8::is_ascii_chars;
use vstd::utf8::valid_utf8;

verus! {

/// Calls `String::from_utf8`, which gives the text that valid UTF-8 bytes
/// spell and refuses any other bytes.
#[verifier::external_body]
pub(crate) fn text_of_utf8(utf8: Vec<u8>) -> (text: Option<String>)
    ensures
        match text {
            Some(text) => valid_utf8(utf8@) && text@ == decode_utf8(utf8@),
            None => !valid_utf8(utf8@),
        },
{
    String::from_utf8(utf8).ok()
}

/// The characters that ASCII bytes stand for, one for one.
pub open spec fn ascii_chars(bytes: Seq<u8>) -> Seq<char> {
    Seq::new(bytes.len(), |i: int| bytes[i] as char)
}

/// The character of a decimal digit.
pub open spec fn digit_char(digit: int) -> char {
    ((0x30 + digit) as u8) as char
}

/// The decimal numeral of `number`, without leading zeros.
pub open spec fn decimal_text(number: nat) -> Seq<char>
    decreases number,
{
    if number < 10 {
        seq![digit_char(number as int)]
    } else {
        decimal_text(number / 10).push(digit_char((number % 10) as int))
    }
}

/// ASCII bytes are the UTF-8 encoding of their characters.
pub proof fn lemma_ascii_is_utf8(bytes: Seq<u8>)
    requires
        forall|i: int| 0 <= i < bytes.len() ==> bytes[i] < 0x80,
    ensures
        valid_utf8(bytes),
        decode_utf8(bytes) == ascii_chars(bytes),
        encode_utf8(ascii_chars(bytes)) == bytes,
{
    let chars = ascii_chars(bytes);
    assert(is_ascii_chars(chars));
    vstd::utf8::is_ascii_chars_encode_utf8(chars);
    assert(encode_utf8(chars) =~= bytes);
    vstd::utf8::encode_utf8_valid_utf8(chars);
    vstd::utf8::encode_utf8_decode_utf8(chars);
}

/// The text that ASCII bytes spell.
pub(crate) fn ascii_text(bytes: Vec<u8>) -> (text: String)
    requires
        forall|i: int| 0 <= i < bytes@.len() ==> bytes@[i] < 0x80,
    ensures
        text@ == ascii_chars(bytes@),
{
    proof {
        lemma_ascii_is_utf8(bytes@);
    }
    text_of_utf8(bytes).unwrap()
}

/// The decimal numeral of `number`.
pub fn decimal(number: u32) -> (text: String)
    ensures
        text@ == decimal_text(number as nat),
{
    let mut digits: Vec<u8> = Vec::new();
    let mut rest: u32 = number;
    loop
        invariant_except_break
            decimal_text(number as nat) == decimal_text(rest as nat) + ascii_chars(digits@),
        invariant
            forall|i: int| 0 <= i < digits@.len() ==> digits@[i] < 0x80,
        ensures
            decimal_text(number as nat) == ascii_chars(digits@),
        decreases rest,
    {
        let ghost before = digits@;
        if rest < 10 {
            digits.insert(0, 0x30 + rest as u8);
            assert(ascii_chars(digits@) =~= seq![digit_char(rest as int)] + ascii_chars(before));
            break;
        }
        let digit: u8 = 0x30 + (rest % 10) as u8;
        digits.insert(0, digit);
        assert(ascii_chars(digits@) =~= seq![digit_char((rest % 10) as int)] + ascii_chars(before));
        assert(decimal_text((rest / 10) as nat).push(digit_char((rest % 10) as int)) + ascii_chars(before)
            =~= decimal_text((rest / 10) as nat) + ascii_chars(digits@));
        rest = rest / 10;
    }
    ascii_text(digits)
}

} // verus!
