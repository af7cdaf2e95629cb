//! The radix-85 text scheme: four bytes become five printable symbols.
//!
//! Encoding and decoding are done by the `base85` crate. Before text is
//! handed to its decoder, this module checks that no group of symbols
//! stands for a number beyond 32 bits: such a group encodes no four bytes.

use vstd::prelude::*;
use vstd::string::StringSliceAdditionalSpecFns;

verus! {

/// The error type of `base85::decode`. Nothing is said of its values: a
/// decoding that fails is reported as a `CodecError`, whatever it holds.
#[verifier::external_type_specification]
#[verifier::external_body]
pub struct ExRadix85Error(base85::Error);

/// The text that `base85::encode` gives for `bytes`.
pub uninterp spec fn radix85_text(bytes: Seq<u8>) -> Seq<char>;

/// The bytes that `base85::decode` gives for `text`, or `None` where it
/// reports an error.
pub uninterp spec fn radix85_bytes(text: Seq<char>) -> Option<Seq<u8>>;

/// Whether a byte is a symbol of the alphabet
/// `0-9 A-Z a-z ! # $ % & ( ) * + - ; < = > ? @ ^ _ ` { | } ~`.
pub open spec fn in_alphabet(symbol: u8) -> bool {
    ||| 0x30 <= symbol <= 0x39
    ||| 0x41 <= symbol <= 0x5a
    ||| 0x61 <= symbol <= 0x7a
    ||| symbol == 0x21
    ||| 0x23 <= symbol <= 0x26
    ||| 0x28 <= symbol <= 0x2b
    ||| symbol == 0x2d
    ||| 0x3b <= symbol <= 0x40
    ||| 0x5e <= symbol <= 0x60
    ||| 0x7b <= symbol <= 0x7e
}

/// Whether `text` has the shape of an encoding: symbols of the alphabet
/// only, and no last group of a single symbol.
pub open spec fn well_shaped(text: Seq<u8>) -> bool {
    &&& text.len() % 5 != 1
    &&& forall|i: int| 0 <= i < text.len() ==> in_alphabet(#[trigger] text[i])
}

/// The weight that a symbol carries in its group: its place in the
/// alphabet, and 0 for a byte outside the alphabet.
pub open spec fn symbol_weight(symbol: u8) -> int {
    if 0x30 <= symbol <= 0x39 {
        symbol - 0x30
    } else if 0x41 <= symbol <= 0x5a {
        symbol - 0x41 + 10
    } else if 0x61 <= symbol <= 0x7a {
        symbol - 0x61 + 36
    } else if symbol == 0x21 {
        62
    } else if 0x23 <= symbol <= 0x26 {
        symbol - 0x23 + 63
    } else if 0x28 <= symbol <= 0x2b {
        symbol - 0x28 + 67
    } else if symbol == 0x2d {
        71
    } else if 0x3b <= symbol <= 0x40 {
        symbol - 0x3b + 72
    } else if 0x5e <= symbol <= 0x60 {
        symbol - 0x5e + 78
    } else if 0x7b <= symbol <= 0x7e {
        symbol - 0x7b + 81
    } else {
        0
    }
}

/// The weight at place `index` of `text`; past the end of the text the
/// decoder fills a group up with the weight 126.
pub open spec fn weight_at(text: Seq<u8>, index: int) -> int {
    if 0 <= index < text.len() {
        symbol_weight(text[index])
    } else {
        126
    }
}

/// The number that the group of five symbols starting at `start` stands for.
pub open spec fn group_value(text: Seq<u8>, start: int) -> int {
    weight_at(text, start) * 52200625 + weight_at(text, start + 1) * 614125 + weight_at(
        text,
        start + 2,
    ) * 7225 + weight_at(text, start + 3) * 85 + weight_at(text, start + 4)
}

/// Whether every group of `text` stands for a number of at most 32 bits.
pub open spec fn groups_in_range(text: Seq<u8>) -> bool {
    forall|group: int| 0 <= group && group * 5 < text.len() ==> #[trigger] group_value(text, group * 5) <= u32::MAX
}

/// Whether `text` is accepted as radix-85 text.
pub open spec fn radix85_accepted(text: Seq<char>) -> bool {
    well_shaped(vstd::utf8::encode_utf8(text)) && groups_in_range(vstd::utf8::encode_utf8(text))
}

/// What decoding `text` gives: the bytes, or `None` where the text is not
/// accepted.
pub open spec fn radix85_decoded(text: Seq<char>) -> Option<Seq<u8>> {
    if radix85_accepted(text) {
        radix85_bytes(text)
    } else {
        None
    }
}

/// Calls `base85::encode`, which maps every byte sequence to a text and
/// has no failure case. The contract only names the text.
#[verifier::external_body]
pub(crate) fn encode_radix85(bytes: &[u8]) -> (text: String)
    ensures
        text@ == radix85_text(bytes@),
{
    base85::encode(bytes)
}

/// Calls `base85::decode`. The decoder adds up each group in 32-bit
/// arithmetic, so texts with a group beyond 32 bits are left out. Of the
/// others it looks up every symbol and reports one outside the alphabet,
/// and it reports a last group of a single symbol; any other text it
/// decodes. The bytes depend on the text alone; the contract names them.
#[verifier::external_body]
pub(crate) fn decode_radix85(text: &str) -> (result: Result<Vec<u8>, base85::Error>)
    requires
        groups_in_range(text.spec_bytes()),
    ensures
        result is Ok <==> well_shaped(text.spec_bytes()),
        match result {
            Ok(bytes) => radix85_bytes(text@) == Some(bytes@),
            Err(_) => radix85_bytes(text@) is None,
        },
{
    base85::decode(text)
}

/// The executable form of [`symbol_weight`].
fn weight_of(symbol: u8) -> (weight: u64)
    ensures
        weight == symbol_weight(symbol),
        weight <= 84,
{
    if 0x30 <= symbol && symbol <= 0x39 {
        (symbol - 0x30) as u64
    } else if 0x41 <= symbol && symbol <= 0x5a {
        (symbol - 0x41) as u64 + 10
    } else if 0x61 <= symbol && symbol <= 0x7a {
        (symbol - 0x61) as u64 + 36
    } else if symbol == 0x21 {
        62
    } else if 0x23 <= symbol && symbol <= 0x26 {
        (symbol - 0x23) as u64 + 63
    } else if 0x28 <= symbol && symbol <= 0x2b {
        (symbol - 0x28) as u64 + 67
    } else if symbol == 0x2d {
        71
    } else if 0x3b <= symbol && symbol <= 0x40 {
        (symbol - 0x3b) as u64 + 72
    } else if 0x5e <= symbol && symbol <= 0x60 {
        (symbol - 0x5e) as u64 + 78
    } else if 0x7b <= symbol && symbol <= 0x7e {
        (symbol - 0x7b) as u64 + 81
    } else {
        0
    }
}

/// The executable form of [`weight_at`].
fn weight_in(text: &[u8], index: usize) -> (weight: u64)
    ensures
        weight == weight_at(text@, index as int),
        weight <= 126,
{
    if index < text.len() {
        weight_of(text[index])
    } else {
        126
    }
}

/// Decides [`groups_in_range`].
pub fn check_groups(text: &[u8]) -> (in_range: bool)
    ensures
        in_range == groups_in_range(text@),
{
    let mut start: usize = 0;
    while start < text.len()
        invariant
            start % 5 == 0,
            forall|group: int| 0 <= group && group * 5 < start && group * 5 < text@.len() ==> #[trigger] group_value(text@, group * 5) <= u32::MAX,
        decreases text@.len() + 5 - start,
    {
        let w0 = weight_in(text, start);
        let w1 = if start < usize::MAX - 4 { weight_in(text, start + 1) } else { 126 };
        let w2 = if start < usize::MAX - 4 { weight_in(text, start + 2) } else { 126 };
        let w3 = if start < usize::MAX - 4 { weight_in(text, start + 3) } else { 126 };
        let w4 = if start < usize::MAX - 4 { weight_in(text, start + 4) } else { 126 };
        let value: u64 = w0 * 52200625 + w1 * 614125 + w2 * 7225 + w3 * 85 + w4;
        assert(value == group_value(text@, start as int));
        if value > 0xffff_ffff {
            assert(start as int == (start as int / 5) * 5);
            return false;
        }
        if start >= usize::MAX - 4 {
            assert forall|group: int| 0 <= group && group * 5 < text@.len() implies #[trigger] group_value(text@, group * 5) <= u32::MAX by {
                if group * 5 > start {
                    assert(group * 5 >= start + 5);
                }
            }
            return true;
        }
        assert forall|group: int| 0 <= group && group * 5 < start + 5 && group * 5 < text@.len() implies #[trigger] group_value(text@, group * 5) <= u32::MAX by {
            if group * 5 >= start {
                assert(group * 5 == start);
            }
        }
        start = start + 5;
    }
    true
}

} // verus!
