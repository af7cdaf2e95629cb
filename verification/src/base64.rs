//! The base-64 text scheme: three bytes become four symbols of the
//! alphabet `A-Z a-z 0-9 + /`, and a last group of one or two bytes is
//! filled up with `=`.
//!
//! Only encodings are accepted back: a text decodes where its length is a
//! multiple of four, `=` stands only at the end of the last group, and the
//! bits that a padded group leaves unused are zero.

use vstd::prelude::*;

verus! {

/// The symbol that fills up a last group.
pub const PAD: u8 = 0x3d;

/// The symbol of a six-bit value.
pub open spec fn symbol(value: int) -> u8 {
    if value < 26 {
        (0x41 + value) as u8
    } else if value < 52 {
        (0x61 + value - 26) as u8
    } else if value < 62 {
        (0x30 + value - 52) as u8
    } else if value == 62 {
        0x2b
    } else {
        0x2f
    }
}

/// The six-bit value of a symbol, or `None` for a byte outside the
/// alphabet.
pub open spec fn symbol_value(symbol: u8) -> Option<int> {
    if 0x41 <= symbol <= 0x5a {
        Some(symbol - 0x41)
    } else if 0x61 <= symbol <= 0x7a {
        Some(symbol - 0x61 + 26)
    } else if 0x30 <= symbol <= 0x39 {
        Some(symbol - 0x30 + 52)
    } else if symbol == 0x2b {
        Some(62)
    } else if symbol == 0x2f {
        Some(63)
    } else {
        None
    }
}

/// The byte at `index`, or 0 past the end.
pub open spec fn byte_or_zero(bytes: Seq<u8>, index: int) -> int {
    if 0 <= index < bytes.len() {
        bytes[index] as int
    } else {
        0
    }
}

/// The symbol at place `index` of the encoding of `bytes`.
pub open spec fn symbol_at(bytes: Seq<u8>, index: int) -> u8 {
    let first = index / 4 * 3;
    let b0 = byte_or_zero(bytes, first);
    let b1 = byte_or_zero(bytes, first + 1);
    let b2 = byte_or_zero(bytes, first + 2);
    let place = index % 4;
    if place == 0 {
        symbol(b0 / 4)
    } else if place == 1 {
        symbol(b0 % 4 * 16 + b1 / 16)
    } else if place == 2 {
        if first + 1 < bytes.len() {
            symbol(b1 % 16 * 4 + b2 / 64)
        } else {
            PAD
        }
    } else {
        if first + 2 < bytes.len() {
            symbol(b2 % 64)
        } else {
            PAD
        }
    }
}

/// The number of symbols that encode `len` bytes.
pub open spec fn symbols_len(len: nat) -> nat {
    (len + 2) / 3 * 4
}

/// The encoding of `bytes`.
pub open spec fn base64_symbols(bytes: Seq<u8>) -> Seq<u8> {
    Seq::new(symbols_len(bytes.len()), |index: int| symbol_at(bytes, index))
}

/// The value of the symbol at `index`, with 0 for `=` and for any other
/// byte outside the alphabet.
pub open spec fn value_at(text: Seq<u8>, index: int) -> int {
    match symbol_value(text[index]) {
        Some(value) => value,
        None => 0,
    }
}

/// Whether the four symbols from `start` on form a group of an encoding.
/// Only the last group of a text may end in `=`.
pub open spec fn group_formed(text: Seq<u8>, start: int) -> bool {
    let last = start + 4 == text.len();
    &&& symbol_value(text[start]) is Some
    &&& symbol_value(text[start + 1]) is Some
    &&& if last && text[start + 3] == PAD {
        if text[start + 2] == PAD {
            value_at(text, start + 1) % 16 == 0
        } else {
            symbol_value(text[start + 2]) is Some && value_at(text, start + 2) % 4 == 0
        }
    } else {
        symbol_value(text[start + 2]) is Some && symbol_value(text[start + 3]) is Some
    }
}

/// Whether `text` is an encoding.
pub open spec fn well_formed(text: Seq<u8>) -> bool {
    &&& text.len() % 4 == 0
    &&& forall|group: int| 0 <= group && group * 4 < text.len() ==> #[trigger] group_formed(text, group * 4)
}

/// The number of `=` at the end of `text`, up to two.
pub open spec fn padding(text: Seq<u8>) -> nat {
    if text.len() < 4 || text[text.len() - 1] != PAD {
        0
    } else if text[text.len() - 2] != PAD {
        1
    } else {
        2
    }
}

/// The number of bytes that a well-formed `text` stands for.
pub open spec fn bytes_len(text: Seq<u8>) -> nat {
    (text.len() / 4 * 3 - padding(text)) as nat
}

/// The byte at place `index` of what `text` stands for.
pub open spec fn byte_at(text: Seq<u8>, index: int) -> u8 {
    let start = index / 3 * 4;
    let place = index % 3;
    if place == 0 {
        (value_at(text, start) * 4 + value_at(text, start + 1) / 16) as u8
    } else if place == 1 {
        (value_at(text, start + 1) % 16 * 16 + value_at(text, start + 2) / 4) as u8
    } else {
        (value_at(text, start + 2) % 4 * 64 + value_at(text, start + 3)) as u8
    }
}

/// What `text` stands for, or `None` where it is not an encoding.
pub open spec fn base64_bytes(text: Seq<u8>) -> Option<Seq<u8>> {
    if well_formed(text) {
        Some(Seq::new(bytes_len(text), |index: int| byte_at(text, index)))
    } else {
        None
    }
}

/// Every six-bit value has a symbol of the alphabet, which is an ASCII
/// character other than `=` and has that value.
pub proof fn lemma_symbol_value(value: int)
    requires
        0 <= value < 64,
    ensures
        symbol_value(symbol(value)) == Some(value),
        symbol(value) != PAD,
        symbol(value) < 0x80,
{
}

/// Every symbol of an encoding is an ASCII character.
pub proof fn lemma_symbols_are_ascii(bytes: Seq<u8>)
    ensures
        forall|index: int| 0 <= index < base64_symbols(bytes).len() ==> #[trigger] base64_symbols(bytes)[index] < 0x80,
{
    assert forall|index: int| 0 <= index < base64_symbols(bytes).len() implies #[trigger] base64_symbols(bytes)[index]
        < 0x80 by {
        lemma_symbol_at_is_ascii(bytes, index);
    }
}

proof fn lemma_symbol_at_is_ascii(bytes: Seq<u8>, index: int)
    requires
        0 <= index,
    ensures
        symbol_at(bytes, index) < 0x80,
{
    let first = index / 4 * 3;
    let b0 = byte_or_zero(bytes, first);
    let b1 = byte_or_zero(bytes, first + 1);
    let b2 = byte_or_zero(bytes, first + 2);
    lemma_symbol_value(b0 / 4);
    lemma_symbol_value(b0 % 4 * 16 + b1 / 16);
    lemma_symbol_value(b1 % 16 * 4 + b2 / 64);
    lemma_symbol_value(b2 % 64);
}

/// The encoding of any bytes is well-formed and stands for those bytes.
pub proof fn lemma_symbols_decode(bytes: Seq<u8>)
    ensures
        base64_bytes(base64_symbols(bytes)) == Some(bytes),
{
    let text = base64_symbols(bytes);
    let len = bytes.len() as int;
    assert(text.len() == (len + 2) / 3 * 4);
    assert forall|group: int| 0 <= group && group * 4 < text.len() implies #[trigger] group_formed(text, group * 4) by {
        lemma_group_decodes(bytes, group);
    }
    assert(well_formed(text));
    if len > 0 {
        let group = (len + 2) / 3 - 1;
        lemma_group_decodes(bytes, group);
        assert(text.len() - 4 == group * 4);
    }
    assert(bytes_len(text) == len);
    let decoded = base64_bytes(text)->0;
    assert forall|index: int| 0 <= index < len implies decoded[index] == bytes[index] by {
        lemma_group_decodes(bytes, index / 3);
    }
    assert(decoded =~= bytes);
}

/// Group `group` of the encoding of `bytes` is formed, is padded as the
/// bytes that it holds ask for, and stands for those bytes.
proof fn lemma_group_decodes(bytes: Seq<u8>, group: int)
    requires
        0 <= group,
        group * 3 < bytes.len(),
    ensures
        group * 4 + 4 <= base64_symbols(bytes).len(),
        group_formed(base64_symbols(bytes), group * 4),
        base64_symbols(bytes)[group * 4 + 3] == PAD <==> group * 3 + 2 >= bytes.len(),
        base64_symbols(bytes)[group * 4 + 2] == PAD <==> group * 3 + 1 >= bytes.len(),
        byte_at(base64_symbols(bytes), group * 3) == bytes[group * 3],
        group * 3 + 1 < bytes.len() ==> byte_at(base64_symbols(bytes), group * 3 + 1) == bytes[group * 3 + 1],
        group * 3 + 2 < bytes.len() ==> byte_at(base64_symbols(bytes), group * 3 + 2) == bytes[group * 3 + 2],
{
    let text = base64_symbols(bytes);
    let first = group * 3;
    let start = group * 4;
    let b0 = byte_or_zero(bytes, first);
    let b1 = byte_or_zero(bytes, first + 1);
    let b2 = byte_or_zero(bytes, first + 2);
    lemma_symbol_value(b0 / 4);
    lemma_symbol_value(b0 % 4 * 16 + b1 / 16);
    lemma_symbol_value(b1 % 16 * 4 + b2 / 64);
    lemma_symbol_value(b2 % 64);
    assert((start) / 4 * 3 == first && (start + 1) / 4 * 3 == first && (start + 2) / 4 * 3 == first && (start + 3) / 4
        * 3 == first);
    assert(text[start] == symbol(b0 / 4));
    assert(text[start + 1] == symbol(b0 % 4 * 16 + b1 / 16));
    assert(text[start + 2] == symbol_at(bytes, start + 2));
    assert(text[start + 3] == symbol_at(bytes, start + 3));
    assert(first / 3 * 4 == start && (first + 1) / 3 * 4 == start && (first + 2) / 3 * 4 == start);
}

/// Every symbol of the alphabet is the symbol of its value.
pub proof fn lemma_value_symbol(byte: u8)
    requires
        symbol_value(byte) is Some,
    ensures
        0 <= symbol_value(byte)->0 < 64,
        symbol(symbol_value(byte)->0) == byte,
        byte != PAD,
{
}

/// Only encodings decode: a text that stands for bytes is the encoding of
/// those bytes.
pub proof fn lemma_decoded_text_is_the_encoding(text: Seq<u8>)
    requires
        base64_bytes(text) is Some,
    ensures
        base64_symbols(base64_bytes(text)->0) == text,
{
    let bytes = base64_bytes(text)->0;
    let groups = text.len() as int / 4;
    if groups > 0 {
        assert(group_formed(text, (groups - 1) * 4));
        lemma_group_encodes(text, groups - 1);
    }
    assert(bytes.len() == groups * 3 - padding(text));
    assert(base64_symbols(bytes).len() == text.len());
    assert forall|index: int| 0 <= index < text.len() implies base64_symbols(bytes)[index] == text[index] by {
        let group = index / 4;
        assert(group_formed(text, group * 4));
        lemma_group_encodes(text, group);
    }
    assert(base64_symbols(bytes) =~= text);
}

/// Group `group` of a well-formed text is the encoding of the bytes that
/// it stands for.
proof fn lemma_group_encodes(text: Seq<u8>, group: int)
    requires
        well_formed(text),
        0 <= group,
        group * 4 < text.len(),
    ensures
        group * 4 + 4 < text.len() ==> group * 3 + 3 <= bytes_len(text),
        group * 4 + 4 == text.len() ==> group * 3 + 3 - padding(text) == bytes_len(text),
        symbol_at(base64_bytes(text)->0, group * 4) == text[group * 4],
        symbol_at(base64_bytes(text)->0, group * 4 + 1) == text[group * 4 + 1],
        symbol_at(base64_bytes(text)->0, group * 4 + 2) == text[group * 4 + 2],
        symbol_at(base64_bytes(text)->0, group * 4 + 3) == text[group * 4 + 3],
{
    let bytes = base64_bytes(text)->0;
    let start = group * 4;
    let first = group * 3;
    let groups = text.len() as int / 4;
    assert(group_formed(text, start));
    assert(group_formed(text, (groups - 1) * 4));
    lemma_value_symbol(text[start]);
    lemma_value_symbol(text[start + 1]);
    if symbol_value(text[start + 2]) is Some {
        lemma_value_symbol(text[start + 2]);
    }
    if symbol_value(text[start + 3]) is Some {
        lemma_value_symbol(text[start + 3]);
    }
    if symbol_value(text[text.len() - 1]) is Some {
        lemma_value_symbol(text[text.len() - 1]);
    }
    if symbol_value(text[text.len() - 2]) is Some {
        lemma_value_symbol(text[text.len() - 2]);
    }
    assert(start / 4 * 3 == first && (start + 1) / 4 * 3 == first && (start + 2) / 4 * 3 == first && (start + 3) / 4
        * 3 == first);
    assert(first / 3 * 4 == start && (first + 1) / 3 * 4 == start && (first + 2) / 3 * 4 == start);
    assert(first < bytes.len());
    assert(bytes[first] == byte_at(text, first));
    if first + 1 < bytes.len() {
        assert(bytes[first + 1] == byte_at(text, first + 1));
    }
    if first + 2 < bytes.len() {
        assert(bytes[first + 2] == byte_at(text, first + 2));
    }
}

/// The executable form of [`symbol`].
fn symbol_of(value: u8) -> (result: u8)
    requires
        value < 64,
    ensures
        result == symbol(value as int),
{
    if value < 26 {
        0x41 + value
    } else if value < 52 {
        0x61 + (value - 26)
    } else if value < 62 {
        0x30 + (value - 52)
    } else if value == 62 {
        0x2b
    } else {
        0x2f
    }
}

/// The executable form of [`symbol_value`].
fn value_of(symbol: u8) -> (result: Option<u8>)
    ensures
        match result {
            Some(value) => symbol_value(symbol) == Some(value as int) && value < 64,
            None => symbol_value(symbol) is None,
        },
{
    if 0x41 <= symbol && symbol <= 0x5a {
        Some(symbol - 0x41)
    } else if 0x61 <= symbol && symbol <= 0x7a {
        Some(symbol - 0x61 + 26)
    } else if 0x30 <= symbol && symbol <= 0x39 {
        Some(symbol - 0x30 + 52)
    } else if symbol == 0x2b {
        Some(62)
    } else if symbol == 0x2f {
        Some(63)
    } else {
        None
    }
}

/// Encodes `bytes`.
pub fn encode_symbols(bytes: &[u8]) -> (text: Vec<u8>)
    ensures
        text@ == base64_symbols(bytes@),
{
    let mut text: Vec<u8> = Vec::new();
    let mut first: usize = 0;
    while first < bytes.len()
        invariant
            first % 3 == 0,
            first <= bytes@.len() + 2,
            text@.len() == first / 3 * 4,
            forall|index: int| 0 <= index < text@.len() ==> text@[index] == symbol_at(bytes@, index),
        decreases bytes@.len() + 3 - first,
    {
        let b0 = bytes[first];
        let b1 = if bytes.len() - first > 1 {
            bytes[first + 1]
        } else {
            0
        };
        let b2 = if bytes.len() - first > 2 {
            bytes[first + 2]
        } else {
            0
        };
        let ghost start = text@.len() as int;
        assert(start / 4 * 3 == first && (start + 1) / 4 * 3 == first && (start + 2) / 4 * 3 == first && (start + 3)
            / 4 * 3 == first);
        text.push(symbol_of(b0 / 4));
        text.push(symbol_of(b0 % 4 * 16 + b1 / 16));
        if bytes.len() - first > 1 {
            text.push(symbol_of(b1 % 16 * 4 + b2 / 64));
        } else {
            text.push(PAD);
        }
        if bytes.len() - first > 2 {
            text.push(symbol_of(b2 % 64));
        } else {
            text.push(PAD);
        }
        if bytes.len() - first <= 3 {
            assert(text@ =~= base64_symbols(bytes@));
            return text;
        }
        first = first + 3;
    }
    assert(text@ =~= base64_symbols(bytes@));
    text
}

/// Decodes `text`, or gives `None` where it is not an encoding.
pub fn decode_symbols(text: &[u8]) -> (result: Option<Vec<u8>>)
    ensures
        match result {
            Some(bytes) => base64_bytes(text@) == Some(bytes@),
            None => base64_bytes(text@) is None,
        },
{
    let len = text.len();
    if len % 4 != 0 {
        return None;
    }
    let mut bytes: Vec<u8> = Vec::new();
    let mut start: usize = 0;
    while start < len
        invariant
            len == text@.len(),
            len % 4 == 0,
            start % 4 == 0,
            start <= len,
            bytes@.len() == start / 4 * 3,
            forall|group: int| 0 <= group && group * 4 < start ==> #[trigger] group_formed(text@, group * 4),
            forall|index: int| 0 <= index < bytes@.len() ==> bytes@[index] == byte_at(text@, index),
            start > 0 ==> text@[start - 1] != PAD,
        decreases len - start,
    {
        let last = len - start == 4;
        let s2 = text[start + 2];
        let s3 = text[start + 3];
        let ghost at = bytes@.len() as int;
        assert(at / 3 * 4 == start && (at + 1) / 3 * 4 == start && (at + 2) / 3 * 4 == start);
        assert(start as int == (start as int / 4) * 4);
        let ghost group = start as int / 4;
        let v0 = match value_of(text[start]) {
            Some(value) => value,
            None => {
                assert(!group_formed(text@, group * 4));
                return None;
            },
        };
        let v1 = match value_of(text[start + 1]) {
            Some(value) => value,
            None => {
                assert(!group_formed(text@, group * 4));
                return None;
            },
        };
        if last && s3 == PAD {
            if s2 == PAD {
                if v1 % 16 != 0 {
                    assert(!group_formed(text@, group * 4));
                    return None;
                }
                bytes.push(v0 * 4 + v1 / 16);
            } else {
                let v2 = match value_of(s2) {
                    Some(value) => value,
                    None => {
                        assert(!group_formed(text@, group * 4));
                        return None;
                    },
                };
                if v2 % 4 != 0 {
                    assert(!group_formed(text@, group * 4));
                    return None;
                }
                bytes.push(v0 * 4 + v1 / 16);
                bytes.push(v1 % 16 * 16 + v2 / 4);
            }
            assert forall|group: int| 0 <= group && group * 4 < len implies #[trigger] group_formed(text@, group * 4) by {
                if group * 4 >= start {
                    assert(group * 4 == start);
                }
            }
            assert(bytes@ =~= base64_bytes(text@)->0);
            return Some(bytes);
        }
        let v2 = match value_of(s2) {
            Some(value) => value,
            None => {
                assert(!group_formed(text@, group * 4));
                return None;
            },
        };
        let v3 = match value_of(s3) {
            Some(value) => value,
            None => {
                assert(!group_formed(text@, group * 4));
                return None;
            },
        };
        bytes.push(v0 * 4 + v1 / 16);
        bytes.push(v1 % 16 * 16 + v2 / 4);
        bytes.push(v2 % 4 * 64 + v3);
        assert forall|group: int| 0 <= group && group * 4 < start + 4 implies #[trigger] group_formed(text@, group * 4) by {
            if group * 4 >= start {
                assert(group * 4 == start);
            }
        }
        start = start + 4;
    }
    assert(bytes@ =~= base64_bytes(text@)->0);
    Some(bytes)
}

} // verus!
