//! The sequence number that closes every transport unit of a polled
//! channel: four bytes, most significant first, after the packet's bytes.

use vstd::prelude::*;

verus! {

/// The number of bytes that a sequence number takes at the end of a unit.
pub const SEQUENCE_LEN: usize = 4;

/// The four bytes of `sequence`, most significant first.
pub open spec fn sequence_bytes(sequence: u32) -> Seq<u8> {
    seq![
        (sequence / 0x100_0000) as u8,
        (sequence / 0x1_0000 % 0x100) as u8,
        (sequence / 0x100 % 0x100) as u8,
        (sequence % 0x100) as u8,
    ]
}

/// The transport unit that carries `payload` under `sequence`.
pub open spec fn framed(payload: Seq<u8>, sequence: u32) -> Seq<u8> {
    payload + sequence_bytes(sequence)
}

/// The number that the last four bytes of `unit` spell, most significant
/// byte first.
pub open spec fn trailing_sequence(unit: Seq<u8>) -> int
    recommends
        unit.len() >= 4,
{
    let end = unit.len() as int;
    unit[end - 4] * 0x100_0000 + unit[end - 3] * 0x1_0000 + unit[end - 2] * 0x100 + unit[end - 1]
}

/// The bytes of `unit` before its sequence number.
pub open spec fn payload_of(unit: Seq<u8>) -> Seq<u8>
    recommends
        unit.len() >= 4,
{
    unit.subrange(0, unit.len() - 4)
}

/// The sequence number after `sequence`; the counter wraps to 0 after its
/// largest value.
pub open spec fn next_sequence(sequence: u32) -> u32 {
    if sequence == u32::MAX {
        0
    } else {
        (sequence + 1) as u32
    }
}

/// The executable form of [`next_sequence`].
pub fn following(sequence: u32) -> (next: u32)
    ensures
        next == next_sequence(sequence),
{
    if sequence == u32::MAX {
        0
    } else {
        sequence + 1
    }
}

/// A unit splits back into the payload and the sequence number that it was
/// framed from.
pub proof fn lemma_framed_splits(payload: Seq<u8>, sequence: u32)
    ensures
        framed(payload, sequence).len() == payload.len() + 4,
        trailing_sequence(framed(payload, sequence)) == sequence,
        payload_of(framed(payload, sequence)) == payload,
{
    let unit = framed(payload, sequence);
    let end = unit.len() as int;
    assert(unit[end - 4] == sequence_bytes(sequence)[0]);
    assert(unit[end - 3] == sequence_bytes(sequence)[1]);
    assert(unit[end - 2] == sequence_bytes(sequence)[2]);
    assert(unit[end - 1] == sequence_bytes(sequence)[3]);
    assert(payload_of(unit) =~= payload);
}

/// Four bytes, read most significant first, spell a 32-bit number whose
/// bytes they are.
proof fn lemma_value_bytes(b0: u8, b1: u8, b2: u8, b3: u8)
    ensures
        0 <= b0 * 0x100_0000 + b1 * 0x1_0000 + b2 * 0x100 + b3 <= u32::MAX,
        sequence_bytes((b0 * 0x100_0000 + b1 * 0x1_0000 + b2 * 0x100 + b3) as u32) == seq![b0, b1, b2, b3],
{
    let value = (b0 * 0x100_0000 + b1 * 0x1_0000 + b2 * 0x100 + b3) as u32;
    let low = b1 * 0x1_0000 + b2 * 0x100 + b3;
    assert(value == b0 * 0x100_0000 + low);
    assert(0 <= low < 0x100_0000);
    assert(value / 0x100_0000 == b0);
    let mid = b2 * 0x100 + b3;
    assert(value == (b0 * 0x100 + b1) * 0x1_0000 + mid);
    assert(0 <= mid < 0x1_0000);
    assert(value / 0x1_0000 == b0 * 0x100 + b1);
    assert(value == (b0 * 0x1_0000 + b1 * 0x100 + b2) * 0x100 + b3);
    assert(value / 0x100 == b0 * 0x1_0000 + b1 * 0x100 + b2);
    assert(sequence_bytes(value) =~= seq![b0, b1, b2, b3]);
}

/// A unit of at least four bytes is the framing of its payload under its
/// sequence number.
pub proof fn lemma_split_frames(unit: Seq<u8>)
    requires
        unit.len() >= 4,
    ensures
        0 <= trailing_sequence(unit) <= u32::MAX,
        framed(payload_of(unit), trailing_sequence(unit) as u32) == unit,
{
    let end = unit.len() as int;
    lemma_value_bytes(unit[end - 4], unit[end - 3], unit[end - 2], unit[end - 1]);
    let sequence = trailing_sequence(unit) as u32;
    assert(framed(payload_of(unit), sequence) =~= unit);
}

/// Builds the transport unit of `payload` under `sequence`.
pub fn append_sequence(payload: &[u8], sequence: u32) -> (unit: Vec<u8>)
    ensures
        unit@ == framed(payload@, sequence),
{
    let mut unit = vstd::slice::slice_to_vec(payload);
    unit.push((sequence / 0x100_0000) as u8);
    unit.push((sequence / 0x1_0000 % 0x100) as u8);
    unit.push((sequence / 0x100 % 0x100) as u8);
    unit.push((sequence % 0x100) as u8);
    assert(unit@ =~= framed(payload@, sequence));
    unit
}

/// Splits a transport unit into its payload and its sequence number, or
/// gives `None` for a unit too short to end in one.
pub fn split_sequence(unit: Vec<u8>) -> (parts: Option<(Vec<u8>, u32)>)
    ensures
        match parts {
            Some((payload, sequence)) => {
                &&& unit@.len() >= 4
                &&& payload@ == payload_of(unit@)
                &&& sequence == trailing_sequence(unit@)
            },
            None => unit@.len() < 4,
        },
{
    let end = unit.len();
    if end < SEQUENCE_LEN {
        return None;
    }
    let b0: u32 = unit[end - 4] as u32;
    let b1: u32 = unit[end - 3] as u32;
    let b2: u32 = unit[end - 2] as u32;
    let b3: u32 = unit[end - 1] as u32;
    let sequence: u32 = b0 * 0x100_0000 + b1 * 0x1_0000 + b2 * 0x100 + b3;
    let mut payload = unit;
    payload.truncate(end - SEQUENCE_LEN);
    Some((payload, sequence))
}

} // verus!
