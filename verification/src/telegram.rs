//! The sequenced channel adapter: packet transport over two text slots of a
//! chat (a title and a description) that can only be read on demand.
//!
//! Every unit that is written ends in a sequence number, so that a reader
//! who polls the primary slot can tell a new unit from one it has seen.
//! The adapter holds the counters and decides; the caller makes the network
//! calls that the adapter asks for.

use crate::codec;
use crate::codec::decoded;
use crate::codec::encoded;
use crate::codec::TextCodec;
use crate::error::AdapterError;
use crate::error::SlotError;
use crate::sequence::append_sequence;
use crate::sequence::following;
use crate::sequence::framed;
use crate::sequence::next_sequence;
use crate::sequence::payload_of;
use crate::sequence::split_sequence;
use crate::sequence::trailing_sequence;
use crate::text::decimal;
use crate::text::decimal_text;
use vstd::prelude::*;

verus! {

/// How many bytes of a unit the primary slot takes unless told otherwise.
pub const PRIMARY_CAPACITY: usize = 204;

/// How many bytes of a unit the secondary slot takes unless told otherwise.
pub const SECONDARY_CAPACITY: usize = 204;

/// How long a reader waits after a poll that found nothing new.
pub const POLL_BACKOFF_MILLIS: u64 = 1000;

/// One of the two text slots of the remote chat.
#[derive(Clone, Copy, Debug, PartialEq, Eq, Structural)]
pub enum Slot {
    /// The slot that is polled; it holds the front of every unit.
    Primary,
    /// The slot that takes what the primary slot cannot hold.
    Secondary,
}

/// One network call that a write asks for: set `slot` to `text`.
#[derive(Clone, Debug, PartialEq, Eq)]
pub struct SlotWrite {
    pub slot: Slot,
    pub text: String,
}

impl View for SlotWrite {
    type V = (Slot, Seq<char>);

    open spec fn view(&self) -> (Slot, Seq<char>) {
        (self.slot, self.text@)
    }
}

/// One part of a unit, and the slot that it goes to.
#[derive(Clone, Debug, PartialEq, Eq)]
pub struct SlotPortion {
    pub slot: Slot,
    pub bytes: Vec<u8>,
}

impl View for SlotPortion {
    type V = (Slot, Seq<u8>);

    open spec fn view(&self) -> (Slot, Seq<u8>) {
        (self.slot, self.bytes@)
    }
}

/// What one poll of the primary slot gave.
#[derive(Clone, Debug, PartialEq, Eq)]
pub enum Polled {
    /// A unit with a new sequence number: its packet.
    Packet(Vec<u8>),
    /// The unit on the slot was seen before: wait and poll again.
    NothingNew,
}

/// The state of a sequenced channel as contracts see it.
pub struct ChannelState {
    pub read_group: i64,
    pub write_group: i64,
    pub write_sequence: u32,
    /// The sequence number of the last packet read, `None` before the first.
    pub read_sequence: Option<u32>,
    pub codec: TextCodec,
    pub primary_capacity: nat,
    pub secondary_capacity: nat,
}

/// How the unit of `packet` is laid out in `state`: the parts to write, in
/// the order of writing, or the refusal of a unit that the two slots cannot
/// hold. What is beyond the primary slot's capacity goes to the secondary
/// slot, and is written first.
pub open spec fn portions(state: ChannelState, packet: Seq<u8>) -> Result<Seq<(Slot, Seq<u8>)>, AdapterError> {
    let unit = framed(packet, state.write_sequence);
    if unit.len() > state.primary_capacity + state.secondary_capacity {
        Err(AdapterError::PacketTooLarge)
    } else if unit.len() > state.primary_capacity {
        Ok(
            seq![
                (Slot::Secondary, unit.subrange(state.primary_capacity as int, unit.len() as int)),
                (Slot::Primary, unit.subrange(0, state.primary_capacity as int)),
            ],
        )
    } else {
        Ok(seq![(Slot::Primary, unit)])
    }
}

/// What a write of `packet` in `state` returns: the network calls to make,
/// in order, each with the text of one part of the unit, or the refusal of
/// a unit that the two slots cannot hold.
pub open spec fn write_result(state: ChannelState, packet: Seq<u8>) -> Result<Seq<(Slot, Seq<char>)>, AdapterError> {
    match portions(state, packet) {
        Ok(parts) => Ok(Seq::new(parts.len(), |i: int| (parts[i].0, encoded(state.codec, parts[i].1)))),
        Err(error) => Err(error),
    }
}

/// The state after a write in `state`: the write counter has moved on,
/// whatever the write returned.
pub open spec fn after_write(state: ChannelState) -> ChannelState {
    ChannelState { write_sequence: next_sequence(state.write_sequence), ..state }
}

/// Whether a unit under `sequence` is new to a reader whose last packet
/// came under `seen`: its sequence number is larger, or the reader has read
/// no packet yet.
pub open spec fn is_new(seen: Option<u32>, sequence: int) -> bool {
    match seen {
        Some(last) => sequence > last,
        None => true,
    }
}

/// What `unit`, decoded from the primary slot, means in `state`: its
/// packet where it is new, `None` where it is not, and an error where it
/// is too short to end in a sequence number or carries no packet bytes.
pub open spec fn unit_result(state: ChannelState, unit: Seq<u8>) -> Result<Option<Seq<u8>>, AdapterError> {
    if unit.len() < 4 {
        Err(AdapterError::Decode(SlotError::MissingSequence))
    } else if !is_new(state.read_sequence, trailing_sequence(unit)) {
        Ok(None)
    } else if unit.len() == 4 {
        Err(AdapterError::EmptyPacket)
    } else {
        Ok(Some(payload_of(unit)))
    }
}

/// The state after `unit` was taken in `state`: the adapter remembers the
/// sequence number of a packet that is returned, and nothing changes
/// otherwise.
pub open spec fn after_unit(state: ChannelState, unit: Seq<u8>) -> ChannelState {
    match unit_result(state, unit) {
        Ok(Some(_)) => ChannelState { read_sequence: Some(trailing_sequence(unit) as u32), ..state },
        _ => state,
    }
}

/// What a poll in `state` returns when the primary slot holds `slot`.
pub open spec fn read_result(state: ChannelState, slot: Option<Seq<char>>) -> Result<Option<Seq<u8>>, AdapterError> {
    match slot {
        None => Err(AdapterError::Decode(SlotError::Absent)),
        Some(text) => match decoded(state.codec, text) {
            None => Err(AdapterError::Decode(SlotError::Undecodable)),
            Some(unit) => unit_result(state, unit),
        },
    }
}

/// The state after a poll in `state` when the primary slot holds `slot`.
pub open spec fn after_read(state: ChannelState, slot: Option<Seq<char>>) -> ChannelState {
    match slot {
        None => state,
        Some(text) => match decoded(state.codec, text) {
            None => state,
            Some(unit) => after_unit(state, unit),
        },
    }
}

/// What a poll returned, as contracts see it.
pub open spec fn polled_view(result: Result<Polled, AdapterError>) -> Result<Option<Seq<u8>>, AdapterError> {
    match result {
        Ok(Polled::Packet(packet)) => Ok(Some(packet@)),
        Ok(Polled::NothingNew) => Ok(None),
        Err(error) => Err(error),
    }
}

/// A layout that was returned, as contracts see it.
pub open spec fn portions_view(result: Result<Vec<SlotPortion>, AdapterError>) -> Result<Seq<(Slot, Seq<u8>)>, AdapterError> {
    match result {
        Ok(parts) => Ok(Seq::new(parts@.len(), |i: int| parts@[i]@)),
        Err(error) => Err(error),
    }
}

/// What a write returned, as contracts see it.
pub open spec fn writes_view(result: Result<Vec<SlotWrite>, AdapterError>) -> Result<Seq<(Slot, Seq<char>)>, AdapterError> {
    match result {
        Ok(writes) => Ok(Seq::new(writes@.len(), |i: int| writes@[i]@)),
        Err(error) => Err(error),
    }
}

/// The adapter of one tunnel session over a polled channel.
pub struct BotAdapter {
    read_group: i64,
    write_group: i64,
    write_sequence: u32,
    read_sequence: Option<u32>,
    codec: TextCodec,
    primary_capacity: usize,
    secondary_capacity: usize,
}

impl View for BotAdapter {
    type V = ChannelState;

    closed spec fn view(&self) -> ChannelState {
        ChannelState {
            read_group: self.read_group,
            write_group: self.write_group,
            write_sequence: self.write_sequence,
            read_sequence: self.read_sequence,
            codec: self.codec,
            primary_capacity: self.primary_capacity as nat,
            secondary_capacity: self.secondary_capacity as nat,
        }
    }
}

impl BotAdapter {
    /// The adapter of a new session that reads the chat `read_group` and
    /// writes the chat `write_group`: no packet read yet, the write counter
    /// at 0, radix-85 text, 204 bytes to each slot.
    pub fn new(read_group: i64, write_group: i64) -> (adapter: Self)
        ensures
            adapter@ == (ChannelState {
                read_group,
                write_group,
                write_sequence: 0,
                read_sequence: None,
                codec: TextCodec::Radix85,
                primary_capacity: PRIMARY_CAPACITY as nat,
                secondary_capacity: SECONDARY_CAPACITY as nat,
            }),
    {
        Self {
            read_group,
            write_group,
            write_sequence: 0,
            read_sequence: None,
            codec: TextCodec::Radix85,
            primary_capacity: PRIMARY_CAPACITY,
            secondary_capacity: SECONDARY_CAPACITY,
        }
    }

    /// The same adapter with another text scheme.
    pub fn with_codec(self, codec: TextCodec) -> (adapter: Self)
        ensures
            adapter@ == (ChannelState { codec, ..self@ }),
    {
        Self { codec, ..self }
    }

    /// The same adapter with other capacities of its two slots, in bytes of
    /// a unit before it is encoded.
    pub fn with_capacities(self, primary: usize, secondary: usize) -> (adapter: Self)
        ensures
            adapter@ == (ChannelState {
                primary_capacity: primary as nat,
                secondary_capacity: secondary as nat,
                ..self@
            }),
    {
        Self { primary_capacity: primary, secondary_capacity: secondary, ..self }
    }

    /// The chat whose primary slot is polled.
    pub fn read_group(&self) -> (group: i64)
        ensures
            group == self@.read_group,
    {
        self.read_group
    }

    /// The chat whose slots are written.
    pub fn write_group(&self) -> (group: i64)
        ensures
            group == self@.write_group,
    {
        self.write_group
    }

    /// The sequence number of the last packet that a poll returned, `None`
    /// before the first.
    pub fn read_sequence(&self) -> (sequence: Option<u32>)
        ensures
            sequence == self@.read_sequence,
    {
        self.read_sequence
    }

    /// The sequence number that the next write embeds.
    pub fn write_sequence(&self) -> (sequence: u32)
        ensures
            sequence == self@.write_sequence,
    {
        self.write_sequence
    }

    /// The hint that may be written before a poll: the sequence number of
    /// the last packet read as a decimal numeral, for the secondary slot of
    /// the read chat. It tells whoever watches that chat how far this reader
    /// has come. There is none before the first packet. No reader depends
    /// on it, and a failure to write it is ignored.
    pub fn nudge(&self) -> (write: Option<SlotWrite>)
        ensures
            match write {
                Some(write) => self@.read_sequence matches Some(last) && write@ == (
                    Slot::Secondary,
                    decimal_text(last as nat),
                ),
                None => self@.read_sequence is None,
            },
    {
        match self.read_sequence {
            Some(last) => Some(SlotWrite { slot: Slot::Secondary, text: decimal(last) }),
            None => None,
        }
    }

    /// Takes a unit that was decoded from the primary slot of the read chat
    /// and decides what it means: a new packet, nothing new, or a unit that
    /// gives no packet.
    pub fn take_unit(&mut self, unit: Vec<u8>) -> (result: Result<Polled, AdapterError>)
        ensures
            polled_view(result) == unit_result(old(self)@, unit@),
            final(self)@ == after_unit(old(self)@, unit@),
    {
        let (payload, sequence) = match split_sequence(unit) {
            Some(parts) => parts,
            None => {
                return Err(AdapterError::Decode(SlotError::MissingSequence));
            },
        };
        if let Some(last) = self.read_sequence {
            if sequence <= last {
                return Ok(Polled::NothingNew);
            }
        }
        if payload.len() == 0 {
            return Err(AdapterError::EmptyPacket);
        }
        self.read_sequence = Some(sequence);
        Ok(Polled::Packet(payload))
    }

    /// Takes the text that a poll of the primary slot of the read chat
    /// gave (`None` where the chat has none) and decides what it means: a
    /// new packet, nothing new, or a slot that cannot be read.
    pub fn read_packet(&mut self, slot: Option<&str>) -> (result: Result<Polled, AdapterError>)
        ensures
            polled_view(result) == read_result(old(self)@, slot_view(slot)),
            final(self)@ == after_read(old(self)@, slot_view(slot)),
    {
        let text = match slot {
            Some(text) => text,
            None => {
                return Err(AdapterError::Decode(SlotError::Absent));
            },
        };
        match codec::decode(self.codec, text) {
            Ok(unit) => self.take_unit(unit),
            Err(_) => Err(AdapterError::Decode(SlotError::Undecodable)),
        }
    }

    /// Frames `packet` under the current write sequence number, moves the
    /// counter on, and lays the unit out over the slots: what is beyond the
    /// primary slot's capacity goes to the secondary slot, which comes
    /// first. A unit beyond both slots is refused.
    pub fn frame_packet(&mut self, packet: &[u8]) -> (result: Result<Vec<SlotPortion>, AdapterError>)
        ensures
            portions_view(result) == portions(old(self)@, packet@),
            final(self)@ == after_write(old(self)@),
    {
        let mut unit = append_sequence(packet, self.write_sequence);
        self.write_sequence = following(self.write_sequence);
        let total = unit.len();
        let mut parts: Vec<SlotPortion> = Vec::new();
        if total > self.primary_capacity {
            if total - self.primary_capacity > self.secondary_capacity {
                return Err(AdapterError::PacketTooLarge);
            }
            let overflow = unit.split_off(self.primary_capacity);
            parts.push(SlotPortion { slot: Slot::Secondary, bytes: overflow });
        }
        parts.push(SlotPortion { slot: Slot::Primary, bytes: unit });
        assert(portions_view(Ok(parts))->Ok_0 =~= portions(old(self)@, packet@)->Ok_0);
        Ok(parts)
    }

    /// Frames `packet` under the current write sequence number, moves the
    /// counter on, and says which slots to set to which text, in order: the
    /// secondary slot first where the unit does not fit the primary slot
    /// alone. A unit beyond both slots is refused, and no call is asked
    /// for.
    pub fn write_packet(&mut self, packet: &[u8]) -> (result: Result<Vec<SlotWrite>, AdapterError>)
        ensures
            writes_view(result) == write_result(old(self)@, packet@),
            final(self)@ == after_write(old(self)@),
    {
        let parts = match self.frame_packet(packet) {
            Ok(parts) => parts,
            Err(error) => {
                return Err(error);
            },
        };
        let ghost laid = portions(old(self)@, packet@)->Ok_0;
        let mut writes: Vec<SlotWrite> = Vec::new();
        let mut next: usize = 0;
        while next < parts.len()
            invariant
                next <= parts@.len(),
                writes@.len() == next,
                parts@.len() == laid.len(),
                forall|i: int| 0 <= i < parts@.len() ==> (#[trigger] parts@[i])@ == laid[i],
                forall|i: int|
                    0 <= i < next ==> (#[trigger] writes@[i])@ == (laid[i].0, encoded(self.codec, laid[i].1)),
            decreases parts@.len() - next,
        {
            let text = codec::encode(self.codec, parts[next].bytes.as_slice());
            writes.push(SlotWrite { slot: parts[next].slot, text });
            next = next + 1;
        }
        assert(writes_view(Ok(writes))->Ok_0 =~= write_result(old(self)@, packet@)->Ok_0);
        Ok(writes)
    }
}

/// The state after `count` writes in a row, whatever was written and
/// whatever became of the network calls.
pub open spec fn after_writes(state: ChannelState, count: nat) -> ChannelState
    decreases count,
{
    if count == 0 {
        state
    } else {
        after_write(after_writes(state, (count - 1) as nat))
    }
}

/// A unit gives a packet only where its sequence number is larger than
/// that of the last packet read (or no packet was read yet), and the
/// adapter then remembers that number. A unit whose sequence number is not
/// larger is nothing new: the adapter stays as it was. The sequence number
/// is never part of the packet, and what the adapter remembers never goes
/// back.
pub proof fn lemma_only_newer_units_are_taken(state: ChannelState, unit: Seq<u8>)
    requires
        unit.len() >= 4,
    ensures
        unit_result(state, unit) matches Ok(Some(packet)) ==> {
            &&& state.read_sequence matches Some(last) ==> trailing_sequence(unit) > last
            &&& after_unit(state, unit).read_sequence == Some(trailing_sequence(unit) as u32)
            &&& packet == payload_of(unit)
            &&& packet.len() == unit.len() - 4
            &&& unit == framed(packet, trailing_sequence(unit) as u32)
        },
        state.read_sequence matches Some(last) && trailing_sequence(unit) <= last ==> {
            &&& unit_result(state, unit) == Ok::<Option<Seq<u8>>, AdapterError>(None)
            &&& after_unit(state, unit) == state
        },
        state.read_sequence matches Some(last) ==> after_unit(state, unit).read_sequence matches Some(next) && next
            >= last,
        after_unit(state, unit) == (ChannelState { read_sequence: after_unit(state, unit).read_sequence, ..state }),
{
    crate::sequence::lemma_split_frames(unit);
}

/// A poll decides by the unit that the slot's text stands for: a slot whose
/// unit is not new asks for a retry and leaves the adapter as it was, and a
/// poll that returns a packet has moved the adapter on to the unit's
/// sequence number.
pub proof fn lemma_poll_decides_by_the_unit(state: ChannelState, text: Seq<char>, unit: Seq<u8>)
    requires
        decoded(state.codec, text) == Some(unit),
    ensures
        read_result(state, Some(text)) == unit_result(state, unit),
        after_read(state, Some(text)) == after_unit(state, unit),
{
}

/// Where a write puts a unit, by its length: a unit within the primary
/// capacity goes to the primary slot alone; a longer unit within both
/// capacities goes to the secondary slot and then to the primary slot,
/// which takes as much as it holds; a unit beyond both is refused, and
/// nothing is written. The parts, put together in the order of the slots,
/// are the unit.
pub proof fn lemma_write_splits_at_capacity(state: ChannelState, packet: Seq<u8>)
    ensures
        packet.len() + 4 <= state.primary_capacity ==> {
            &&& portions(state, packet) matches Ok(parts)
            &&& parts == seq![(Slot::Primary, framed(packet, state.write_sequence))]
            &&& write_result(state, packet) matches Ok(writes)
            &&& writes.len() == 1
            &&& writes[0].0 == Slot::Primary
        },
        state.primary_capacity < packet.len() + 4 <= state.primary_capacity + state.secondary_capacity ==> {
            &&& portions(state, packet) matches Ok(parts)
            &&& parts.len() == 2
            &&& parts[0].0 == Slot::Secondary
            &&& parts[1].0 == Slot::Primary
            &&& parts[1].1.len() == state.primary_capacity
            &&& parts[1].1 + parts[0].1 == framed(packet, state.write_sequence)
            &&& write_result(state, packet) matches Ok(writes)
            &&& writes.len() == 2
            &&& writes[0].0 == Slot::Secondary
            &&& writes[1].0 == Slot::Primary
        },
        packet.len() + 4 > state.primary_capacity + state.secondary_capacity ==> {
            &&& portions(state, packet) == Err::<Seq<(Slot, Seq<u8>)>, AdapterError>(AdapterError::PacketTooLarge)
            &&& write_result(state, packet) == Err::<Seq<(Slot, Seq<char>)>, AdapterError>(
                AdapterError::PacketTooLarge,
            )
        },
{
    let unit = framed(packet, state.write_sequence);
    if state.primary_capacity < unit.len() <= state.primary_capacity + state.secondary_capacity {
        assert(unit.subrange(0, state.primary_capacity as int) + unit.subrange(
            state.primary_capacity as int,
            unit.len() as int,
        ) =~= unit);
    }
}

/// The sequence number that `steps` steps lead to from `first`.
pub open spec fn sequence_after(first: u32, steps: nat) -> u32 {
    ((first + steps) % 0x1_0000_0000) as u32
}

/// One more step from `first` is the next sequence number.
proof fn lemma_sequence_step(first: u32, steps: nat)
    ensures
        sequence_after(first, steps + 1) == next_sequence(sequence_after(first, steps)),
{
    let total = first + steps;
    assert((total + 1) % 0x1_0000_0000 == if total % 0x1_0000_0000 == 0xffff_ffff {
        0
    } else {
        total % 0x1_0000_0000 + 1
    });
}

/// Writes in a row embed sequence numbers that count up by one without a
/// gap or a repeat, wrapping after the largest: the write after `count`
/// writes embeds the first number plus `count`, modulo 2^32, and nothing
/// else of the adapter has changed. The counter moves with every write,
/// whatever the write returned, so a write that is tried again never
/// reuses a number.
pub proof fn lemma_writes_count_up(state: ChannelState, count: nat)
    ensures
        after_writes(state, count) == (ChannelState {
            write_sequence: sequence_after(state.write_sequence, count),
            ..state
        }),
        state.write_sequence + count <= u32::MAX ==> after_writes(state, count).write_sequence == state.write_sequence
            + count,
    decreases count,
{
    if count > 0 {
        lemma_writes_count_up(state, (count - 1) as nat);
        lemma_sequence_step(state.write_sequence, (count - 1) as nat);
    }
}

/// A unit that fits the primary slot reads back as the packet that was
/// written, wherever the codec gives back the unit from its text, the
/// packet is not empty and the unit is new to the reader: the poll returns
/// the packet, and the reader remembers the writer's sequence number.
pub proof fn lemma_written_unit_reads_back(writer: ChannelState, reader: ChannelState, packet: Seq<u8>)
    requires
        packet.len() > 0,
        packet.len() + 4 <= writer.primary_capacity,
        reader.codec == writer.codec,
        is_new(reader.read_sequence, writer.write_sequence as int),
        decoded(writer.codec, encoded(writer.codec, framed(packet, writer.write_sequence))) == Some(
            framed(packet, writer.write_sequence),
        ),
    ensures
        write_result(writer, packet) matches Ok(writes) && writes.len() == 1 && {
            let text = writes[0].1;
            &&& read_result(reader, Some(text)) == Ok::<Option<Seq<u8>>, AdapterError>(Some(packet))
            &&& after_read(reader, Some(text)).read_sequence == Some(writer.write_sequence)
        },
{
    crate::sequence::lemma_framed_splits(packet, writer.write_sequence);
}

/// The text of a polled slot, as contracts see it.
pub open spec fn slot_view(slot: Option<&str>) -> Option<Seq<char>> {
    match slot {
        Some(text) => Some(text@),
        None => None,
    }
}

} // verus!
