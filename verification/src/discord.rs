//! The event stream adapter: packet transport over a chat channel that
//! pushes every new message to its subscribers.
//!
//! A subscription offers each message to the adapter, which keeps the
//! messages of other authors in a bounded queue, oldest first. The pump
//! takes packets from the front of the queue and hands outbound packets
//! over as the text of one message. The order of arrival is the order of
//! the packets; there are no sequence numbers.
//!
//! Capacity policy: the queue holds 512 messages. A message offered to a
//! full queue is not queued and not dropped: it is handed back, and the
//! subscription holds it until the pump has taken a packet.

use crate::codec;
use crate::codec::decoded;
use crate::codec::encoded;
use crate::codec::CodecError;
use crate::codec::TextCodec;
use crate::error::AdapterError;
use std::collections::VecDeque;
use vstd::prelude::*;
use vstd::string::StringSliceAdditionalSpecFns;
use vstd::utf8::encode_utf8;

verus! {

/// How many messages wait in the inbound queue at most.
pub const QUEUE_CAPACITY: usize = 512;

/// How many bytes of UTF-8 text one outbound message holds at most.
pub const MESSAGE_CAPACITY: usize = 2500;

/// A message of the channel: who wrote it, and its text.
#[derive(Clone, Debug, PartialEq, Eq)]
pub struct Message {
    pub author: u64,
    pub content: String,
}

impl View for Message {
    type V = (u64, Seq<char>);

    open spec fn view(&self) -> (u64, Seq<char>) {
        (self.author, self.content@)
    }
}

/// What became of a message that was offered to the adapter.
#[derive(Clone, Debug, PartialEq, Eq)]
pub enum Admission {
    /// It waits in the queue.
    Queued,
    /// It was written by the tunnel itself and is ignored.
    Own,
    /// The queue is full: here is the message again, to be offered later.
    Full(Message),
}

/// The state of an event stream adapter as contracts see it.
pub struct StreamState {
    /// The identity under which the tunnel writes.
    pub identity: u64,
    /// The channel that the tunnel writes to.
    pub channel: u64,
    pub codec: TextCodec,
    /// The messages that wait, oldest first: author and text.
    pub queue: Seq<(u64, Seq<char>)>,
}

impl StreamState {
    /// What every adapter's state satisfies: the queue is within its
    /// capacity and holds no message of the tunnel's own.
    pub open spec fn well_formed(self) -> bool {
        &&& self.queue.len() <= QUEUE_CAPACITY
        &&& forall|i: int| 0 <= i < self.queue.len() ==> (#[trigger] self.queue[i]).0 != self.identity
    }

    /// Whether a message of `author` offered now would be queued.
    pub open spec fn admits(self, author: u64) -> bool {
        author != self.identity && self.queue.len() < QUEUE_CAPACITY
    }

    /// The state after `message` was offered.
    pub open spec fn after_offer(self, message: (u64, Seq<char>)) -> StreamState {
        if self.admits(message.0) {
            StreamState { queue: self.queue.push(message), ..self }
        } else {
            self
        }
    }

    /// What a read returns: the packet of the oldest message, `None` where
    /// no message waits, or the reason why the oldest message gives none.
    pub open spec fn read_result(self) -> Result<Option<Seq<u8>>, AdapterError> {
        if self.queue.len() == 0 {
            Ok(None)
        } else {
            match decoded(self.codec, self.queue[0].1) {
                None => Err(AdapterError::Codec(CodecError { codec: self.codec })),
                Some(body) => match body_result(body) {
                    Ok(packet) => Ok(Some(packet)),
                    Err(error) => Err(error),
                },
            }
        }
    }

    /// The state after a read: the oldest message has left the queue,
    /// whatever it gave.
    pub open spec fn after_read(self) -> StreamState {
        if self.queue.len() == 0 {
            self
        } else {
            StreamState { queue: self.queue.subrange(1, self.queue.len() as int), ..self }
        }
    }

    /// What a write of `packet` returns: the text of the message to
    /// publish, or the refusal of a text that one message cannot hold.
    pub open spec fn write_result(self, packet: Seq<u8>) -> Result<Seq<char>, AdapterError> {
        text_result(encoded(self.codec, packet))
    }
}

/// What the decoded body of a message gives: the packet, or the refusal of
/// a body without bytes.
pub open spec fn body_result(body: Seq<u8>) -> Result<Seq<u8>, AdapterError> {
    if body.len() == 0 {
        Err(AdapterError::EmptyPacket)
    } else {
        Ok(body)
    }
}

/// What the encoded text of a packet gives: the text of the message, or
/// the refusal of a text whose UTF-8 form one message cannot hold.
pub open spec fn text_result(text: Seq<char>) -> Result<Seq<char>, AdapterError> {
    if encode_utf8(text).len() > MESSAGE_CAPACITY {
        Err(AdapterError::PayloadTooLarge)
    } else {
        Ok(text)
    }
}

/// Takes the decoded body of a message as the packet that it carries, and
/// refuses a body without bytes.
pub fn packet_of_body(body: Vec<u8>) -> (result: Result<Vec<u8>, AdapterError>)
    ensures
        match result {
            Ok(packet) => body_result(body@) == Ok::<Seq<u8>, AdapterError>(packet@),
            Err(error) => body_result(body@) == Err::<Seq<u8>, AdapterError>(error),
        },
{
    if body.len() == 0 {
        Err(AdapterError::EmptyPacket)
    } else {
        Ok(body)
    }
}

/// Takes the encoded text of a packet as the text of one message, and
/// refuses a text of more than 2500 bytes of UTF-8.
pub fn message_of_text(text: String) -> (result: Result<String, AdapterError>)
    ensures
        write_view(result) == text_result(text@),
{
    if text.as_str().as_bytes().len() > MESSAGE_CAPACITY {
        return Err(AdapterError::PayloadTooLarge);
    }
    Ok(text)
}

/// A message of the tunnel's own is never queued: offering it changes
/// nothing.
pub proof fn lemma_own_message_is_not_queued(state: StreamState, message: (u64, Seq<char>))
    requires
        message.0 == state.identity,
    ensures
        state.after_offer(message) == state,
{
}

/// An offer keeps the queue within its capacity and free of the tunnel's
/// own messages.
pub proof fn lemma_offer_keeps_well_formed(state: StreamState, message: (u64, Seq<char>))
    requires
        state.well_formed(),
    ensures
        state.after_offer(message).well_formed(),
{
}

/// A read keeps the queue within its capacity and free of the tunnel's own
/// messages.
pub proof fn lemma_read_keeps_well_formed(state: StreamState)
    requires
        state.well_formed(),
    ensures
        state.after_read().well_formed(),
{
    let read = state.after_read();
    assert forall|i: int| 0 <= i < read.queue.len() implies (#[trigger] read.queue[i]).0 != read.identity by {
        assert(read.queue[i] == state.queue[i + 1]);
    }
}

/// A read never delivers a message of the tunnel's own: the message whose
/// packet a read returns was written under another identity.
pub proof fn lemma_read_delivers_no_own_message(state: StreamState)
    requires
        state.well_formed(),
        state.read_result() matches Ok(Some(_)),
    ensures
        state.queue.len() > 0,
        state.queue[0].0 != state.identity,
        state.read_result() == Ok::<Option<Seq<u8>>, AdapterError>(decoded(state.codec, state.queue[0].1)),
{
}

/// Messages leave the queue in the order in which they were queued: after
/// an offer that was admitted, the reads that empty the old queue are
/// followed by the read of the new message.
pub proof fn lemma_offered_message_is_read_last(state: StreamState, message: (u64, Seq<char>))
    requires
        state.admits(message.0),
    ensures
        state.after_offer(message).queue.len() == state.queue.len() + 1,
        state.after_offer(message).queue.last() == message,
        state.queue.len() > 0 ==> state.after_offer(message).read_result() == state.read_result(),
        state.queue.len() > 0 ==> state.after_offer(message).after_read() == state.after_read().after_offer(message),
{
    if state.queue.len() > 0 {
        assert(state.after_offer(message).after_read().queue =~= state.after_read().after_offer(message).queue);
    }
}

/// What happens to an adapter, one step at a time.
pub enum StreamEvent {
    /// The subscription offers a message.
    Offer((u64, Seq<char>)),
    /// The pump reads a packet.
    Read,
}

/// The state after `events` happened in `state`, in order.
pub open spec fn after_events(state: StreamState, events: Seq<StreamEvent>) -> StreamState
    decreases events.len(),
{
    if events.len() == 0 {
        state
    } else {
        let before = after_events(state, events.drop_last());
        match events.last() {
            StreamEvent::Offer(message) => before.after_offer(message),
            StreamEvent::Read => before.after_read(),
        }
    }
}

/// The messages that the reads among `events` took off the queue, in
/// order: what the pump was given to decode.
pub open spec fn taken_by_reads(state: StreamState, events: Seq<StreamEvent>) -> Seq<(u64, Seq<char>)>
    decreases events.len(),
{
    if events.len() == 0 {
        Seq::empty()
    } else {
        let earlier = taken_by_reads(state, events.drop_last());
        let before = after_events(state, events.drop_last());
        match events.last() {
            StreamEvent::Offer(_) => earlier,
            StreamEvent::Read => if before.queue.len() > 0 {
                earlier.push(before.queue[0])
            } else {
                earlier
            },
        }
    }
}

/// Whatever is offered and read, in whatever order, no read is ever given
/// a message of the tunnel's own: every message that a read takes off the
/// queue was written under another identity, and the queue stays within
/// its capacity.
pub proof fn lemma_no_own_message_is_ever_read(state: StreamState, events: Seq<StreamEvent>)
    requires
        state.well_formed(),
    ensures
        after_events(state, events).well_formed(),
        after_events(state, events).identity == state.identity,
        forall|i: int|
            0 <= i < taken_by_reads(state, events).len() ==> (#[trigger] taken_by_reads(state, events)[i]).0
                != state.identity,
    decreases events.len(),
{
    if events.len() > 0 {
        lemma_no_own_message_is_ever_read(state, events.drop_last());
        let before = after_events(state, events.drop_last());
        match events.last() {
            StreamEvent::Offer(message) => {
                lemma_offer_keeps_well_formed(before, message);
            },
            StreamEvent::Read => {
                lemma_read_keeps_well_formed(before);
            },
        }
        let earlier = taken_by_reads(state, events.drop_last());
        let taken = taken_by_reads(state, events);
        assert forall|i: int| 0 <= i < taken.len() implies (#[trigger] taken[i]).0 != state.identity by {
            if i < earlier.len() {
                assert(taken[i] == earlier[i]);
            } else {
                assert(taken[i] == before.queue[0]);
            }
        }
    }
}

/// What a read returned, as contracts see it.
pub open spec fn read_view(result: Result<Option<Vec<u8>>, AdapterError>) -> Result<Option<Seq<u8>>, AdapterError> {
    match result {
        Ok(Some(packet)) => Ok(Some(packet@)),
        Ok(None) => Ok(None),
        Err(error) => Err(error),
    }
}

/// What a write returned, as contracts see it.
pub open spec fn write_view(result: Result<String, AdapterError>) -> Result<Seq<char>, AdapterError> {
    match result {
        Ok(text) => Ok(text@),
        Err(error) => Err(error),
    }
}

/// The adapter of one tunnel session over a pushed channel.
pub struct DiscordAdapter {
    identity: u64,
    channel: u64,
    codec: TextCodec,
    inbound: VecDeque<Message>,
}

impl View for DiscordAdapter {
    type V = StreamState;

    closed spec fn view(&self) -> StreamState {
        StreamState {
            identity: self.identity,
            channel: self.channel,
            codec: self.codec,
            queue: Seq::new(self.inbound@.len(), |i: int| self.inbound@[i]@),
        }
    }
}

impl DiscordAdapter {
    /// The adapter of a new session that writes to `channel` under
    /// `identity`: radix-116 text and an empty queue.
    pub fn new(identity: u64, channel: u64) -> (adapter: Self)
        ensures
            adapter@ == (StreamState { identity, channel, codec: TextCodec::Radix116, queue: Seq::empty() }),
            adapter@.well_formed(),
    {
        let adapter = Self { identity, channel, codec: TextCodec::Radix116, inbound: VecDeque::new() };
        assert(adapter@.queue =~= Seq::empty());
        adapter
    }

    /// The same adapter with another text scheme.
    pub fn with_codec(self, codec: TextCodec) -> (adapter: Self)
        ensures
            adapter@ == (StreamState { codec, ..self@ }),
    {
        let adapter = Self { codec, ..self };
        assert(adapter@.queue =~= self@.queue);
        adapter
    }

    /// The identity under which the tunnel writes.
    pub fn identity(&self) -> (identity: u64)
        ensures
            identity == self@.identity,
    {
        self.identity
    }

    /// The channel that the tunnel writes to.
    pub fn channel(&self) -> (channel: u64)
        ensures
            channel == self@.channel,
    {
        self.channel
    }

    /// How many messages wait in the queue.
    pub fn queued(&self) -> (count: usize)
        ensures
            count == self@.queue.len(),
    {
        self.inbound.len()
    }

    /// Takes a message that the subscription received. A message of the
    /// tunnel's own is ignored, so that the tunnel never reads what it
    /// wrote; any other is queued where the queue has room, and handed
    /// back where it has none.
    pub fn offer(&mut self, message: Message) -> (admission: Admission)
        ensures
            final(self)@ == old(self)@.after_offer(message@),
            old(self)@.well_formed() ==> final(self)@.well_formed(),
            match admission {
                Admission::Queued => old(self)@.admits(message.author),
                Admission::Own => message.author == old(self)@.identity,
                Admission::Full(back) => {
                    &&& message.author != old(self)@.identity
                    &&& old(self)@.queue.len() >= QUEUE_CAPACITY
                    &&& back == message
                },
            },
    {
        if message.author == self.identity {
            return Admission::Own;
        }
        if self.inbound.len() >= QUEUE_CAPACITY {
            return Admission::Full(message);
        }
        let ghost before = self@;
        self.inbound.push_back(message);
        assert(self@.queue =~= before.queue.push(message@));
        Admission::Queued
    }

    /// Takes the oldest message off the queue and decodes its text to the
    /// packet it carries. `None` says that no message waits.
    pub fn read_packet(&mut self) -> (result: Result<Option<Vec<u8>>, AdapterError>)
        ensures
            read_view(result) == old(self)@.read_result(),
            old(self)@.well_formed() ==> final(self)@.well_formed(),
            final(self)@ == old(self)@.after_read(),
    {
        let ghost before = self@;
        let message = match self.inbound.pop_front() {
            Some(message) => message,
            None => {
                return Ok(None);
            },
        };
        assert(self@.queue =~= before.queue.subrange(1, before.queue.len() as int));
        assert(message@ == before.queue[0]);
        match codec::decode(self.codec, message.content.as_str()) {
            Ok(body) => match packet_of_body(body) {
                Ok(packet) => Ok(Some(packet)),
                Err(error) => Err(error),
            },
            Err(error) => Err(AdapterError::Codec(error)),
        }
    }

    /// Encodes `packet` as the text of one message to publish on the
    /// channel, and refuses a packet whose text one message cannot hold.
    pub fn write_packet(&mut self, packet: &[u8]) -> (result: Result<String, AdapterError>)
        ensures
            write_view(result) == old(self)@.write_result(packet@),
            final(self)@ == old(self)@,
    {
        message_of_text(codec::encode(self.codec, packet))
    }
}

} // verus!
