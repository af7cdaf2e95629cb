//! The rules of the packet pump, which copies packets between the virtual
//! network device and an adapter in both directions.
//!
//! The pump's loop waits on the device and on the adapter at once and does
//! the reads and writes. What it does with each outcome is decided here.
//! The adapter only ever sees raw network-layer packets: a header that the
//! device's driver puts before each packet is added and removed here.

use crate::buffer::collect_slice;
use crate::error::AdapterError;
use vstd::prelude::*;

verus! {

/// The largest frame that the device's buffers hold.
pub const MAX_FRAME_LEN: usize = 2500;

/// How the device's driver frames a packet.
#[derive(Clone, Copy, Debug, PartialEq, Eq, Structural)]
pub enum DeviceFraming {
    /// The packet as it is.
    Raw,
    /// Four bytes that name the address family, then the packet.
    AddressFamily,
}

/// What ends the pump.
#[derive(Clone, Copy, Debug, PartialEq, Eq, Structural)]
pub enum PumpError {
    /// The adapter failed to read a packet.
    AdapterRead(AdapterError),
    /// The adapter failed to write a packet.
    AdapterWrite(AdapterError),
    /// The device failed to read, or gave a frame too short for its header.
    DeviceRead,
}

/// What the pump reports and then goes on from.
#[derive(Clone, Copy, Debug, PartialEq, Eq, Structural)]
pub enum PumpWarning {
    /// The device failed to write a frame.
    DeviceWrite,
    /// A packet from the adapter makes a frame beyond the device's buffers.
    OversizedPacket,
}

/// What happened in the pump's loop.
#[derive(Debug, PartialEq, Eq)]
pub enum PumpEvent {
    /// The adapter's read ended: a packet, or a failure.
    AdapterRead(Result<Vec<u8>, AdapterError>),
    /// The device's read ended: a frame, or `None` for a failure.
    DeviceRead(Option<Vec<u8>>),
    /// The adapter's write ended.
    AdapterWrite(Result<(), AdapterError>),
    /// The device's write ended; `false` says that it failed.
    DeviceWrite(bool),
}

/// What the pump does next.
#[derive(Debug, PartialEq, Eq)]
pub enum PumpAction {
    /// Write this frame to the device, then go on.
    WriteDevice(Vec<u8>),
    /// Hand this packet to the adapter's write, then go on.
    WriteAdapter(Vec<u8>),
    /// Go on with the loop.
    Continue,
    /// Report this, then go on with the loop.
    Warn(PumpWarning),
    /// End the loop with this error.
    Stop(PumpError),
}

/// A [`PumpEvent`] as contracts see it.
pub enum EventModel {
    AdapterRead(Result<Seq<u8>, AdapterError>),
    DeviceRead(Option<Seq<u8>>),
    AdapterWrite(Result<(), AdapterError>),
    DeviceWrite(bool),
}

/// A [`PumpAction`] as contracts see it.
pub enum ActionModel {
    WriteDevice(Seq<u8>),
    WriteAdapter(Seq<u8>),
    Continue,
    Warn(PumpWarning),
    Stop(PumpError),
}

impl View for PumpEvent {
    type V = EventModel;

    open spec fn view(&self) -> EventModel {
        match *self {
            PumpEvent::AdapterRead(Ok(packet)) => EventModel::AdapterRead(Ok(packet@)),
            PumpEvent::AdapterRead(Err(error)) => EventModel::AdapterRead(Err(error)),
            PumpEvent::DeviceRead(Some(frame)) => EventModel::DeviceRead(Some(frame@)),
            PumpEvent::DeviceRead(None) => EventModel::DeviceRead(None),
            PumpEvent::AdapterWrite(outcome) => EventModel::AdapterWrite(outcome),
            PumpEvent::DeviceWrite(done) => EventModel::DeviceWrite(done),
        }
    }
}

impl View for PumpAction {
    type V = ActionModel;

    open spec fn view(&self) -> ActionModel {
        match *self {
            PumpAction::WriteDevice(frame) => ActionModel::WriteDevice(frame@),
            PumpAction::WriteAdapter(packet) => ActionModel::WriteAdapter(packet@),
            PumpAction::Continue => ActionModel::Continue,
            PumpAction::Warn(warning) => ActionModel::Warn(warning),
            PumpAction::Stop(error) => ActionModel::Stop(error),
        }
    }
}

/// The bytes that the device's driver puts before a packet.
pub open spec fn header(framing: DeviceFraming) -> Seq<u8> {
    match framing {
        DeviceFraming::Raw => Seq::empty(),
        DeviceFraming::AddressFamily => seq![0u8, 0u8, 0u8, 2u8],
    }
}

/// The frame that carries `packet` to the device.
pub open spec fn device_frame(framing: DeviceFraming, packet: Seq<u8>) -> Seq<u8> {
    header(framing) + packet
}

/// The packet that a frame from the device carries, or `None` for a frame
/// too short to hold the header. The header's bytes are not looked at.
pub open spec fn frame_packet(framing: DeviceFraming, frame: Seq<u8>) -> Option<Seq<u8>> {
    if frame.len() < header(framing).len() {
        None
    } else {
        Some(frame.subrange(header(framing).len() as int, frame.len() as int))
    }
}

/// What the pump does after `event`.
pub open spec fn decide(framing: DeviceFraming, event: EventModel) -> ActionModel {
    match event {
        EventModel::AdapterRead(Ok(packet)) => if header(framing).len() + packet.len() > MAX_FRAME_LEN {
            ActionModel::Warn(PumpWarning::OversizedPacket)
        } else {
            ActionModel::WriteDevice(device_frame(framing, packet))
        },
        EventModel::AdapterRead(Err(error)) => ActionModel::Stop(PumpError::AdapterRead(error)),
        EventModel::DeviceRead(Some(frame)) => match frame_packet(framing, frame) {
            Some(packet) => ActionModel::WriteAdapter(packet),
            None => ActionModel::Stop(PumpError::DeviceRead),
        },
        EventModel::DeviceRead(None) => ActionModel::Stop(PumpError::DeviceRead),
        EventModel::AdapterWrite(Ok(())) => ActionModel::Continue,
        EventModel::AdapterWrite(Err(error)) => ActionModel::Stop(PumpError::AdapterWrite(error)),
        EventModel::DeviceWrite(done) => if done {
            ActionModel::Continue
        } else {
            ActionModel::Warn(PumpWarning::DeviceWrite)
        },
    }
}

/// The packet that goes to the device in a frame is the packet that comes
/// out of that frame: the adapter never sees the driver's header.
pub proof fn lemma_frame_carries_its_packet(framing: DeviceFraming, packet: Seq<u8>)
    ensures
        frame_packet(framing, device_frame(framing, packet)) == Some(packet),
{
    let frame = device_frame(framing, packet);
    assert(frame.subrange(header(framing).len() as int, frame.len() as int) =~= packet);
}

/// What ends the pump and what does not: a failure of the adapter, in
/// either direction, and a failure of the device's read end it; a failure
/// of the device's write and a packet that the device cannot take never do.
pub proof fn lemma_what_ends_the_pump(framing: DeviceFraming, event: EventModel)
    ensures
        event is AdapterRead && event->AdapterRead_0 is Err ==> decide(framing, event) is Stop,
        event is AdapterWrite && event->AdapterWrite_0 is Err ==> decide(framing, event) is Stop,
        event is DeviceRead && event->DeviceRead_0 is None ==> decide(framing, event) is Stop,
        event is DeviceWrite ==> !(decide(framing, event) is Stop),
        event is AdapterRead && event->AdapterRead_0 is Ok ==> !(decide(framing, event) is Stop),
{
}

/// The length of [`header`].
pub fn header_len(framing: DeviceFraming) -> (len: usize)
    ensures
        len == header(framing).len(),
{
    match framing {
        DeviceFraming::Raw => 0,
        DeviceFraming::AddressFamily => 4,
    }
}

/// The executable form of [`header`].
pub fn header_bytes(framing: DeviceFraming) -> (bytes: Vec<u8>)
    ensures
        bytes@ == header(framing),
{
    match framing {
        DeviceFraming::Raw => Vec::new(),
        DeviceFraming::AddressFamily => {
            let bytes: Vec<u8> = vec![0u8, 0u8, 0u8, 2u8];
            assert(bytes@ =~= header(framing));
            bytes
        },
    }
}

/// Builds the frame that carries `packet` to the device, or gives `None`
/// where the frame would be longer than the device's buffers.
pub fn frame_for_device(framing: DeviceFraming, packet: Vec<u8>) -> (frame: Option<Vec<u8>>)
    ensures
        match frame {
            Some(frame) => {
                &&& header(framing).len() + packet@.len() <= MAX_FRAME_LEN
                &&& frame@ == device_frame(framing, packet@)
            },
            None => header(framing).len() + packet@.len() > MAX_FRAME_LEN,
        },
{
    let header = header_bytes(framing);
    let start = header.len();
    if packet.len() > MAX_FRAME_LEN - start {
        return None;
    }
    let mut frame: Vec<u8> = vec![0u8; start + packet.len()];
    let (head, body) = frame.as_mut_slice().split_at_mut(start);
    let copied = collect_slice(head, header.into_iter());
    let count = collect_slice(body, packet.into_iter());
    assert(frame@ =~= device_frame(framing, packet@));
    Some(frame)
}

/// Takes the packet out of a frame from the device, or gives `None` for a
/// frame too short to hold the header.
pub fn packet_of_frame(framing: DeviceFraming, frame: &[u8]) -> (packet: Option<Vec<u8>>)
    ensures
        match packet {
            Some(packet) => frame_packet(framing, frame@) == Some(packet@),
            None => frame_packet(framing, frame@) is None,
        },
{
    let start = header_len(framing);
    if frame.len() < start {
        return None;
    }
    Some(vstd::slice::slice_to_vec(vstd::slice::slice_subrange(frame, start, frame.len())))
}

/// Decides what the pump does after `event`: a packet from the adapter goes
/// to the device and a frame from the device to the adapter; a failure of
/// the adapter or of the device's read ends the pump; a failure of the
/// device's write is reported and the loop goes on.
pub fn step(framing: DeviceFraming, event: PumpEvent) -> (action: PumpAction)
    ensures
        action@ == decide(framing, event@),
{
    match event {
        PumpEvent::AdapterRead(Ok(packet)) => match frame_for_device(framing, packet) {
            Some(frame) => PumpAction::WriteDevice(frame),
            None => PumpAction::Warn(PumpWarning::OversizedPacket),
        },
        PumpEvent::AdapterRead(Err(error)) => PumpAction::Stop(PumpError::AdapterRead(error)),
        PumpEvent::DeviceRead(Some(frame)) => match packet_of_frame(framing, frame.as_slice()) {
            Some(packet) => PumpAction::WriteAdapter(packet),
            None => PumpAction::Stop(PumpError::DeviceRead),
        },
        PumpEvent::DeviceRead(None) => PumpAction::Stop(PumpError::DeviceRead),
        PumpEvent::AdapterWrite(Ok(())) => PumpAction::Continue,
        PumpEvent::AdapterWrite(Err(error)) => PumpAction::Stop(PumpError::AdapterWrite(error)),
        PumpEvent::DeviceWrite(done) => if done {
            PumpAction::Continue
        } else {
            PumpAction::Warn(PumpWarning::DeviceWrite)
        },
    }
}

} // verus!
