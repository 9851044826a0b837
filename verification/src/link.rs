use vstd::prelude::*;

use crate::checksum::{crc16_ibm_3740, crc16_of};

verus! {

/// The control byte the driver writes to the device to request its next
/// frame, once per completed poll cycle.
pub const NEXT_FRAME_REQUEST: u8 = 0x01;

/// A payload transfer returns the frame's data bytes plus this fixed
/// overhead: two bytes of bus turnaround padding, then the two big-endian
/// checksum bytes.
pub const FRAME_OVERHEAD: usize = 4;

/// Big-endian interpretation of two bytes, as used by the length header and
/// the checksum field of the device bus protocol.
pub open spec fn be16(hi: u8, lo: u8) -> u16 {
    (hi * 256 + lo) as u16
}

/// Reads a 16-bit big-endian value from two bytes.
pub fn read_be16(hi: u8, lo: u8) -> (r: u16)
    ensures
        r == be16(hi, lo),
{
    (hi as u16) * 256 + (lo as u16)
}

/// The checksum received with a frame: bytes `[2, 4)` of the raw payload
/// transfer, big-endian. Bytes `[0, 2)` are discarded padding.
pub open spec fn frame_checksum(raw: Seq<u8>) -> u16
    recommends
        raw.len() >= 4,
{
    be16(raw[2], raw[3])
}

/// The data bytes of a frame: everything after the 4 overhead bytes of the
/// raw payload transfer.
pub open spec fn frame_data(raw: Seq<u8>) -> Seq<u8>
    recommends
        raw.len() >= 4,
{
    raw.subrange(4, raw.len() as int)
}

/// A frame is accepted exactly when the checksum recomputed over its data
/// bytes equals the received checksum.
pub open spec fn frame_valid(raw: Seq<u8>) -> bool
    recommends
        raw.len() >= 4,
{
    crc16_of(frame_data(raw)) == frame_checksum(raw)
}

/// Where the driver stands in its poll cycle: about to read a length header,
/// or about to read the payload transfer of a frame of `len` data bytes.
#[derive(Clone, Copy, PartialEq, Eq, Structural, Debug)]
pub enum LinkState {
    AwaitLength,
    AwaitPayload(u16),
}

/// What the bus handed back for the transfer the driver asked for: a length
/// header, a raw payload transfer, or an I/O fault.
pub enum LinkEvent {
    Length(u16),
    Payload(Vec<u8>),
    Fault,
}

/// Mathematical model of a `LinkEvent`.
#[verifier::ext_equal]
pub enum LinkEventModel {
    Length(u16),
    Payload(Seq<u8>),
    Fault,
}

impl View for LinkEvent {
    type V = LinkEventModel;

    open spec fn view(&self) -> LinkEventModel {
        match self {
            LinkEvent::Length(len) => LinkEventModel::Length(*len),
            LinkEvent::Payload(raw) => LinkEventModel::Payload(raw@),
            LinkEvent::Fault => LinkEventModel::Fault,
        }
    }
}

/// What one step of the driver does: the state it moves to, the validated
/// data it publishes on the bus (if any), and whether it signals the device
/// for the next frame.
pub struct LinkStep {
    pub next: LinkState,
    pub publish: Option<Vec<u8>>,
    pub signal_next: bool,
}

/// Mathematical model of a `LinkStep`.
#[verifier::ext_equal]
pub struct LinkStepModel {
    pub next: LinkState,
    pub publish: Option<Seq<u8>>,
    pub signal_next: bool,
}

impl View for LinkStep {
    type V = LinkStepModel;

    open spec fn view(&self) -> LinkStepModel {
        LinkStepModel {
            next: self.next,
            publish: match self.publish {
                Option::Some(data) => Option::Some(data@),
                Option::None => Option::None,
            },
            signal_next: self.signal_next,
        }
    }
}

/// Which events can answer which states: a length header answers
/// `AwaitLength`, a raw transfer of exactly `len + 4` bytes answers
/// `AwaitPayload(len)`, and an I/O fault can answer either.
pub open spec fn event_answers(state: LinkState, ev: LinkEventModel) -> bool {
    match (state, ev) {
        (LinkState::AwaitLength, LinkEventModel::Length(_)) => true,
        (LinkState::AwaitPayload(len), LinkEventModel::Payload(raw)) => raw.len() == len + 4,
        (_, LinkEventModel::Fault) => true,
        _ => false,
    }
}

/// The full behaviour of one driver step.
///
/// A zero length header means the device is idle: the driver publishes
/// nothing and signals for the next frame. A positive header moves the driver
/// to the payload read. A payload transfer is validated against its checksum:
/// the data is forwarded if it matches and silently dropped if it does not,
/// and the device is signalled either way. An I/O fault abandons the current
/// cycle without a signal; the driver returns to reading length headers.
pub open spec fn step_model(state: LinkState, ev: LinkEventModel) -> LinkStepModel
    recommends
        event_answers(state, ev),
{
    match (state, ev) {
        (LinkState::AwaitLength, LinkEventModel::Length(len)) => {
            if len == 0 {
                LinkStepModel {
                    next: LinkState::AwaitLength,
                    publish: Option::None,
                    signal_next: true,
                }
            } else {
                LinkStepModel {
                    next: LinkState::AwaitPayload(len),
                    publish: Option::None,
                    signal_next: false,
                }
            }
        },
        (LinkState::AwaitPayload(_), LinkEventModel::Payload(raw)) => {
            if frame_valid(raw) {
                LinkStepModel {
                    next: LinkState::AwaitLength,
                    publish: Option::Some(frame_data(raw)),
                    signal_next: true,
                }
            } else {
                LinkStepModel {
                    next: LinkState::AwaitLength,
                    publish: Option::None,
                    signal_next: true,
                }
            }
        },
        (_, LinkEventModel::Fault) => LinkStepModel {
            next: LinkState::AwaitLength,
            publish: Option::None,
            signal_next: false,
        },
        _ => arbitrary(),
    }
}

/// Runs one step of the driver's poll cycle on the event the bus returned.
pub fn poll_step(state: LinkState, ev: LinkEvent) -> (r: LinkStep)
    requires
        event_answers(state, ev@),
    ensures
        r@ == step_model(state, ev@),
{
    match (state, ev) {
        (LinkState::AwaitLength, LinkEvent::Length(len)) => {
            if len == 0 {
                LinkStep { next: LinkState::AwaitLength, publish: Option::None, signal_next: true }
            } else {
                LinkStep {
                    next: LinkState::AwaitPayload(len),
                    publish: Option::None,
                    signal_next: false,
                }
            }
        },
        (LinkState::AwaitPayload(_), LinkEvent::Payload(raw)) => {
            let received = read_be16(raw[2], raw[3]);
            let data = vstd::slice::slice_to_vec(
                vstd::slice::slice_subrange(raw.as_slice(), 4, raw.len()),
            );
            let computed = crc16_ibm_3740(data.as_slice());
            if computed == received {
                LinkStep {
                    next: LinkState::AwaitLength,
                    publish: Option::Some(data),
                    signal_next: true,
                }
            } else {
                LinkStep {
                    next: LinkState::AwaitLength,
                    publish: Option::None,
                    signal_next: true,
                }
            }
        },
        (_, LinkEvent::Fault) => LinkStep {
            next: LinkState::AwaitLength,
            publish: Option::None,
            signal_next: false,
        },
        _ => unreached(),
    }
}

/// How many bytes the payload transfer for a frame of `len` data bytes
/// moves: the data plus the fixed 4-byte overhead.
pub fn payload_transfer_size(len: u16) -> (r: usize)
    ensures
        r == len + FRAME_OVERHEAD,
{
    len as usize + FRAME_OVERHEAD
}

/// A poll cycle that reads a zero length header is an idle cycle: the device
/// is signalled for its next frame exactly once, and nothing is forwarded or
/// validated.
pub proof fn lemma_idle_cycle()
    ensures
        step_model(LinkState::AwaitLength, LinkEventModel::Length(0)) == (LinkStepModel {
            next: LinkState::AwaitLength,
            publish: Option::None,
            signal_next: true,
        }),
{
}

/// A completed two-step poll cycle for a frame of `len` data bytes signals
/// the device exactly once, and forwards the frame's data unchanged exactly
/// when the received checksum equals the one recomputed over the data.
pub proof fn lemma_frame_cycle(len: u16, raw: Seq<u8>)
    requires
        len > 0,
        raw.len() == len + 4,
    ensures
        ({
            let first = step_model(LinkState::AwaitLength, LinkEventModel::Length(len));
            let second = step_model(first.next, LinkEventModel::Payload(raw));
            &&& first.publish is None
            &&& !first.signal_next
            &&& second.signal_next
            &&& second.next == LinkState::AwaitLength
            &&& frame_valid(raw) ==> second.publish == Option::Some(frame_data(raw))
            &&& !frame_valid(raw) ==> second.publish is None
        }),
{
}

/// Corrupting the checksum field of a frame that would have been accepted
/// makes the frame invalid, so nothing is forwarded for it.
pub proof fn lemma_corrupted_checksum(raw: Seq<u8>, bad: Seq<u8>)
    requires
        raw.len() >= 4,
        bad.len() == raw.len(),
        frame_data(bad) == frame_data(raw),
        frame_checksum(bad) != frame_checksum(raw),
        frame_valid(raw),
    ensures
        !frame_valid(bad),
        step_model(
            LinkState::AwaitPayload((raw.len() - 4) as u16),
            LinkEventModel::Payload(bad),
        ).publish is None,
{
}

} // verus!
