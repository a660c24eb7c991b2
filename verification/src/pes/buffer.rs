use crate::buf::{bytes_contents, bytes_mut_contents};
use crate::ts::packet::{TSPacket, TSPacketView};
use crate::util::{be16, spec_be16};
use bytes::{Bytes, BytesMut};
use vstd::prelude::*;

verus! {

/// The capacity with which a buffer starts.
pub const INITIAL_BUFFER: usize = 4096;

/// Why no PES packet could be given out.
#[derive(Debug, Clone, Copy, PartialEq, Eq, Structural)]
pub enum BufferError {
    /// The transport packet has no payload.
    NoData,
    /// The buffer holds fewer bytes than the PES packet needs.
    NotEnoughData,
    /// The continuity counter of the transport packet is not the one that was due.
    Discontinued,
}

/// Where the reassembly of the PES packets of one PID stands.
#[derive(Debug, Clone, Copy, PartialEq, Eq, Structural)]
pub enum State {
    /// No PES packet has started.
    Initial,
    /// A PES packet has started.
    Buffering,
    /// The stream has ended.
    Closed,
}

/// The reassembler of the PES packets that the transport packets of one PID
/// carry.
#[derive(Debug)]
pub struct Buffer {
    state: State,
    counter: u8,
    buf: BytesMut,
}

/// What a [`Buffer`] holds: its state, the continuity counter of the packet
/// that it took last, and the bytes of the PES packet under way.
pub struct BufferView {
    pub state: State,
    pub counter: u8,
    pub buf: Seq<u8>,
}

/// What a step of the reassembly hands to the consumer.
pub type Item = Option<Result<Bytes, BufferError>>;

/// The PES packet at the front of `buf`, and what stays buffered. The length
/// field in the bytes 4 and 5 counts what follows it; zero stands for all
/// that is buffered.
pub open spec fn spec_get_bytes(buf: Seq<u8>) -> (Seq<u8>, Result<Seq<u8>, BufferError>) {
    if buf.len() < 6 {
        (buf, Err(BufferError::NotEnoughData))
    } else if spec_be16(buf[4], buf[5]) == 0 {
        (Seq::empty(), Ok(buf))
    } else if buf.len() < spec_be16(buf[4], buf[5]) + 6 {
        (buf, Err(BufferError::NotEnoughData))
    } else {
        (buf.skip(spec_be16(buf[4], buf[5]) + 6), Ok(buf.take(spec_be16(buf[4], buf[5]) + 6)))
    }
}

/// Tells whether `buf` starts with a whole PES packet that announces its
/// length.
pub open spec fn spec_holds_pes(buf: Seq<u8>) -> bool {
    buf.len() >= 6 && spec_be16(buf[4], buf[5]) > 0 && buf.len() >= spec_be16(buf[4], buf[5]) + 6
}

/// A buffer after it has been asked for a PES packet, and the packet if one
/// that announces its length is whole: six bytes and as many more as the
/// length field says. What follows it until the next start is dropped.
pub open spec fn spec_next_pes(b: BufferView) -> (BufferView, Option<Seq<u8>>) {
    if b.state == State::Buffering && spec_holds_pes(b.buf) {
        (
            BufferView { state: State::Initial, counter: b.counter, buf: Seq::empty() },
            Some(b.buf.take(spec_be16(b.buf[4], b.buf[5]) + 6)),
        )
    } else {
        (b, None)
    }
}

/// A buffer after a transport packet of its PID has arrived, and what the
/// consumer is handed.
///
/// A packet that starts a payload unit closes the PES packet under way,
/// which is handed out if it is whole and dropped if not, and starts the
/// next. Any other packet must carry the counter that is due, and its payload
/// is appended; one that repeats the last counter is passed over; any other
/// counter drops what is buffered and is an error. Packets marked as in
/// error, and packets before the first start, are passed over.
pub open spec fn spec_push(b: BufferView, p: TSPacketView) -> (
    BufferView,
    Option<Result<Seq<u8>, BufferError>>,
) {
    if b.state == State::Closed || p.transport_error_indicator {
        (b, None)
    } else {
        match p.data {
            None => (b, Some(Err(BufferError::NoData))),
            Some(data) => if p.payload_unit_start_indicator {
                (
                    BufferView { state: State::Buffering, counter: p.continuity_counter, buf: data },
                    if b.state == State::Buffering && spec_get_bytes(b.buf).1 is Ok {
                        Some(spec_get_bytes(b.buf).1)
                    } else {
                        None
                    },
                )
            } else if b.state == State::Initial || b.counter == p.continuity_counter {
                (b, None)
            } else if (b.counter + 1) % 16 == p.continuity_counter {
                (
                    BufferView { state: b.state, counter: p.continuity_counter, buf: b.buf + data },
                    None,
                )
            } else {
                (
                    BufferView { state: State::Initial, counter: b.counter, buf: Seq::empty() },
                    Some(Err(BufferError::Discontinued)),
                )
            },
        }
    }
}

/// A buffer after the stream has ended, and what the consumer is handed: the
/// PES packet under way, or the error that it is not whole.
pub open spec fn spec_finish(b: BufferView) -> (BufferView, Option<Result<Seq<u8>, BufferError>>) {
    if b.state == State::Buffering {
        (
            BufferView { state: State::Closed, counter: b.counter, buf: spec_get_bytes(b.buf).0 },
            Some(spec_get_bytes(b.buf).1),
        )
    } else {
        (BufferView { state: State::Closed, ..b }, None)
    }
}

/// Tells whether the item `r` holds what `v` says.
pub open spec fn item_is(r: Item, v: Option<Result<Seq<u8>, BufferError>>) -> bool {
    match v {
        Some(Ok(bytes)) => r matches Some(Ok(b)) && bytes_contents(b) == bytes,
        Some(Err(e)) => r matches Some(Err(x)) && x == e,
        None => r is None,
    }
}

impl View for Buffer {
    type V = BufferView;

    closed spec fn view(&self) -> BufferView {
        BufferView { state: self.state, counter: self.counter, buf: bytes_mut_contents(self.buf) }
    }
}

impl Buffer {
    /// A buffer in which no PES packet has started.
    pub fn new() -> (b: Buffer)
        ensures
            b@ == (BufferView { state: State::Initial, counter: 0, buf: Seq::empty() }),
    {
        Buffer { state: State::Initial, counter: 0, buf: BytesMut::with_capacity(INITIAL_BUFFER) }
    }

    /// Takes the PES packet off the front of the buffer, as
    /// [`spec_get_bytes`] says.
    pub fn get_bytes(&mut self) -> (r: Result<Bytes, BufferError>)
        ensures
            final(self)@ == (BufferView { buf: spec_get_bytes(old(self)@.buf).0, ..old(self)@ }),
            match spec_get_bytes(old(self)@.buf).1 {
                Ok(bytes) => r matches Ok(b) && bytes_contents(b) == bytes,
                Err(e) => r matches Err(x) && x == e,
            },
    {
        if self.buf.len() < 6 {
            return Err(BufferError::NotEnoughData);
        }
        let pes_packet_length = be16(self.buf[4], self.buf[5]) as usize;
        if pes_packet_length == 0 {
            return Ok(self.buf.split().freeze());
        }
        if self.buf.len() < pes_packet_length + 6 {
            return Err(BufferError::NotEnoughData);
        }
        Ok(self.buf.split_to(pes_packet_length + 6).freeze())
    }

    /// Gives out the PES packet under way once it is whole, as
    /// [`spec_next_pes`] says. A packet so given has the length that its
    /// header announces.
    pub fn next_pes(&mut self) -> (r: Option<Bytes>)
        ensures
            final(self)@ == spec_next_pes(old(self)@).0,
            match spec_next_pes(old(self)@).1 {
                Some(bytes) => r matches Some(b) && bytes_contents(b) == bytes && bytes.len()
                    == spec_be16(bytes[4], bytes[5]) + 6,
                None => r is None,
            },
    {
        if let State::Buffering = self.state {
            if self.buf.len() < 6 {
                return None;
            }
            let pes_packet_length = be16(self.buf[4], self.buf[5]) as usize;
            if pes_packet_length == 0 || self.buf.len() < pes_packet_length + 6 {
                return None;
            }
            let bytes = self.buf.split_to(pes_packet_length + 6).freeze();
            self.buf.clear();
            self.state = State::Initial;
            return Some(bytes);
        }
        None
    }

    /// Takes in the next transport packet of the PID, as [`spec_push`] says.
    pub fn push(&mut self, packet: TSPacket) -> (r: Item)
        ensures
            final(self)@ == spec_push(old(self)@, packet@).0,
            item_is(r, spec_push(old(self)@, packet@).1),
    {
        if let State::Closed = self.state {
            return None;
        }
        if packet.transport_error_indicator {
            return None;
        }
        let data: &[u8] = match packet.data {
            Some(ref data) => data,
            None => return Some(Err(BufferError::NoData)),
        };
        if packet.payload_unit_start_indicator {
            let mut bytes = None;
            if let State::Buffering = self.state {
                bytes = Some(self.get_bytes());
            }
            self.state = State::Buffering;
            self.counter = packet.continuity_counter;
            self.buf.clear();
            self.buf.extend_from_slice(data);
            proof {
                assert(self@.buf =~= data@);
            }
            match bytes {
                Some(Ok(bytes)) => Some(Ok(bytes)),
                // a PES packet that is not whole is dropped
                _ => None,
            }
        } else {
            if let State::Initial = self.state {
                // the rest of a PES packet whose start was not seen
                return None;
            }
            if self.counter == packet.continuity_counter {
                // a packet sent twice
                return None;
            } else if (self.counter as u16 + 1) % 16 == packet.continuity_counter as u16 {
                self.counter = packet.continuity_counter;
            } else {
                self.state = State::Initial;
                self.buf.clear();
                return Some(Err(BufferError::Discontinued));
            }
            self.buf.extend_from_slice(data);
            None
        }
    }

    /// Closes the buffer at the end of the stream, as [`spec_finish`] says.
    pub fn finish(&mut self) -> (r: Item)
        ensures
            final(self)@ == spec_finish(old(self)@).0,
            item_is(r, spec_finish(old(self)@).1),
    {
        let old_state = self.state;
        self.state = State::Closed;
        if let State::Buffering = old_state {
            return Some(self.get_bytes());
        }
        None
    }
}

} // verus!
