use crate::buf::{bytes_contents, bytes_mut_contents};
use crate::ts::packet::{TSPacket, TSPacketView};
use crate::util::{length12, spec_length12};
use bytes::{Bytes, BytesMut};
use vstd::prelude::*;

verus! {

/// The capacity with which a buffer starts.
pub const INITIAL_BUFFER: usize = 4096;

/// Why a packet could not be taken into a section.
#[derive(Debug, Clone, Copy, PartialEq, Eq, Structural)]
pub enum BufferError {
    /// The packet has no payload.
    MalformedNoData,
    /// The pointer field of the packet points beyond its payload.
    MalformedNoSectionHeader,
    /// The continuity counter of the packet is not the one that was due.
    Discontinued,
}

/// Where the reassembly of the sections of one PID stands.
#[derive(Debug, Clone, Copy, PartialEq, Eq, Structural)]
pub enum State {
    /// No section has started.
    Initial,
    /// A section has started; more bytes may be needed.
    Partial,
    /// The buffer holds a whole section.
    Full,
}

/// The reassembler of the sections that the packets of one PID carry.
pub struct Buffer {
    state: State,
    counter: u8,
    buf: BytesMut,
}

/// What a [`Buffer`] holds: its state, the continuity counter of the packet
/// that it took last, and the bytes not yet given out.
pub struct BufferView {
    pub state: State,
    pub counter: u8,
    pub buf: Seq<u8>,
}

/// The length that the three-byte header of a section announces for what
/// follows it: twelve bits.
pub open spec fn spec_section_length(section: Seq<u8>) -> int {
    spec_length12(section[1], section[2])
}

/// Tells whether `buf` starts with a whole section.
pub open spec fn spec_holds_section(buf: Seq<u8>) -> bool {
    buf.len() >= 3 && buf.len() >= 3 + spec_section_length(buf)
}

/// The counter that is due after `counter`.
pub open spec fn spec_next_counter(counter: u8) -> int {
    (counter + 1) % 16
}

/// The state in which a buffer that is not `Initial` stands when it holds
/// `buf`: `Full` where a whole section is there, else `Partial`.
pub open spec fn spec_settled(state: State, buf: Seq<u8>) -> State {
    if state == State::Initial {
        State::Initial
    } else if spec_holds_section(buf) {
        State::Full
    } else {
        State::Partial
    }
}

/// A buffer after it has taken in a packet, and the error if it refused it.
///
/// A packet that starts a payload unit drops what is buffered: the section
/// starts after the pointer field, at the byte that it points to. Any other
/// packet must carry the counter that is due, and its payload is appended; a
/// packet that repeats the last counter is passed over; any other counter
/// makes the state `Initial` and drops what is buffered.
pub open spec fn spec_feed(b: BufferView, p: TSPacketView) -> (BufferView, Result<(), BufferError>) {
    match p.data {
        None => (b, Err(BufferError::MalformedNoData)),
        Some(data) => if p.payload_unit_start_indicator {
            if data.len() < 1 || data.len() < data[0] + 1 {
                (b, Err(BufferError::MalformedNoSectionHeader))
            } else {
                let buf = data.skip(data[0] + 1);
                (
                    BufferView {
                        state: spec_settled(State::Partial, buf),
                        counter: p.continuity_counter,
                        buf,
                    },
                    Ok(()),
                )
            }
        } else if b.counter == p.continuity_counter {
            (b, Ok(()))
        } else if spec_next_counter(b.counter) == p.continuity_counter {
            (
                BufferView {
                    state: spec_settled(b.state, b.buf + data),
                    counter: p.continuity_counter,
                    buf: b.buf + data,
                },
                Ok(()),
            )
        } else {
            (
                BufferView { state: State::Initial, counter: b.counter, buf: Seq::empty() },
                Err(BufferError::Discontinued),
            )
        },
    }
}

/// A buffer after a packet of its PID has arrived. Packets marked as in
/// error are passed over, and so are all packets before the first that
/// starts a payload unit.
pub open spec fn spec_push(b: BufferView, p: TSPacketView) -> (BufferView, Result<(), BufferError>) {
    if p.transport_error_indicator {
        (b, Ok(()))
    } else if b.state == State::Initial && !p.payload_unit_start_indicator {
        (b, Ok(()))
    } else {
        spec_feed(b, p)
    }
}

/// A buffer after it has been asked for a section, and the section if a
/// whole one was there: the first three bytes and as many more as they
/// announce. What follows the section stays buffered.
pub open spec fn spec_next_section(b: BufferView) -> (BufferView, Option<Seq<u8>>) {
    if b.state != State::Initial && spec_holds_section(b.buf) {
        let n = 3 + spec_section_length(b.buf);
        (
            BufferView {
                state: spec_settled(State::Partial, b.buf.skip(n)),
                counter: b.counter,
                buf: b.buf.skip(n),
            },
            Some(b.buf.take(n)),
        )
    } else {
        (b, None)
    }
}

impl BufferView {
    /// A buffer is `Full` exactly when it is not `Initial` and holds a whole
    /// section. A new [`Buffer`] is so, and its methods keep it so.
    pub open spec fn wf(self) -> bool {
        self.state == spec_settled(self.state, self.buf)
    }
}

impl View for Buffer {
    type V = BufferView;

    closed spec fn view(&self) -> BufferView {
        BufferView { state: self.state, counter: self.counter, buf: bytes_mut_contents(self.buf) }
    }
}

impl Buffer {
    /// A buffer in which no section has started.
    pub fn new() -> (b: Buffer)
        ensures
            b@ == (BufferView { state: State::Initial, counter: 0, buf: Seq::empty() }),
    {
        Buffer { state: State::Initial, counter: 0, buf: BytesMut::with_capacity(INITIAL_BUFFER) }
    }

    /// Makes the state `Full` or `Partial` by what is buffered.
    fn settle(state: State, buf: &BytesMut) -> (r: State)
        ensures
            r == spec_settled(state, bytes_mut_contents(*buf)),
    {
        match state {
            State::Initial => State::Initial,
            _ => {
                if buf.len() < 3 {
                    // not enough for the header of a section
                    return State::Partial;
                }
                let section_length = length12(buf[1], buf[2]);
                if buf.len() < section_length + 3 {
                    State::Partial
                } else {
                    State::Full
                }
            },
        }
    }

    /// Takes the payload of `packet` into the buffer, as [`spec_feed`] says.
    pub fn feed_packet(&mut self, packet: TSPacket) -> (r: Result<(), BufferError>)
        ensures
            old(self)@.wf() ==> final(self)@.wf(),
            final(self)@ == spec_feed(old(self)@, packet@).0,
            r == spec_feed(old(self)@, packet@).1,
    {
        let bytes: &[u8] = match packet.data {
            Some(ref data) => data,
            None => return Err(BufferError::MalformedNoData),
        };
        if packet.payload_unit_start_indicator {
            if bytes.len() < 1 {
                return Err(BufferError::MalformedNoSectionHeader);
            }
            let pointer_field = bytes[0] as usize;
            if bytes.len() < pointer_field + 1 {
                return Err(BufferError::MalformedNoSectionHeader);
            }
            self.buf.clear();
            self.buf.extend_from_slice(&bytes[pointer_field + 1..bytes.len()]);
            proof {
                assert(bytes_mut_contents(self.buf) =~= bytes@.skip(pointer_field + 1));
            }
            self.counter = packet.continuity_counter;
            self.state = Buffer::settle(State::Partial, &self.buf);
        } else {
            if self.counter == packet.continuity_counter {
                // a packet sent twice
                return Ok(());
            } else if (self.counter as u16 + 1) % 16 != packet.continuity_counter as u16 {
                self.state = State::Initial;
                self.buf.clear();
                return Err(BufferError::Discontinued);
            }
            self.counter = packet.continuity_counter;
            self.buf.extend_from_slice(bytes);
            self.state = Buffer::settle(self.state, &self.buf);
        }
        Ok(())
    }

    /// Takes in the next packet of the PID, as [`spec_push`] says.
    pub fn push(&mut self, packet: TSPacket) -> (r: Result<(), BufferError>)
        ensures
            old(self)@.wf() ==> final(self)@.wf(),
            final(self)@ == spec_push(old(self)@, packet@).0,
            r == spec_push(old(self)@, packet@).1,
    {
        if packet.transport_error_indicator {
            return Ok(());
        }
        match self.state {
            State::Initial => {
                if packet.payload_unit_start_indicator {
                    self.feed_packet(packet)
                } else {
                    Ok(())
                }
            },
            _ => self.feed_packet(packet),
        }
    }

    /// Gives out the section at the front of the buffer if a whole one is
    /// there, as [`spec_next_section`] says. A section so given has the
    /// length that its header announces.
    pub fn next_section(&mut self) -> (r: Option<Bytes>)
        ensures
            old(self)@.wf() ==> final(self)@.wf(),
            final(self)@ == spec_next_section(old(self)@).0,
            match spec_next_section(old(self)@).1 {
                Some(section) => r matches Some(bytes) && bytes_contents(bytes) == section
                    && spec_section_length(section) == section.len() - 3,
                None => r is None,
            },
    {
        match Buffer::settle(self.state, &self.buf) {
            State::Full => {
                let section_length = length12(self.buf[1], self.buf[2]);
                let section = self.buf.split_to(section_length + 3).freeze();
                self.state = Buffer::settle(State::Partial, &self.buf);
                Some(section)
            },
            _ => None,
        }
    }
}


/// The sections that can be taken out of a buffer one after the other, run
/// together, and the buffer that is left.
pub open spec fn spec_drain(b: BufferView) -> (Seq<u8>, BufferView)
    decreases b.buf.len(),
{
    if b.state != State::Initial && spec_holds_section(b.buf) {
        let next = spec_next_section(b);
        let rest = spec_drain(next.0);
        (next.1->0 + rest.0, rest.1)
    } else {
        (Seq::empty(), b)
    }
}

/// Taking the sections out of a buffer neither loses nor reorders bytes:
/// the sections, run together, and what is left in the buffer are what the
/// buffer held. Nothing but the state and the bytes of the buffer changes,
/// and no whole section is left.
pub proof fn lemma_drain(b: BufferView)
    ensures
        spec_drain(b).0 + spec_drain(b).1.buf == b.buf,
        spec_drain(b).1.counter == b.counter,
        (spec_drain(b).1.state == State::Initial) == (b.state == State::Initial),
        b.wf() ==> spec_drain(b).1.wf() && spec_drain(b).1.state != State::Full,
    decreases b.buf.len(),
{
    if b.state != State::Initial && spec_holds_section(b.buf) {
        let n = 3 + spec_section_length(b.buf);
        let next = spec_next_section(b);
        lemma_drain(next.0);
        let rest = spec_drain(next.0);
        assert(b.buf.take(n) + (rest.0 + rest.1.buf) =~= b.buf);
        assert((b.buf.take(n) + rest.0) + rest.1.buf =~= b.buf.take(n) + (rest.0 + rest.1.buf));
    } else {
        assert(Seq::<u8>::empty() + b.buf =~= b.buf);
    }
}

/// The payload unit of one PID as its packets build it, without any cutting
/// into sections: whether a unit has started, the continuity counter of the
/// packet taken last, and the bytes of the unit so far.
pub struct Unit {
    pub started: bool,
    pub counter: u8,
    pub bytes: Seq<u8>,
}

/// Tells whether the packet starts a payload unit: it says so, and its
/// pointer field points into its payload.
pub open spec fn spec_starts_unit(p: TSPacketView) -> bool {
    &&& !p.transport_error_indicator
    &&& p.payload_unit_start_indicator
    &&& p.data is Some
    &&& p.data->0.len() >= 1
    &&& p.data->0.len() >= p.data->0[0] + 1
}

/// The payload unit after one more packet of the PID. A packet that starts
/// a unit starts it with the bytes of its payload from the one that the
/// pointer field points to. A packet with the counter that is due adds its
/// payload. A gap in the counters ends the unit and drops its bytes. Any
/// other packet changes nothing.
pub open spec fn spec_unit_push(u: Unit, p: TSPacketView) -> Unit {
    if spec_starts_unit(p) {
        Unit {
            started: true,
            counter: p.continuity_counter,
            bytes: p.data->0.skip(p.data->0[0] + 1),
        }
    } else if p.transport_error_indicator || !u.started || p.payload_unit_start_indicator
        || p.data is None || u.counter == p.continuity_counter {
        u
    } else if spec_next_counter(u.counter) == p.continuity_counter {
        Unit { started: true, counter: p.continuity_counter, bytes: u.bytes + p.data->0 }
    } else {
        Unit { started: false, counter: u.counter, bytes: Seq::empty() }
    }
}

/// The reassembly of one PID with the sections taken out after each packet:
/// the buffer, and the bytes of the sections given out since the payload
/// unit started, run together.
pub struct Cut {
    pub buffer: BufferView,
    pub emitted: Seq<u8>,
}

/// The reassembly after one more packet of the PID, with all the sections
/// that are whole by then taken out. What was given out counts from the
/// start of the payload unit, and no longer once a gap has ended the unit.
pub open spec fn spec_cut_push(c: Cut, p: TSPacketView) -> Cut {
    let pushed = spec_push(c.buffer, p);
    let drained = spec_drain(pushed.0);
    Cut {
        buffer: drained.1,
        emitted: if spec_starts_unit(p) {
            drained.0
        } else if pushed.1 == Err::<(), BufferError>(BufferError::Discontinued) {
            Seq::empty()
        } else {
            c.emitted + drained.0
        },
    }
}

/// Tells whether a reassembly with cutting stands where the payload unit
/// stands: the sections given out, run together, and the bytes still
/// buffered are the bytes of the unit.
pub open spec fn spec_cut_agrees(c: Cut, u: Unit) -> bool {
    &&& c.buffer.wf()
    &&& c.buffer.state != State::Full
    &&& (c.buffer.state != State::Initial) == u.started
    &&& c.buffer.counter == u.counter
    &&& c.emitted + c.buffer.buf == u.bytes
}

/// The bytes of the sections given out are the bytes of the payloads: a
/// reassembly that stands where the payload unit stands still does so after
/// one more packet, whatever the packet.
pub proof fn lemma_sections_are_payloads(c: Cut, u: Unit, p: TSPacketView)
    requires
        spec_cut_agrees(c, u),
    ensures
        spec_cut_agrees(spec_cut_push(c, p), spec_unit_push(u, p)),
{
    let pushed = spec_push(c.buffer, p).0;
    lemma_drain(pushed);
    let drained = spec_drain(pushed);
    if spec_starts_unit(p) {
    } else if p.transport_error_indicator || !u.started || p.payload_unit_start_indicator
        || p.data is None || u.counter == p.continuity_counter {
        assert(pushed == c.buffer);
        assert(drained.0 =~= Seq::<u8>::empty());
        assert(c.emitted + drained.0 =~= c.emitted);
    } else if spec_next_counter(u.counter) == p.continuity_counter {
        assert((c.emitted + drained.0) + drained.1.buf =~= c.emitted + (drained.0 + drained.1.buf));
        assert(c.emitted + (c.buffer.buf + p.data->0) =~= (c.emitted + c.buffer.buf) + p.data->0);
    } else {
        assert(drained.0 =~= Seq::<u8>::empty());
        assert(Seq::<u8>::empty() + drained.1.buf =~= Seq::<u8>::empty());
    }
}

/// The payload unit after the first `n` of the packets `packets`.
pub open spec fn spec_unit_run(packets: Seq<TSPacketView>, n: int) -> Unit
    decreases n,
{
    if n <= 0 {
        Unit { started: false, counter: 0, bytes: Seq::empty() }
    } else {
        spec_unit_push(spec_unit_run(packets, n - 1), packets[n - 1])
    }
}

/// The reassembly with cutting after the first `n` of the packets `packets`.
pub open spec fn spec_cut_run(packets: Seq<TSPacketView>, n: int) -> Cut
    decreases n,
{
    if n <= 0 {
        Cut {
            buffer: BufferView { state: State::Initial, counter: 0, buf: Seq::empty() },
            emitted: Seq::empty(),
        }
    } else {
        spec_cut_push(spec_cut_run(packets, n - 1), packets[n - 1])
    }
}

/// For every run of packets of one PID, the sections given out since the
/// last start of a payload unit, run together with what is still buffered,
/// are the payloads of the unit run together: from the byte that the
/// pointer field of its first packet points to, without the packets that a
/// gap in the counters cuts off.
pub proof fn lemma_run_sections_are_payloads(packets: Seq<TSPacketView>, n: int)
    ensures
        spec_cut_agrees(spec_cut_run(packets, n), spec_unit_run(packets, n)),
    decreases n,
{
    if n > 0 {
        lemma_run_sections_are_payloads(packets, n - 1);
        lemma_sections_are_payloads(
            spec_cut_run(packets, n - 1),
            spec_unit_run(packets, n - 1),
            packets[n - 1],
        );
    } else {
        assert(Seq::<u8>::empty() + Seq::<u8>::empty() =~= Seq::<u8>::empty());
    }
}

} // verus!
