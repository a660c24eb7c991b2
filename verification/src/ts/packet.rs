use crate::buf::{bytes_contents, bytes_mut_contents};
use crate::error::ParseError;
use crate::util::{bits, flag, pid, spec_bits, spec_pid};
use bytes::{Bytes, BytesMut};
use vstd::prelude::*;

verus! {

/// The length of a transport stream packet.
pub const TS_PACKET_LENGTH: usize = 188;

/// The first byte of every transport stream packet.
pub const SYNC_BYTE: u8 = 0x47;

/// The adaptation field of a packet, its length byte included.
#[derive(Debug, Clone)]
pub struct AdaptationField {
    pub raw: Bytes,
}

/// One transport stream packet: the fields of its header, its adaptation
/// field and its payload where it has them, and its 188 bytes.
#[derive(Debug, Clone)]
pub struct TSPacket {
    pub transport_error_indicator: bool,
    pub payload_unit_start_indicator: bool,
    pub transport_priority: bool,
    pub pid: u16,
    pub transport_scrambling_control: u8,
    pub adaptation_field_control: u8,
    pub continuity_counter: u8,
    pub adaptation_field: Option<AdaptationField>,
    pub data: Option<Bytes>,
    pub raw: Bytes,
}

/// What a [`TSPacket`] holds.
pub struct TSPacketView {
    pub transport_error_indicator: bool,
    pub payload_unit_start_indicator: bool,
    pub transport_priority: bool,
    pub pid: u16,
    pub transport_scrambling_control: u8,
    pub adaptation_field_control: u8,
    pub continuity_counter: u8,
    pub adaptation_field: Option<Seq<u8>>,
    pub data: Option<Seq<u8>>,
    pub raw: Seq<u8>,
}

impl View for TSPacket {
    type V = TSPacketView;

    open spec fn view(&self) -> TSPacketView {
        TSPacketView {
            transport_error_indicator: self.transport_error_indicator,
            payload_unit_start_indicator: self.payload_unit_start_indicator,
            transport_priority: self.transport_priority,
            pid: self.pid,
            transport_scrambling_control: self.transport_scrambling_control,
            adaptation_field_control: self.adaptation_field_control,
            continuity_counter: self.continuity_counter,
            adaptation_field: match self.adaptation_field {
                Some(af) => Some(bytes_contents(af.raw)),
                None => None,
            },
            data: match self.data {
                Some(data) => Some(bytes_contents(data)),
                None => None,
            },
            raw: bytes_contents(self.raw),
        }
    }
}

/// The length of the adaptation field of the packet `raw`, its length byte
/// included; zero where the header announces none or the packet is in error.
pub open spec fn spec_adaptation_len(raw: Seq<u8>) -> int {
    if spec_bits(raw[1], 7, 1) == 0 && spec_bits(raw[3], 4, 2) >= 2 {
        raw[4] + 1
    } else {
        0
    }
}

/// The packet that the 188 bytes `raw` hold. A packet marked as in error has
/// neither adaptation field nor payload.
pub open spec fn spec_packet(raw: Seq<u8>) -> Result<TSPacketView, ParseError>
    recommends
        raw.len() == TS_PACKET_LENGTH,
{
    let error = spec_bits(raw[1], 7, 1) == 1;
    let control = spec_bits(raw[3], 4, 2) as u8;
    let n = spec_adaptation_len(raw);
    if 4 + n > raw.len() {
        Err(ParseError::TooShort)
    } else {
        Ok(
            TSPacketView {
                transport_error_indicator: error,
                payload_unit_start_indicator: spec_bits(raw[1], 6, 1) == 1,
                transport_priority: spec_bits(raw[1], 5, 1) == 1,
                pid: spec_pid(raw[1], raw[2]) as u16,
                transport_scrambling_control: spec_bits(raw[3], 6, 2) as u8,
                adaptation_field_control: control,
                continuity_counter: spec_bits(raw[3], 0, 4) as u8,
                adaptation_field: if !error && (control == 2 || control == 3) {
                    Some(raw.subrange(4, 4 + n))
                } else {
                    None
                },
                data: if !error && (control == 1 || control == 3) {
                    Some(raw.skip(4 + n))
                } else {
                    None
                },
                raw,
            },
        )
    }
}

/// What the front of the byte stream `src` gives, and what is left of `src`:
/// nothing while fewer than 188 bytes are there; an error, and nothing taken,
/// where the first byte is not the sync byte; else the first 188 bytes as a
/// packet, or the error that they give.
pub open spec fn spec_frame(src: Seq<u8>) -> (Result<Option<TSPacketView>, ParseError>, Seq<u8>) {
    if src.len() < TS_PACKET_LENGTH {
        (Ok(None), src)
    } else if src[0] != SYNC_BYTE {
        (Err(ParseError::MissingSyncByte), src)
    } else {
        match spec_packet(src.take(TS_PACKET_LENGTH as int)) {
            Ok(v) => (Ok(Some(v)), src.skip(TS_PACKET_LENGTH as int)),
            Err(e) => (Err(e), src.skip(TS_PACKET_LENGTH as int)),
        }
    }
}

impl TSPacket {
    /// The 188 bytes of the packet.
    pub fn into_raw(self) -> (raw: Bytes)
        ensures
            bytes_contents(raw) == self@.raw,
    {
        self.raw
    }
}

/// Cuts a byte stream into packets.
pub struct TSPacketDecoder {}

impl TSPacketDecoder {
    /// A decoder; it keeps nothing from one packet to the next.
    pub fn new() -> Self {
        TSPacketDecoder {  }
    }

    /// Takes the next packet off the front of `src`, as [`spec_frame`] says.
    pub fn decode(&mut self, src: &mut BytesMut) -> (r: Result<Option<TSPacket>, ParseError>)
        ensures
            bytes_mut_contents(*final(src)) == spec_frame(bytes_mut_contents(*old(src))).1,
            match spec_frame(bytes_mut_contents(*old(src))).0 {
                Ok(Some(v)) => r matches Ok(Some(p)) && p@ == v,
                Ok(None) => r matches Ok(None),
                Err(e) => r matches Err(x) && x == e,
            },
    {
        if src.len() < TS_PACKET_LENGTH {
            return Ok(None);
        }
        if src[0] != SYNC_BYTE {
            return Err(ParseError::MissingSyncByte);
        }
        let src = src.split_to(TS_PACKET_LENGTH).freeze();
        let transport_error_indicator = flag(src[1], 7);
        let payload_unit_start_indicator = flag(src[1], 6);
        let transport_priority = flag(src[1], 5);
        let pid = pid(src[1], src[2]);
        let transport_scrambling_control = bits(src[3], 6, 2);
        let adaptation_field_control = bits(src[3], 4, 2);
        let continuity_counter = bits(src[3], 0, 4);
        if transport_error_indicator {
            return Ok(
                Some(
                    TSPacket {
                        transport_error_indicator,
                        payload_unit_start_indicator,
                        transport_priority,
                        pid,
                        transport_scrambling_control,
                        adaptation_field_control,
                        continuity_counter,
                        adaptation_field: None,
                        data: None,
                        raw: src,
                    },
                ),
            );
        }
        let (adaptation_field, adaptation_field_length) = match adaptation_field_control {
            2 | 3 => {
                let mut rest = src.clone().split_off(4);
                let (af, n) = AdaptationField::decode(&mut rest)?;
                (Some(af), n)
            },
            _ => (None, 0),
        };
        let data = match adaptation_field_control {
            1 | 3 => Some(src.clone().split_off(4 + adaptation_field_length)),
            _ => None,
        };
        proof {
            let raw = bytes_contents(src);
            assert(raw.skip(4).take(adaptation_field_length as int) =~= raw.subrange(
                4,
                4 + adaptation_field_length,
            ));
        }
        Ok(
            Some(
                TSPacket {
                    transport_error_indicator,
                    payload_unit_start_indicator,
                    transport_priority,
                    pid,
                    transport_scrambling_control,
                    adaptation_field_control,
                    continuity_counter,
                    adaptation_field,
                    data,
                    raw: src,
                },
            ),
        )
    }
}

impl AdaptationField {
    /// Takes the adaptation field off the front of `src`: the length byte and
    /// as many bytes as it says.
    pub fn decode(src: &mut Bytes) -> (r: Result<(AdaptationField, usize), ParseError>)
        ensures
            match r {
                Ok((af, n)) => {
                    &&& bytes_contents(*old(src)).len() >= 1
                    &&& n == bytes_contents(*old(src))[0] + 1
                    &&& n <= bytes_contents(*old(src)).len()
                    &&& bytes_contents(af.raw) == bytes_contents(*old(src)).take(n as int)
                    &&& bytes_contents(*final(src)) == bytes_contents(*old(src)).skip(n as int)
                },
                Err(e) => {
                    &&& e == ParseError::TooShort
                    &&& bytes_contents(*final(src)) == bytes_contents(*old(src))
                    &&& (bytes_contents(*old(src)).len() < 1 || bytes_contents(*old(src)).len()
                        < bytes_contents(*old(src))[0] + 1)
                },
            },
    {
        if src.len() < 1 {
            return Err(ParseError::TooShort);
        }
        let adaptation_field_length = src[0] as usize;
        if src.len() < adaptation_field_length + 1 {
            return Err(ParseError::TooShort);
        }
        Ok(
            (
                AdaptationField { raw: src.split_to(adaptation_field_length + 1) },
                adaptation_field_length + 1,
            ),
        )
    }
}

} // verus!
