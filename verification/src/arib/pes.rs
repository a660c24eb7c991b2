use crate::error::ParseError;
use crate::util::{bits, spec_bits};
use vstd::prelude::*;

verus! {

/// The stream id of the PES packets that carry captions in step with the programme.
pub const SYNCHRONIZED_PES_STREAM_ID: u8 = 0xbd;

/// The stream id of the PES packets that carry captions out of step with the programme.
pub const ASYNCHRONOUS_PES_STREAM_ID: u8 = 0xbf;

/// The payload of a PES packet that carries captions in step with the
/// programme.
#[derive(Debug)]
pub struct SynchronizedPESData<'a> {
    pub data_identifier: u8,
    pub private_stream_id: u8,
    pub pes_data_private_data_byte: &'a [u8],
    pub synchronized_pes_data_byte: &'a [u8],
}

/// The payload of a PES packet that carries captions out of step with the
/// programme.
#[derive(Debug)]
pub struct AsynchronousPESData<'a> {
    pub data_identifier: u8,
    pub private_stream_id: u8,
    pub pes_data_private_data_byte: &'a [u8],
    pub asynchronous_pes_data_byte: &'a [u8],
}

/// What a caption payload holds: two bytes of identifiers, the private data
/// behind its four-bit length, and the data group.
pub struct PESDataView {
    pub data_identifier: u8,
    pub private_stream_id: u8,
    pub pes_data_private_data_byte: Seq<u8>,
    pub pes_data_byte: Seq<u8>,
}

impl<'a> View for SynchronizedPESData<'a> {
    type V = PESDataView;

    open spec fn view(&self) -> PESDataView {
        PESDataView {
            data_identifier: self.data_identifier,
            private_stream_id: self.private_stream_id,
            pes_data_private_data_byte: self.pes_data_private_data_byte@,
            pes_data_byte: self.synchronized_pes_data_byte@,
        }
    }
}

impl<'a> View for AsynchronousPESData<'a> {
    type V = PESDataView;

    open spec fn view(&self) -> PESDataView {
        PESDataView {
            data_identifier: self.data_identifier,
            private_stream_id: self.private_stream_id,
            pes_data_private_data_byte: self.pes_data_private_data_byte@,
            pes_data_byte: self.asynchronous_pes_data_byte@,
        }
    }
}

/// The caption payload that `b` holds.
pub open spec fn spec_pes_data(b: Seq<u8>) -> Result<PESDataView, ParseError> {
    if b.len() < 3 || b.len() < 3 + spec_bits(b[2], 0, 4) {
        Err(ParseError::TooShort)
    } else {
        Ok(
            PESDataView {
                data_identifier: b[0],
                private_stream_id: b[1],
                pes_data_private_data_byte: b.subrange(3, 3 + spec_bits(b[2], 0, 4)),
                pes_data_byte: b.skip(3 + spec_bits(b[2], 0, 4)),
            },
        )
    }
}

impl<'a> SynchronizedPESData<'a> {
    /// Reads the payload of a PES packet of synchronized captions, as [`spec_pes_data`] says.
    pub fn parse(bytes: &'a [u8]) -> (r: Result<SynchronizedPESData<'a>, ParseError>)
        ensures
            match spec_pes_data(bytes@) {
                Ok(v) => r matches Ok(d) && d@ == v,
                Err(e) => r matches Err(x) && x == e,
            },
    {
        if bytes.len() < 3 {
            return Err(ParseError::TooShort);
        }
        let data_identifier = bytes[0];
        let private_stream_id = bytes[1];
        let pes_data_packet_header_length = bits(bytes[2], 0, 4) as usize;
        if bytes.len() < 3 + pes_data_packet_header_length {
            return Err(ParseError::TooShort);
        }
        let pes_data_private_data_byte = &bytes[3..3 + pes_data_packet_header_length];
        let synchronized_pes_data_byte = &bytes[3 + pes_data_packet_header_length..bytes.len()];
        proof {
            assert(synchronized_pes_data_byte@ =~= bytes@.skip(3 + pes_data_packet_header_length));
        }
        Ok(
            SynchronizedPESData {
                data_identifier,
                private_stream_id,
                pes_data_private_data_byte,
                synchronized_pes_data_byte,
            },
        )
    }
}

impl<'a> AsynchronousPESData<'a> {
    /// Reads the payload of a PES packet of asynchronous captions, as [`spec_pes_data`] says.
    pub fn parse(bytes: &'a [u8]) -> (r: Result<AsynchronousPESData<'a>, ParseError>)
        ensures
            match spec_pes_data(bytes@) {
                Ok(v) => r matches Ok(d) && d@ == v,
                Err(e) => r matches Err(x) && x == e,
            },
    {
        if bytes.len() < 3 {
            return Err(ParseError::TooShort);
        }
        let data_identifier = bytes[0];
        let private_stream_id = bytes[1];
        let pes_data_packet_header_length = bits(bytes[2], 0, 4) as usize;
        if bytes.len() < 3 + pes_data_packet_header_length {
            return Err(ParseError::TooShort);
        }
        let pes_data_private_data_byte = &bytes[3..3 + pes_data_packet_header_length];
        let asynchronous_pes_data_byte = &bytes[3 + pes_data_packet_header_length..bytes.len()];
        proof {
            assert(asynchronous_pes_data_byte@ =~= bytes@.skip(3 + pes_data_packet_header_length));
        }
        Ok(
            AsynchronousPESData {
                data_identifier,
                private_stream_id,
                pes_data_private_data_byte,
                asynchronous_pes_data_byte,
            },
        )
    }
}

} // verus!
