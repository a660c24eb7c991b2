use crate::error::ParseError;
use crate::psi::buffer::spec_section_length;
use crate::psi::descriptor::{spec_descriptors, Descriptor, DescriptorView};
use crate::psi::pat::{check_crc, spec_crc_holds, spec_trailer, MAX_SECTION_LENGTH};
use crate::psi::TS_PROGRAM_MAP_SECTION;
use crate::util::{
    be16, bits, lemma_list_done, lemma_list_step, length12, list_so_far, pid, spec_be16,
    spec_bits, spec_length12, spec_list, spec_pid, views,
};
use vstd::prelude::*;

verus! {

/// The stream type of MPEG-2 video.
pub const STREAM_TYPE_VIDEO: u8 = 0x2;

/// The stream type of private data in PES packets.
pub const STREAM_TYPE_PES_PRIVATE_DATA: u8 = 0x6;

/// The stream type of ADTS audio.
pub const STREAM_TYPE_ADTS: u8 = 0xf;

/// The stream type of H.264 video.
pub const STREAM_TYPE_H264: u8 = 0x1b;

/// One elementary stream of a program.
#[derive(Debug)]
pub struct StreamInfo<'a> {
    pub stream_type: u8,
    pub elementary_pid: u16,
    pub descriptors: Vec<Descriptor<'a>>,
}

/// A program map table: the streams of one program.
#[derive(Debug)]
pub struct TSProgramMapSection<'a> {
    pub table_id: u8,
    pub section_syntax_indicator: u8,
    pub program_number: u16,
    pub version_number: u8,
    pub current_next_indicator: u8,
    pub section_number: u8,
    pub last_section_number: u8,
    pub pcr_pid: u16,
    pub descriptors: Vec<Descriptor<'a>>,
    pub stream_info: Vec<StreamInfo<'a>>,
    pub crc_32: u32,
}

/// What a [`StreamInfo`] holds.
pub struct StreamInfoView {
    pub stream_type: u8,
    pub elementary_pid: u16,
    pub descriptors: Seq<DescriptorView>,
}

/// What a [`TSProgramMapSection`] holds.
pub struct TSProgramMapSectionView {
    pub table_id: u8,
    pub section_syntax_indicator: u8,
    pub program_number: u16,
    pub version_number: u8,
    pub current_next_indicator: u8,
    pub section_number: u8,
    pub last_section_number: u8,
    pub pcr_pid: u16,
    pub descriptors: Seq<DescriptorView>,
    pub stream_info: Seq<StreamInfoView>,
    pub crc_32: u32,
}

impl<'a> View for StreamInfo<'a> {
    type V = StreamInfoView;

    open spec fn view(&self) -> StreamInfoView {
        StreamInfoView {
            stream_type: self.stream_type,
            elementary_pid: self.elementary_pid,
            descriptors: views(self.descriptors@),
        }
    }
}

impl<'a> View for TSProgramMapSection<'a> {
    type V = TSProgramMapSectionView;

    open spec fn view(&self) -> TSProgramMapSectionView {
        TSProgramMapSectionView {
            table_id: self.table_id,
            section_syntax_indicator: self.section_syntax_indicator,
            program_number: self.program_number,
            version_number: self.version_number,
            current_next_indicator: self.current_next_indicator,
            section_number: self.section_number,
            last_section_number: self.last_section_number,
            pcr_pid: self.pcr_pid,
            descriptors: views(self.descriptors@),
            stream_info: views(self.stream_info@),
            crc_32: self.crc_32,
        }
    }
}

/// The stream entry at the start of `b`: its type, its PID, and its
/// descriptors behind their total length; and the bytes that it takes.
pub open spec fn spec_stream_info(b: Seq<u8>) -> Result<(StreamInfoView, int), ParseError> {
    if b.len() < 5 || b.len() < 5 + spec_length12(b[3], b[4]) {
        Err(ParseError::TooShort)
    } else {
        let end = 5 + spec_length12(b[3], b[4]);
        match spec_descriptors(b.subrange(5, end)) {
            Err(e) => Err(e),
            Ok(descriptors) => Ok(
                (
                    StreamInfoView {
                        stream_type: b[0],
                        elementary_pid: spec_pid(b[1], b[2]) as u16,
                        descriptors,
                    },
                    end,
                ),
            ),
        }
    }
}

/// The program map table that the section `b` holds: twelve bytes of header,
/// the descriptors of the program behind their total length, the stream
/// entries, and the CRC-32 of all that comes before it.
pub open spec fn spec_pmt(b: Seq<u8>) -> Result<TSProgramMapSectionView, ParseError> {
    if b.len() < 1 {
        Err(ParseError::TooShort)
    } else if b[0] != TS_PROGRAM_MAP_SECTION {
        Err(ParseError::InvalidTableId)
    } else if b.len() < 12 {
        Err(ParseError::TooShort)
    } else if spec_section_length(b) > MAX_SECTION_LENGTH {
        Err(ParseError::InvalidLength)
    } else if b.len() < 3 + spec_section_length(b) || b.len() < 12 + spec_length12(b[10], b[11]) {
        Err(ParseError::TooShort)
    } else if 12 + spec_length12(b[10], b[11]) > 3 + spec_section_length(b) - 4 {
        Err(ParseError::InvalidLength)
    } else if !spec_crc_holds(b, 3 + spec_section_length(b)) {
        Err(ParseError::CrcMismatch)
    } else {
        let n = 3 + spec_section_length(b);
        let streams = 12 + spec_length12(b[10], b[11]);
        match spec_descriptors(b.subrange(12, streams)) {
            Err(e) => Err(e),
            Ok(descriptors) => match spec_list(
                b.subrange(streams, n - 4),
                |s: Seq<u8>| spec_stream_info(s),
            ) {
                Err(e) => Err(e),
                Ok(stream_info) => Ok(
                    TSProgramMapSectionView {
                        table_id: b[0],
                        section_syntax_indicator: spec_bits(b[1], 7, 1) as u8,
                        program_number: spec_be16(b[3], b[4]) as u16,
                        version_number: spec_bits(b[5], 1, 5) as u8,
                        current_next_indicator: spec_bits(b[5], 0, 1) as u8,
                        section_number: b[6],
                        last_section_number: b[7],
                        pcr_pid: spec_pid(b[8], b[9]) as u16,
                        descriptors,
                        stream_info,
                        crc_32: spec_trailer(b, n),
                    },
                ),
            },
        }
    }
}

impl<'a> StreamInfo<'a> {
    /// Reads the stream entry at the start of `bytes` and tells how many
    /// bytes it takes.
    pub fn parse(bytes: &'a [u8]) -> (r: Result<(StreamInfo<'a>, usize), ParseError>)
        ensures
            match spec_stream_info(bytes@) {
                Ok((v, n)) => r matches Ok((s, m)) && s@ == v && m == n,
                Err(e) => r matches Err(x) && x == e,
            },
    {
        if bytes.len() < 5 {
            return Err(ParseError::TooShort);
        }
        let stream_type = bytes[0];
        let elementary_pid = pid(bytes[1], bytes[2]);
        let es_info_length = length12(bytes[3], bytes[4]);
        if bytes.len() < 5 + es_info_length {
            return Err(ParseError::TooShort);
        }
        let descriptors = Descriptor::parse_all(&bytes[5..5 + es_info_length])?;
        Ok((StreamInfo { stream_type, elementary_pid, descriptors }, 5 + es_info_length))
    }

    /// Reads the stream entries that fill `bytes`.
    pub fn parse_all(bytes: &'a [u8]) -> (r: Result<Vec<StreamInfo<'a>>, ParseError>)
        ensures
            match spec_list(bytes@, |b: Seq<u8>| spec_stream_info(b)) {
                Ok(v) => r matches Ok(d) && views(d@) == v,
                Err(e) => r matches Err(x) && x == e,
            },
    {
        let mut items: Vec<StreamInfo<'a>> = Vec::new();
        let mut rest = bytes;
        let ghost item = |b: Seq<u8>| spec_stream_info(b);
        proof {
            assert(Seq::<StreamInfoView>::empty() + spec_list(bytes@, item)->Ok_0 =~= spec_list(
                bytes@,
                item,
            )->Ok_0);
            assert(views(items@) =~= Seq::<StreamInfoView>::empty());
        }
        while rest.len() > 0
            invariant
                list_so_far(bytes@, item, views(items@), rest@),
                item == (|b: Seq<u8>| spec_stream_info(b)),
            decreases rest@.len(),
        {
            proof {
                lemma_list_step(bytes@, item, views(items@), rest@);
            }
            let (one, n) = StreamInfo::parse(rest)?;
            if n > rest.len() {
                return Err(ParseError::TooShort);
            }
            proof {
                assert(views(items@.push(one)) =~= views(items@).push(one@));
                assert(rest@.subrange(n as int, rest@.len() as int) =~= rest@.skip(n as int));
            }
            items.push(one);
            rest = &rest[n..rest.len()];
        }
        proof {
            lemma_list_done(bytes@, item, views(items@), rest@);
        }
        Ok(items)
    }
}

impl<'a> TSProgramMapSection<'a> {
    /// Reads a program map table from a section.
    pub fn parse(bytes: &'a [u8]) -> (r: Result<TSProgramMapSection<'a>, ParseError>)
        ensures
            match spec_pmt(bytes@) {
                Ok(v) => r matches Ok(s) && s@ == v,
                Err(e) => r matches Err(x) && x == e,
            },
    {
        if bytes.len() < 1 {
            return Err(ParseError::TooShort);
        }
        let table_id = bytes[0];
        if table_id != TS_PROGRAM_MAP_SECTION {
            return Err(ParseError::InvalidTableId);
        }
        if bytes.len() < 12 {
            return Err(ParseError::TooShort);
        }
        let section_syntax_indicator = bits(bytes[1], 7, 1);
        let section_length = length12(bytes[1], bytes[2]);
        if section_length > MAX_SECTION_LENGTH {
            return Err(ParseError::InvalidLength);
        }
        let program_number = be16(bytes[3], bytes[4]);
        let version_number = bits(bytes[5], 1, 5);
        let current_next_indicator = bits(bytes[5], 0, 1);
        let section_number = bytes[6];
        let last_section_number = bytes[7];
        let pcr_pid = pid(bytes[8], bytes[9]);
        let program_info_length = length12(bytes[10], bytes[11]);
        if bytes.len() < 3 + section_length || bytes.len() < 12 + program_info_length {
            return Err(ParseError::TooShort);
        }
        if 12 + program_info_length + 4 > 3 + section_length {
            return Err(ParseError::InvalidLength);
        }
        let (crc_holds, crc_32) = check_crc(bytes, 3 + section_length);
        if !crc_holds {
            return Err(ParseError::CrcMismatch);
        }
        let descriptors = Descriptor::parse_all(&bytes[12..12 + program_info_length])?;
        let stream_info = StreamInfo::parse_all(
            &bytes[12 + program_info_length..3 + section_length - 4],
        )?;
        Ok(
            TSProgramMapSection {
                table_id,
                section_syntax_indicator,
                program_number,
                version_number,
                current_next_indicator,
                section_number,
                last_section_number,
                pcr_pid,
                descriptors,
                stream_info,
                crc_32,
            },
        )
    }
}

} // verus!
