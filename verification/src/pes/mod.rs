pub mod buffer;

pub use self::buffer::{Buffer, BufferError};
use crate::error::ParseError;
use crate::util::{be16, be24, bits, flag, spec_be16, spec_be24, spec_bits};
use vstd::prelude::*;

verus! {

/// The stream id of a program stream map.
pub const PROGRAM_STREAM_MAP: u8 = 0xbc;
/// The stream id of the second private stream.
pub const PRIVATE_STREAM_2: u8 = 0xbf;
/// The stream id of entitlement control messages.
pub const ECM: u8 = 0xf0;
/// The stream id of entitlement management messages.
pub const EMM: u8 = 0xf1;
/// The stream id of a program stream directory.
pub const PROGRAM_STREAM_DIRECTORY: u8 = 0xff;
/// The stream id of a DSM-CC stream.
pub const DSMCC_STREAM: u8 = 0xf2;
/// The stream id of a stream of type E of ITU-T Rec. H.222.1.
pub const ITU_T_REC_H_222_1_TYPE_E_STREAM: u8 = 0xf8;
/// The stream id of padding.
pub const PADDING_STREAM: u8 = 0xbe;

/// The ticks of a presentation or decoding time stamp in one second.
pub const PTS_HZ: u64 = 90000;

/// The trick mode byte, whose content is not read.
#[derive(Debug, Clone, Copy, PartialEq, Eq, Structural)]
pub struct DSMTrickMode {}

/// An elementary stream clock reference.
#[derive(Debug, Clone, Copy, PartialEq, Eq, Structural)]
pub struct ESCR {
    pub base: u64,
    pub extension: u16,
}

/// A PES packet: the start code prefix, the stream id, and the body.
#[derive(Debug)]
pub struct PESPacket<'a> {
    pub packet_start_code_prefix: u32,
    pub stream_id: u8,
    pub body: PESPacketBody<'a>,
}

/// The extension fields of a PES header, each present where its flag is set.
#[derive(Debug)]
pub struct PESPacketExtension<'a> {
    pub pes_private_data: Option<&'a [u8]>,
    pub pack_header: Option<&'a [u8]>,
    pub program_packet_sequence_counter: Option<u8>,
    pub mpeg1_mpeg2_identifier: Option<u8>,
    pub original_stuff_length: Option<u8>,
    pub p_std_buffer_scale: Option<u8>,
    pub p_std_buffer_size: Option<u16>,
}

/// The optional fields of a PES header, each present where its flag is set.
#[derive(Debug)]
pub struct OptionalFields<'a> {
    pub pts: Option<u64>,
    pub dts: Option<u64>,
    pub escr: Option<ESCR>,
    pub es_rate: Option<u32>,
    pub dsm_trick_mode: Option<DSMTrickMode>,
    pub additional_copy_info: Option<u8>,
    pub previous_pes_packet_crc: Option<u16>,
    pub pes_extension: Option<PESPacketExtension<'a>>,
}

/// The body of a PES packet with the usual header: flags, optional fields, and the payload.
#[derive(Debug)]
pub struct NormalPESPacketBody<'a> {
    pub pes_scrambling_control: u8,
    pub pes_priority: u8,
    pub data_alignment_indicator: u8,
    pub copyright: u8,
    pub original_or_copy: u8,
    pub fields: OptionalFields<'a>,
    pub pes_packet_data_byte: &'a [u8],
}

/// What follows the length field of a PES packet, by its stream id.
#[derive(Debug)]
pub enum PESPacketBody<'a> {
    NormalPESPacketBody(NormalPESPacketBody<'a>),
    DataBytes(&'a [u8]),
    PaddingByte,
}

/// What a [`PESPacketExtension`] holds.
pub struct PESPacketExtensionView {
    pub pes_private_data: Option<Seq<u8>>,
    pub pack_header: Option<Seq<u8>>,
    pub program_packet_sequence_counter: Option<u8>,
    pub mpeg1_mpeg2_identifier: Option<u8>,
    pub original_stuff_length: Option<u8>,
    pub p_std_buffer_scale: Option<u8>,
    pub p_std_buffer_size: Option<u16>,
}

/// What an [`OptionalFields`] holds.
pub struct OptionalFieldsView {
    pub pts: Option<u64>,
    pub dts: Option<u64>,
    pub escr: Option<ESCR>,
    pub es_rate: Option<u32>,
    pub dsm_trick_mode: Option<DSMTrickMode>,
    pub additional_copy_info: Option<u8>,
    pub previous_pes_packet_crc: Option<u16>,
    pub pes_extension: Option<PESPacketExtensionView>,
}

/// What a [`NormalPESPacketBody`] holds.
pub struct NormalPESPacketBodyView {
    pub pes_scrambling_control: u8,
    pub pes_priority: u8,
    pub data_alignment_indicator: u8,
    pub copyright: u8,
    pub original_or_copy: u8,
    pub fields: OptionalFieldsView,
    pub pes_packet_data_byte: Seq<u8>,
}

/// What a [`PESPacketBody`] holds.
pub enum PESPacketBodyView {
    NormalPESPacketBody(NormalPESPacketBodyView),
    DataBytes(Seq<u8>),
    PaddingByte,
}

/// What a [`PESPacket`] holds.
pub struct PESPacketView {
    pub packet_start_code_prefix: u32,
    pub stream_id: u8,
    pub body: PESPacketBodyView,
}

/// The bytes of an optional slice.
pub open spec fn slice_view(s: Option<&[u8]>) -> Option<Seq<u8>> {
    match s {
        Some(s) => Some(s@),
        None => None,
    }
}

impl<'a> View for PESPacketExtension<'a> {
    type V = PESPacketExtensionView;

    open spec fn view(&self) -> PESPacketExtensionView {
        PESPacketExtensionView {
            pes_private_data: slice_view(self.pes_private_data),
            pack_header: slice_view(self.pack_header),
            program_packet_sequence_counter: self.program_packet_sequence_counter,
            mpeg1_mpeg2_identifier: self.mpeg1_mpeg2_identifier,
            original_stuff_length: self.original_stuff_length,
            p_std_buffer_scale: self.p_std_buffer_scale,
            p_std_buffer_size: self.p_std_buffer_size,
        }
    }
}

impl<'a> View for OptionalFields<'a> {
    type V = OptionalFieldsView;

    open spec fn view(&self) -> OptionalFieldsView {
        OptionalFieldsView {
            pts: self.pts,
            dts: self.dts,
            escr: self.escr,
            es_rate: self.es_rate,
            dsm_trick_mode: self.dsm_trick_mode,
            additional_copy_info: self.additional_copy_info,
            previous_pes_packet_crc: self.previous_pes_packet_crc,
            pes_extension: match self.pes_extension {
                Some(e) => Some(e@),
                None => None,
            },
        }
    }
}

impl<'a> View for NormalPESPacketBody<'a> {
    type V = NormalPESPacketBodyView;

    open spec fn view(&self) -> NormalPESPacketBodyView {
        NormalPESPacketBodyView {
            pes_scrambling_control: self.pes_scrambling_control,
            pes_priority: self.pes_priority,
            data_alignment_indicator: self.data_alignment_indicator,
            copyright: self.copyright,
            original_or_copy: self.original_or_copy,
            fields: self.fields@,
            pes_packet_data_byte: self.pes_packet_data_byte@,
        }
    }
}

impl<'a> View for PESPacketBody<'a> {
    type V = PESPacketBodyView;

    open spec fn view(&self) -> PESPacketBodyView {
        match self {
            PESPacketBody::NormalPESPacketBody(body) => PESPacketBodyView::NormalPESPacketBody(
                body@,
            ),
            PESPacketBody::DataBytes(bytes) => PESPacketBodyView::DataBytes(bytes@),
            PESPacketBody::PaddingByte => PESPacketBodyView::PaddingByte,
        }
    }
}

impl<'a> View for PESPacket<'a> {
    type V = PESPacketView;

    open spec fn view(&self) -> PESPacketView {
        PESPacketView {
            packet_start_code_prefix: self.packet_start_code_prefix,
            stream_id: self.stream_id,
            body: self.body@,
        }
    }
}

/// The 33 bits of the time stamp in the five bytes at `at`: three in the first
/// byte above its marker bit, then eight, seven, eight and seven, each group
/// followed by a marker bit.
pub open spec fn spec_timestamp(b: Seq<u8>, at: int) -> int {
    spec_bits(b[at], 1, 3) * 0x4000_0000 + b[at + 1] * 0x40_0000 + spec_bits(b[at + 2], 1, 7)
        * 0x8000 + b[at + 3] * 0x80 + spec_bits(b[at + 4], 1, 7)
}

/// The clock reference in the six bytes at `at`.
pub open spec fn spec_escr(b: Seq<u8>, at: int) -> ESCR {
    ESCR {
        base: (spec_bits(b[at], 3, 2) * 0x4000_0000 + spec_bits(b[at], 0, 2) * 0x1000_0000 + b[at
            + 1] * 0x10_0000 + spec_bits(b[at + 2], 3, 5) * 0x8000 + spec_bits(b[at + 2], 0, 2)
            * 0x2000 + b[at + 3] * 0x20 + spec_bits(b[at + 4], 3, 5)) as u64,
        extension: (spec_bits(b[at + 4], 0, 2) * 0x80 + spec_bits(b[at + 5], 1, 7)) as u16,
    }
}

/// The rate in the three bytes at `at`: 22 bits between two marker bits.
pub open spec fn spec_es_rate(b: Seq<u8>, at: int) -> int {
    spec_bits(b[at], 0, 7) * 0x8000 + b[at + 1] * 0x80 + spec_bits(b[at + 2], 1, 7)
}

/// The length that a present field of `n` bytes takes.
pub open spec fn present(flag: bool, n: int) -> int {
    if flag {
        n
    } else {
        0
    }
}

/// The extension fields that start at `at`, or the error of an input that
/// ends inside them.
pub open spec fn spec_extension(b: Seq<u8>, at: int) -> Result<PESPacketExtensionView, ParseError> {
    if b.len() < at + 1 {
        Err(ParseError::TooShort)
    } else {
        let private_data = spec_bits(b[at], 7, 1) == 1;
        let pack_header = spec_bits(b[at], 6, 1) == 1;
        let counter = spec_bits(b[at], 5, 1) == 1;
        let p_std = spec_bits(b[at], 4, 1) == 1;
        let extension_2 = spec_bits(b[at], 0, 1) == 1;
        // As the fields are read from the flags byte on, that byte is the
        // first of the private data.
        let o1 = at + present(private_data, 16);
        if b.len() < o1 || (pack_header && b.len() < o1 + 1) {
            Err(ParseError::TooShort)
        } else {
            let o2 = o1 + present(pack_header, 1 + b[o1]);
            let o3 = o2 + present(counter, 2);
            let o4 = o3 + present(p_std, 2);
            let o5 = o4 + present(extension_2, 1);
            if b.len() < o5 {
                Err(ParseError::TooShort)
            } else {
                Ok(
                    PESPacketExtensionView {
                        pes_private_data: if private_data {
                            Some(b.subrange(at, at + 16))
                        } else {
                            None
                        },
                        pack_header: if pack_header {
                            Some(b.subrange(o1 + 1, o2))
                        } else {
                            None
                        },
                        program_packet_sequence_counter: if counter {
                            Some(spec_bits(b[o2], 0, 7) as u8)
                        } else {
                            None
                        },
                        mpeg1_mpeg2_identifier: if counter {
                            Some(spec_bits(b[o2 + 1], 6, 1) as u8)
                        } else {
                            None
                        },
                        original_stuff_length: if counter {
                            Some(spec_bits(b[o2 + 1], 0, 6) as u8)
                        } else {
                            None
                        },
                        p_std_buffer_scale: if p_std {
                            Some(spec_bits(b[o3], 5, 1) as u8)
                        } else {
                            None
                        },
                        p_std_buffer_size: if p_std {
                            Some((spec_bits(b[o3], 0, 5) * 0x100 + b[o3 + 1]) as u16)
                        } else {
                            None
                        },
                    },
                )
            }
        }
    }
}

/// The length of the time stamps that the flags announce.
pub open spec fn spec_time_stamps_len(pts_dts_flags: u8) -> int {
    if pts_dts_flags == 2 {
        5
    } else if pts_dts_flags == 3 {
        10
    } else {
        0
    }
}

/// The presentation time stamp, there when the flags are 2 or 3.
pub open spec fn spec_pts(b: Seq<u8>, pts_dts_flags: u8) -> Option<u64> {
    if pts_dts_flags == 2 || pts_dts_flags == 3 {
        Some(spec_timestamp(b, 0) as u64)
    } else {
        None
    }
}

/// The decoding time stamp, there when the flags are 3.
pub open spec fn spec_dts(b: Seq<u8>, pts_dts_flags: u8) -> Option<u64> {
    if pts_dts_flags == 3 {
        Some(spec_timestamp(b, 5) as u64)
    } else {
        None
    }
}

/// The optional fields at the start of `b`, as the flags say which are there:
/// they follow one another without gaps, in the order of the fields of
/// [`OptionalFields`].
pub open spec fn spec_optional_fields(
    b: Seq<u8>,
    pts_dts_flags: u8,
    escr_flag: u8,
    es_rate_flag: u8,
    dsm_trick_mode_flag: u8,
    additional_copy_info_flag: u8,
    pes_crc_flag: u8,
    pes_extension_flag: u8,
) -> Result<OptionalFieldsView, ParseError> {
    let o1 = spec_time_stamps_len(pts_dts_flags);
    let o2 = o1 + present(escr_flag == 1, 6);
    let o3 = o2 + present(es_rate_flag == 1, 3);
    let o4 = o3 + present(dsm_trick_mode_flag == 1, 1);
    let o5 = o4 + present(additional_copy_info_flag == 1, 1);
    let o6 = o5 + present(pes_crc_flag == 1, 2);
    if b.len() < o6 {
        Err(ParseError::TooShort)
    } else if pes_extension_flag == 1 && spec_extension(b, o6) is Err {
        Err(spec_extension(b, o6)->Err_0)
    } else {
        Ok(
            OptionalFieldsView {
                pts: spec_pts(b, pts_dts_flags),
                dts: spec_dts(b, pts_dts_flags),
                escr: if escr_flag == 1 {
                    Some(spec_escr(b, o1))
                } else {
                    None
                },
                es_rate: if es_rate_flag == 1 {
                    Some(spec_es_rate(b, o2) as u32)
                } else {
                    None
                },
                dsm_trick_mode: if dsm_trick_mode_flag == 1 {
                    Some(DSMTrickMode {  })
                } else {
                    None
                },
                additional_copy_info: if additional_copy_info_flag == 1 {
                    Some(spec_bits(b[o4], 0, 7) as u8)
                } else {
                    None
                },
                previous_pes_packet_crc: if pes_crc_flag == 1 {
                    Some(spec_be16(b[o5], b[o5 + 1]) as u16)
                } else {
                    None
                },
                pes_extension: if pes_extension_flag == 1 {
                    Some(spec_extension(b, o6)->Ok_0)
                } else {
                    None
                },
            },
        )
    }
}

/// The body of a PES packet with the usual header: flags in two bytes, the
/// length of the header data, the optional fields, and after the header data
/// the payload.
pub open spec fn spec_normal_body(b: Seq<u8>) -> Result<NormalPESPacketBodyView, ParseError> {
    if b.len() < 3 {
        Err(ParseError::TooShort)
    } else {
        match spec_optional_fields(
            b.skip(3),
            spec_bits(b[1], 6, 2) as u8,
            spec_bits(b[1], 5, 1) as u8,
            spec_bits(b[1], 4, 1) as u8,
            spec_bits(b[1], 3, 1) as u8,
            spec_bits(b[1], 2, 1) as u8,
            spec_bits(b[1], 1, 1) as u8,
            spec_bits(b[1], 0, 1) as u8,
        ) {
            Err(e) => Err(e),
            Ok(fields) => if b.len() < 3 + b[2] {
                Err(ParseError::TooShort)
            } else {
                Ok(
                    NormalPESPacketBodyView {
                        pes_scrambling_control: spec_bits(b[0], 6, 2) as u8,
                        pes_priority: spec_bits(b[0], 5, 1) as u8,
                        data_alignment_indicator: spec_bits(b[0], 4, 1) as u8,
                        copyright: spec_bits(b[0], 3, 1) as u8,
                        original_or_copy: spec_bits(b[0], 2, 1) as u8,
                        fields,
                        pes_packet_data_byte: b.skip(3 + b[2]),
                    },
                )
            },
        }
    }
}

/// Tells whether the packets of a stream carry plain data bytes after the
/// length field.
pub open spec fn spec_is_data_stream(stream_id: u8) -> bool {
    stream_id == PROGRAM_STREAM_MAP || stream_id == PRIVATE_STREAM_2 || stream_id == ECM
        || stream_id == EMM || stream_id == PROGRAM_STREAM_DIRECTORY || stream_id == DSMCC_STREAM
        || stream_id == ITU_T_REC_H_222_1_TYPE_E_STREAM
}

/// The number of bytes after the length field of the PES packet `b`: what the
/// field says, or all that is there when it says zero.
pub open spec fn spec_pes_packet_length(b: Seq<u8>) -> int {
    if spec_be16(b[4], b[5]) == 0 {
        b.len() - 6
    } else {
        spec_be16(b[4], b[5])
    }
}

/// The PES packet that `b` holds.
pub open spec fn spec_pes_packet(b: Seq<u8>) -> Result<PESPacketView, ParseError> {
    if b.len() < 6 || b.len() < 6 + spec_pes_packet_length(b) {
        Err(ParseError::TooShort)
    } else {
        let data = b.subrange(6, 6 + spec_pes_packet_length(b));
        if spec_is_data_stream(b[3]) {
            Ok(
                PESPacketView {
                    packet_start_code_prefix: spec_be24(b[0], b[1], b[2]) as u32,
                    stream_id: b[3],
                    body: PESPacketBodyView::DataBytes(data),
                },
            )
        } else if b[3] == PADDING_STREAM {
            Ok(
                PESPacketView {
                    packet_start_code_prefix: spec_be24(b[0], b[1], b[2]) as u32,
                    stream_id: b[3],
                    body: PESPacketBodyView::PaddingByte,
                },
            )
        } else {
            match spec_normal_body(data) {
                Err(e) => Err(e),
                Ok(body) => Ok(
                    PESPacketView {
                        packet_start_code_prefix: spec_be24(b[0], b[1], b[2]) as u32,
                        stream_id: b[3],
                        body: PESPacketBodyView::NormalPESPacketBody(body),
                    },
                ),
            }
        }
    }
}

/// Tells whether `n` bytes stand at `pos`.
fn available(bytes: &[u8], pos: usize, n: usize) -> (r: bool)
    ensures
        r == (pos + n <= bytes@.len()),
        bytes@.len() <= usize::MAX,
{
    pos <= bytes.len() && bytes.len() - pos >= n
}

/// Reads the time stamps that the flags announce at the start of `bytes`.
fn read_time_stamps(bytes: &[u8], pts_dts_flags: u8) -> (r: Result<
    (Option<u64>, Option<u64>, usize),
    ParseError,
>)
    ensures
        match r {
            Ok((pts, dts, next)) => {
                &&& next == spec_time_stamps_len(pts_dts_flags) <= bytes@.len()
                &&& pts == spec_pts(bytes@, pts_dts_flags)
                &&& dts == spec_dts(bytes@, pts_dts_flags)
            },
            Err(e) => e == ParseError::TooShort && bytes@.len() < spec_time_stamps_len(
                pts_dts_flags,
            ),
        },
{
    match pts_dts_flags {
        2 => Ok((Some(NormalPESPacketBody::parse_timestamp(bytes, 0)?), None, 5)),
        3 => {
            if !available(bytes, 0, 10) {
                return Err(ParseError::TooShort);
            }
            let pts = NormalPESPacketBody::parse_timestamp(bytes, 0)?;
            let dts = NormalPESPacketBody::parse_timestamp(bytes, 5)?;
            Ok((Some(pts), Some(dts), 10))
        },
        _ => Ok((None, None, 0)),
    }
}

/// Reads the clock reference at `pos` if `flag` announces one.
fn read_escr(bytes: &[u8], pos: usize, flag: u8) -> (r: Result<(Option<ESCR>, usize), ParseError>)
    requires
        pos <= bytes@.len(),
    ensures
        match r {
            Ok((escr, next)) => {
                &&& next == pos + present(flag == 1, 6) <= bytes@.len()
                &&& escr == if flag == 1 {
                    Some(spec_escr(bytes@, pos as int))
                } else {
                    None
                }
            },
            Err(e) => e == ParseError::TooShort && bytes@.len() < pos + present(flag == 1, 6),
        },
{
    match flag {
        1 => Ok((Some(NormalPESPacketBody::parse_escr(bytes, pos)?), pos + 6)),
        _ => Ok((None, pos)),
    }
}

/// Reads the rate at `pos` if `flag` announces one.
fn read_es_rate(bytes: &[u8], pos: usize, flag: u8) -> (r: Result<(Option<u32>, usize), ParseError>)
    requires
        pos <= bytes@.len(),
    ensures
        match r {
            Ok((es_rate, next)) => {
                &&& next == pos + present(flag == 1, 3) <= bytes@.len()
                &&& es_rate == if flag == 1 {
                    Some(spec_es_rate(bytes@, pos as int) as u32)
                } else {
                    None
                }
            },
            Err(e) => e == ParseError::TooShort && bytes@.len() < pos + present(flag == 1, 3),
        },
{
    match flag {
        1 => {
            if !available(bytes, pos, 3) {
                return Err(ParseError::TooShort);
            }
            let es_rate = (bits(bytes[pos], 0, 7) as u32) * 0x8000 + (bytes[pos + 1] as u32) * 0x80
                + bits(bytes[pos + 2], 1, 7) as u32;
            Ok((Some(es_rate), pos + 3))
        },
        _ => Ok((None, pos)),
    }
}

/// Passes over the trick mode byte at `pos` if `flag` announces one.
fn read_trick_mode(bytes: &[u8], pos: usize, flag: u8) -> (r: Result<
    (Option<DSMTrickMode>, usize),
    ParseError,
>)
    requires
        pos <= bytes@.len(),
    ensures
        match r {
            Ok((mode, next)) => {
                &&& next == pos + present(flag == 1, 1) <= bytes@.len()
                &&& mode == if flag == 1 {
                    Some(DSMTrickMode {  })
                } else {
                    None
                }
            },
            Err(e) => e == ParseError::TooShort && bytes@.len() < pos + present(flag == 1, 1),
        },
{
    match flag {
        1 => {
            if !available(bytes, pos, 1) {
                return Err(ParseError::TooShort);
            }
            Ok((Some(DSMTrickMode {  }), pos + 1))
        },
        _ => Ok((None, pos)),
    }
}

/// Reads the copy information at `pos` if `flag` announces it.
fn read_copy_info(bytes: &[u8], pos: usize, flag: u8) -> (r: Result<(Option<u8>, usize), ParseError>)
    requires
        pos <= bytes@.len(),
    ensures
        match r {
            Ok((info, next)) => {
                &&& next == pos + present(flag == 1, 1) <= bytes@.len()
                &&& info == if flag == 1 {
                    Some(spec_bits(bytes@[pos as int], 0, 7) as u8)
                } else {
                    None
                }
            },
            Err(e) => e == ParseError::TooShort && bytes@.len() < pos + present(flag == 1, 1),
        },
{
    match flag {
        1 => {
            if !available(bytes, pos, 1) {
                return Err(ParseError::TooShort);
            }
            Ok((Some(bits(bytes[pos], 0, 7)), pos + 1))
        },
        _ => Ok((None, pos)),
    }
}

/// Reads the CRC of the previous packet at `pos` if `flag` announces it.
fn read_crc(bytes: &[u8], pos: usize, flag: u8) -> (r: Result<(Option<u16>, usize), ParseError>)
    requires
        pos <= bytes@.len(),
    ensures
        match r {
            Ok((crc, next)) => {
                &&& next == pos + present(flag == 1, 2) <= bytes@.len()
                &&& crc == if flag == 1 {
                    Some(spec_be16(bytes@[pos as int], bytes@[pos + 1]) as u16)
                } else {
                    None
                }
            },
            Err(e) => e == ParseError::TooShort && bytes@.len() < pos + present(flag == 1, 2),
        },
{
    match flag {
        1 => {
            if !available(bytes, pos, 2) {
                return Err(ParseError::TooShort);
            }
            Ok((Some(be16(bytes[pos], bytes[pos + 1])), pos + 2))
        },
        _ => Ok((None, pos)),
    }
}

impl<'a> PESPacket<'a> {
    /// Reads a PES packet from the bytes of one reassembled unit.
    pub fn parse(bytes: &'a [u8]) -> (r: Result<PESPacket<'a>, ParseError>)
        ensures
            match spec_pes_packet(bytes@) {
                Ok(v) => r matches Ok(p) && p@ == v,
                Err(e) => r matches Err(x) && x == e,
            },
    {
        if bytes.len() < 3 + 1 + 2 {
            return Err(ParseError::TooShort);
        }
        let packet_start_code_prefix = be24(bytes[0], bytes[1], bytes[2]);
        let stream_id = bytes[3];
        let mut pes_packet_length = be16(bytes[4], bytes[5]) as usize;
        if pes_packet_length == 0 {
            pes_packet_length = bytes.len() - 6;
        }
        if bytes.len() - 6 < pes_packet_length {
            return Err(ParseError::TooShort);
        }
        let data = &bytes[6..6 + pes_packet_length];
        let body = match stream_id {
            PROGRAM_STREAM_MAP
            | PRIVATE_STREAM_2
            | ECM
            | EMM
            | PROGRAM_STREAM_DIRECTORY
            | DSMCC_STREAM
            | ITU_T_REC_H_222_1_TYPE_E_STREAM => PESPacketBody::DataBytes(data),
            PADDING_STREAM => PESPacketBody::PaddingByte,
            _ => PESPacketBody::NormalPESPacketBody(NormalPESPacketBody::parse(data)?),
        };
        Ok(PESPacket { packet_start_code_prefix, stream_id, body })
    }

    /// The presentation time stamp of the packet, if its header has one.
    pub fn get_pts(&self) -> (r: Option<u64>)
        ensures
            r == match self@.body {
                PESPacketBodyView::NormalPESPacketBody(body) => body.fields.pts,
                _ => None,
            },
    {
        match &self.body {
            PESPacketBody::NormalPESPacketBody(body) => body.fields.pts,
            _ => None,
        }
    }
}

impl<'a> NormalPESPacketBody<'a> {
    /// Reads the body of a PES packet with the usual header, as [`spec_normal_body`] says.
    pub fn parse(bytes: &'a [u8]) -> (r: Result<NormalPESPacketBody<'a>, ParseError>)
        ensures
            match spec_normal_body(bytes@) {
                Ok(v) => r matches Ok(p) && p@ == v,
                Err(e) => r matches Err(x) && x == e,
            },
    {
        if bytes.len() < 3 {
            return Err(ParseError::TooShort);
        }
        let pes_scrambling_control = bits(bytes[0], 6, 2);
        let pes_priority = bits(bytes[0], 5, 1);
        let data_alignment_indicator = bits(bytes[0], 4, 1);
        let copyright = bits(bytes[0], 3, 1);
        let original_or_copy = bits(bytes[0], 2, 1);
        let pts_dts_flags = bits(bytes[1], 6, 2);
        let escr_flag = bits(bytes[1], 5, 1);
        let es_rate_flag = bits(bytes[1], 4, 1);
        let dsm_trick_mode_flag = bits(bytes[1], 3, 1);
        let additional_copy_info_flag = bits(bytes[1], 2, 1);
        let pes_crc_flag = bits(bytes[1], 1, 1);
        let pes_extension_flag = bits(bytes[1], 0, 1);
        let pes_header_data_length = bytes[2] as usize;
        proof {
            assert(bytes@.subrange(3, bytes@.len() as int) =~= bytes@.skip(3));
        }
        let fields = NormalPESPacketBody::parse_optional_fields(
            &bytes[3..bytes.len()],
            pts_dts_flags,
            escr_flag,
            es_rate_flag,
            dsm_trick_mode_flag,
            additional_copy_info_flag,
            pes_crc_flag,
            pes_extension_flag,
        )?;
        if bytes.len() < 3 + pes_header_data_length {
            return Err(ParseError::TooShort);
        }
        proof {
            assert(bytes@.subrange(3 + pes_header_data_length, bytes@.len() as int) =~= bytes@.skip(
                3 + pes_header_data_length,
            ));
        }
        let pes_packet_data_byte = &bytes[3 + pes_header_data_length..bytes.len()];
        Ok(
            NormalPESPacketBody {
                pes_scrambling_control,
                pes_priority,
                data_alignment_indicator,
                copyright,
                original_or_copy,
                fields,
                pes_packet_data_byte,
            },
        )
    }

    /// Reads the optional fields at the start of `bytes`, those whose flags
    /// are set, one after the other.
    pub fn parse_optional_fields(
        bytes: &'a [u8],
        pts_dts_flags: u8,
        escr_flag: u8,
        es_rate_flag: u8,
        dsm_trick_mode_flag: u8,
        additional_copy_info_flag: u8,
        pes_crc_flag: u8,
        pes_extension_flag: u8,
    ) -> (r: Result<OptionalFields<'a>, ParseError>)
        ensures
            match spec_optional_fields(
                bytes@,
                pts_dts_flags,
                escr_flag,
                es_rate_flag,
                dsm_trick_mode_flag,
                additional_copy_info_flag,
                pes_crc_flag,
                pes_extension_flag,
            ) {
                Ok(v) => r matches Ok(p) && p@ == v,
                Err(e) => r matches Err(x) && x == e,
            },
    {
        let (pts, dts, pos) = read_time_stamps(bytes, pts_dts_flags)?;
        let (escr, pos) = read_escr(bytes, pos, escr_flag)?;
        let (es_rate, pos) = read_es_rate(bytes, pos, es_rate_flag)?;
        let (dsm_trick_mode, pos) = read_trick_mode(bytes, pos, dsm_trick_mode_flag)?;
        let (additional_copy_info, pos) = read_copy_info(bytes, pos, additional_copy_info_flag)?;
        let (previous_pes_packet_crc, pos) = read_crc(bytes, pos, pes_crc_flag)?;
        let pes_extension = match pes_extension_flag {
            1 => Some(NormalPESPacketBody::parse_extension_fields(bytes, pos)?),
            _ => None,
        };
        Ok(
            OptionalFields {
                pts,
                dts,
                escr,
                es_rate,
                dsm_trick_mode,
                additional_copy_info,
                previous_pes_packet_crc,
                pes_extension,
            },
        )
    }

    /// Reads the extension fields that start at `at`.
    pub fn parse_extension_fields(bytes: &'a [u8], at: usize) -> (r: Result<
        PESPacketExtension<'a>,
        ParseError,
    >)
        ensures
            match spec_extension(bytes@, at as int) {
                Ok(v) => r matches Ok(p) && p@ == v,
                Err(e) => r matches Err(x) && x == e,
            },
    {
        let mut pos = at;
        if !available(bytes, pos, 1) {
            return Err(ParseError::TooShort);
        }
        let pes_private_data_flag = flag(bytes[pos], 7);
        let pack_header_field_flag = flag(bytes[pos], 6);
        let program_packet_sequence_counter_flag = flag(bytes[pos], 5);
        let p_std_buffer_flag = flag(bytes[pos], 4);
        let pes_extension_flag_2 = flag(bytes[pos], 0);
        let pes_private_data = if pes_private_data_flag {
            if !available(bytes, pos, 16) {
                return Err(ParseError::TooShort);
            }
            let pes_private_data = &bytes[pos..pos + 16];
            pos = pos + 16;
            Some(pes_private_data)
        } else {
            None
        };
        let pack_header = if pack_header_field_flag {
            if !available(bytes, pos, 1) {
                return Err(ParseError::TooShort);
            }
            let pack_field_length = bytes[pos] as usize;
            if !available(bytes, pos, 1 + pack_field_length) {
                return Err(ParseError::TooShort);
            }
            let pack_header = &bytes[pos + 1..pos + 1 + pack_field_length];
            pos = pos + 1 + pack_field_length;
            Some(pack_header)
        } else {
            None
        };
        let (program_packet_sequence_counter, mpeg1_mpeg2_identifier, original_stuff_length) =
            if program_packet_sequence_counter_flag {
            if !available(bytes, pos, 2) {
                return Err(ParseError::TooShort);
            }
            let program_packet_sequence_counter = bits(bytes[pos], 0, 7);
            let mpeg1_mpeg2_identifier = bits(bytes[pos + 1], 6, 1);
            let original_stuff_length = bits(bytes[pos + 1], 0, 6);
            pos = pos + 2;
            (
                Some(program_packet_sequence_counter),
                Some(mpeg1_mpeg2_identifier),
                Some(original_stuff_length),
            )
        } else {
            (None, None, None)
        };
        let (p_std_buffer_scale, p_std_buffer_size) = if p_std_buffer_flag {
            if !available(bytes, pos, 2) {
                return Err(ParseError::TooShort);
            }
            let p_std_buffer_scale = bits(bytes[pos], 5, 1);
            let p_std_buffer_size = (bits(bytes[pos], 0, 5) as u16) * 0x100 + bytes[pos + 1] as u16;
            pos = pos + 2;
            (Some(p_std_buffer_scale), Some(p_std_buffer_size))
        } else {
            (None, None)
        };
        if pes_extension_flag_2 && !available(bytes, pos, 1) {
            return Err(ParseError::TooShort);
        }
        Ok(
            PESPacketExtension {
                pes_private_data,
                pack_header,
                program_packet_sequence_counter,
                mpeg1_mpeg2_identifier,
                original_stuff_length,
                p_std_buffer_scale,
                p_std_buffer_size,
            },
        )
    }

    /// Reads the time stamp in the five bytes at `at`.
    pub fn parse_timestamp(bytes: &[u8], at: usize) -> (r: Result<u64, ParseError>)
        ensures
            bytes@.len() <= usize::MAX,
            at + 5 <= bytes@.len() ==> r == Ok::<u64, ParseError>(
                spec_timestamp(bytes@, at as int) as u64,
            ),
            at + 5 > bytes@.len() ==> r == Err::<u64, ParseError>(ParseError::TooShort),
    {
        if bytes.len() < 5 || bytes.len() - 5 < at {
            return Err(ParseError::TooShort);
        }
        Ok(
            (bits(bytes[at], 1, 3) as u64) * 0x4000_0000 + (bytes[at + 1] as u64) * 0x40_0000 + (
            bits(bytes[at + 2], 1, 7) as u64) * 0x8000 + (bytes[at + 3] as u64) * 0x80 + bits(
                bytes[at + 4],
                1,
                7,
            ) as u64,
        )
    }

    /// Reads the clock reference in the six bytes at `at`.
    pub fn parse_escr(bytes: &[u8], at: usize) -> (r: Result<ESCR, ParseError>)
        ensures
            bytes@.len() <= usize::MAX,
            at + 6 <= bytes@.len() ==> r == Ok::<ESCR, ParseError>(spec_escr(bytes@, at as int)),
            at + 6 > bytes@.len() ==> r == Err::<ESCR, ParseError>(ParseError::TooShort),
    {
        if bytes.len() < 6 || bytes.len() - 6 < at {
            return Err(ParseError::TooShort);
        }
        let base = (bits(bytes[at], 3, 2) as u64) * 0x4000_0000 + (bits(bytes[at], 0, 2) as u64)
            * 0x1000_0000 + (bytes[at + 1] as u64) * 0x10_0000 + (bits(bytes[at + 2], 3, 5) as u64)
            * 0x8000 + (bits(bytes[at + 2], 0, 2) as u64) * 0x2000 + (bytes[at + 3] as u64) * 0x20
            + bits(bytes[at + 4], 3, 5) as u64;
        let extension = (bits(bytes[at + 4], 0, 2) as u16) * 0x80 + bits(bytes[at + 5], 1, 7) as u16;
        Ok(ESCR { base, extension })
    }
}

} // verus!
