use crate::error::ParseError;
use crate::psi::descriptor::{Descriptor, DescriptorView};
use crate::psi::pmt::{StreamInfo, StreamInfoView, STREAM_TYPE_PES_PRIVATE_DATA};
use crate::text::{language_code, spec_language_code};
use crate::util::{
    bcd, be16, be24, bits, lemma_items_fail, lemma_list_done, lemma_list_step, list_so_far,
    spec_bcd, spec_be16, spec_be24, spec_bits, spec_items, spec_list, views,
};
use vstd::prelude::*;

verus! {

/// A data group of a caption stream: a header, caption management data or caption data, and a CRC.
#[derive(Debug)]
pub struct DataGroup<'a> {
    pub data_group_id: u8,
    pub data_group_version: u8,
    pub data_group_link_number: u8,
    pub last_data_group_link_number: u8,
    pub data_group_data: DataGroupData<'a>,
    pub crc16: u16,
}

/// What a data group carries.
#[derive(Debug)]
pub enum DataGroupData<'a> {
    CaptionManagementData(CaptionManagementData<'a>),
    CaptionData(CaptionData<'a>),
}

/// How the times of a caption are to be read.
#[derive(Debug, Clone, Copy, PartialEq, Eq, Structural)]
pub enum TMD {
    Free,
    RealTime,
    OffsetTime,
    Reserved,
}

/// A time of day, or an offset, to the millisecond.
#[derive(Debug, Clone, Copy, PartialEq, Eq, Structural)]
pub struct Time {
    pub h: u8,
    pub m: u8,
    pub s: u8,
    pub ms: u16,
}

/// What is said of the captions of a programme as a whole: their languages, and data units that hold for all of them.
#[derive(Debug)]
pub struct CaptionManagementData<'a> {
    pub tmd: TMD,
    pub otm: Option<Time>,
    pub languages: Vec<Language>,
    pub data_units: Vec<DataUnit<'a>>,
}

/// The coding of the characters of a caption.
#[derive(Debug, Clone, Copy, PartialEq, Eq, Structural)]
pub enum TCS {
    Char8,
    UCS,
    Reseved,
}

/// How the lines of a caption move up.
#[derive(Debug, Clone, Copy, PartialEq, Eq, Structural)]
pub enum RollupMode {
    NonRollup,
    Rollup,
    Reseved,
}

/// One language in which captions are given.
#[derive(Debug)]
pub struct Language {
    pub language_tag: u8,
    pub dmf: u8,
    pub dc: Option<u8>,
    pub iso_639_language_code: String,
    pub format: u8,
    pub tcs: TCS,
    pub rollup_mode: RollupMode,
}

/// What a data unit holds.
#[derive(Debug, Clone, Copy, PartialEq, Eq, Structural)]
pub enum DataUnitParameter {
    Text,
    Geometric,
    AdditionalSound,
    DRCS1,
    DRCS2,
    ColorMap,
    BitMap,
}

/// One unit of caption data: a text, glyphs, or another kind of data.
#[derive(Debug)]
pub struct DataUnit<'a> {
    pub unit_separator: u8,
    pub data_unit_parameter: DataUnitParameter,
    pub data_unit_data: &'a [u8],
}

/// The captions of one language at one time.
#[derive(Debug)]
pub struct CaptionData<'a> {
    pub tmd: TMD,
    pub stm: Option<Time>,
    pub data_units: Vec<DataUnit<'a>>,
}

/// The glyphs that a DRCS data unit defines.
pub struct DrcsDataStructure<'a> {
    pub codes: Vec<Code<'a>>,
}

/// The fonts of one character code.
pub struct Code<'a> {
    pub character_code: u16,
    pub fonts: Vec<Font<'a>>,
}

/// One glyph: its size in dots and its pattern, two bits to a dot.
pub struct Font<'a> {
    pub font_id: u8,
    pub depth: u8,
    pub width: u8,
    pub height: u8,
    pub pattern_data: &'a [u8],
}

/// What a [`Language`] holds.
pub struct LanguageView {
    pub language_tag: u8,
    pub dmf: u8,
    pub dc: Option<u8>,
    pub iso_639_language_code: Seq<char>,
    pub format: u8,
    pub tcs: TCS,
    pub rollup_mode: RollupMode,
}

/// What a [`DataUnit`] holds.
pub struct DataUnitView {
    pub unit_separator: u8,
    pub data_unit_parameter: DataUnitParameter,
    pub data_unit_data: Seq<u8>,
}

/// What a [`CaptionManagementData`] holds.
pub struct CaptionManagementDataView {
    pub tmd: TMD,
    pub otm: Option<Time>,
    pub languages: Seq<LanguageView>,
    pub data_units: Seq<DataUnitView>,
}

/// What a [`CaptionData`] holds.
pub struct CaptionDataView {
    pub tmd: TMD,
    pub stm: Option<Time>,
    pub data_units: Seq<DataUnitView>,
}

/// What a [`DataGroupData`] holds.
pub enum DataGroupDataView {
    CaptionManagementData(CaptionManagementDataView),
    CaptionData(CaptionDataView),
}

/// What a [`DataGroup`] holds.
pub struct DataGroupView {
    pub data_group_id: u8,
    pub data_group_version: u8,
    pub data_group_link_number: u8,
    pub last_data_group_link_number: u8,
    pub data_group_data: DataGroupDataView,
    pub crc16: u16,
}

/// What a [`Font`] holds.
pub struct FontView {
    pub font_id: u8,
    pub depth: u8,
    pub width: u8,
    pub height: u8,
    pub pattern_data: Seq<u8>,
}

/// What a [`Code`] holds.
pub struct CodeView {
    pub character_code: u16,
    pub fonts: Seq<FontView>,
}

impl View for Language {
    type V = LanguageView;

    open spec fn view(&self) -> LanguageView {
        LanguageView {
            language_tag: self.language_tag,
            dmf: self.dmf,
            dc: self.dc,
            iso_639_language_code: self.iso_639_language_code@,
            format: self.format,
            tcs: self.tcs,
            rollup_mode: self.rollup_mode,
        }
    }
}

impl<'a> View for DataUnit<'a> {
    type V = DataUnitView;

    open spec fn view(&self) -> DataUnitView {
        DataUnitView {
            unit_separator: self.unit_separator,
            data_unit_parameter: self.data_unit_parameter,
            data_unit_data: self.data_unit_data@,
        }
    }
}

impl<'a> View for CaptionManagementData<'a> {
    type V = CaptionManagementDataView;

    open spec fn view(&self) -> CaptionManagementDataView {
        CaptionManagementDataView {
            tmd: self.tmd,
            otm: self.otm,
            languages: views(self.languages@),
            data_units: views(self.data_units@),
        }
    }
}

impl<'a> View for CaptionData<'a> {
    type V = CaptionDataView;

    open spec fn view(&self) -> CaptionDataView {
        CaptionDataView { tmd: self.tmd, stm: self.stm, data_units: views(self.data_units@) }
    }
}

impl<'a> View for DataGroupData<'a> {
    type V = DataGroupDataView;

    open spec fn view(&self) -> DataGroupDataView {
        match self {
            DataGroupData::CaptionManagementData(d) => DataGroupDataView::CaptionManagementData(d@),
            DataGroupData::CaptionData(d) => DataGroupDataView::CaptionData(d@),
        }
    }
}

impl<'a> View for DataGroup<'a> {
    type V = DataGroupView;

    open spec fn view(&self) -> DataGroupView {
        DataGroupView {
            data_group_id: self.data_group_id,
            data_group_version: self.data_group_version,
            data_group_link_number: self.data_group_link_number,
            last_data_group_link_number: self.last_data_group_link_number,
            data_group_data: self.data_group_data@,
            crc16: self.crc16,
        }
    }
}

impl<'a> View for Font<'a> {
    type V = FontView;

    open spec fn view(&self) -> FontView {
        FontView {
            font_id: self.font_id,
            depth: self.depth,
            width: self.width,
            height: self.height,
            pattern_data: self.pattern_data@,
        }
    }
}

impl<'a> View for Code<'a> {
    type V = CodeView;

    open spec fn view(&self) -> CodeView {
        CodeView { character_code: self.character_code, fonts: views(self.fonts@) }
    }
}

impl<'a> View for DrcsDataStructure<'a> {
    type V = Seq<CodeView>;

    open spec fn view(&self) -> Seq<CodeView> {
        views(self.codes@)
    }
}

/// The time mode that two bits name.
pub open spec fn spec_tmd(b: u8) -> TMD {
    if b == 0 {
        TMD::Free
    } else if b == 1 {
        TMD::RealTime
    } else if b == 2 {
        TMD::OffsetTime
    } else {
        TMD::Reserved
    }
}

/// The character coding that two bits name.
pub open spec fn spec_tcs(b: u8) -> TCS {
    if b == 0 {
        TCS::Char8
    } else if b == 1 {
        TCS::UCS
    } else {
        TCS::Reseved
    }
}

/// The roll-up mode that two bits name.
pub open spec fn spec_rollup_mode(b: u8) -> RollupMode {
    if b == 0 {
        RollupMode::NonRollup
    } else if b == 1 {
        RollupMode::Rollup
    } else {
        RollupMode::Reseved
    }
}

/// The kind of data unit that a parameter byte names.
pub open spec fn spec_parameter(b: u8) -> Option<DataUnitParameter> {
    if b == 0x20 {
        Some(DataUnitParameter::Text)
    } else if b == 0x28 {
        Some(DataUnitParameter::Geometric)
    } else if b == 0x2c {
        Some(DataUnitParameter::AdditionalSound)
    } else if b == 0x30 {
        Some(DataUnitParameter::DRCS1)
    } else if b == 0x31 {
        Some(DataUnitParameter::DRCS2)
    } else if b == 0x34 {
        Some(DataUnitParameter::ColorMap)
    } else if b == 0x35 {
        Some(DataUnitParameter::BitMap)
    } else {
        None
    }
}

/// The time in the five bytes at `at`: hours, minutes, seconds and
/// milliseconds in nine decimal digits.
pub open spec fn spec_time(b: Seq<u8>, at: int) -> Time {
    Time {
        h: spec_bcd(b[at]) as u8,
        m: spec_bcd(b[at + 1]) as u8,
        s: spec_bcd(b[at + 2]) as u8,
        ms: (spec_bcd(b[at + 3]) * 10 + spec_bits(b[at + 4], 4, 4)) as u16,
    }
}

/// Tells whether the display mode `dmf` is followed by a condition byte.
pub open spec fn spec_has_condition(dmf: int) -> bool {
    dmf == 0b1100 || dmf == 0b1101 || dmf == 0b1110
}

/// The language entry at `at`, and the position after it: tag and display
/// mode, a condition byte for some display modes, and three letters of
/// language code. The format, the character coding and the roll-up mode are
/// read from the byte that follows the byte after the language code.
pub open spec fn spec_language(b: Seq<u8>, at: int) -> Result<(LanguageView, int), ParseError> {
    if at < 0 || b.len() < at + 1 {
        Err(ParseError::TooShort)
    } else {
        let dmf = spec_bits(b[at], 0, 4);
        let code = if spec_has_condition(dmf) {
            at + 2
        } else {
            at + 1
        };
        if b.len() < code + 5 {
            Err(ParseError::TooShort)
        } else {
            match spec_language_code(b.subrange(code, code + 3)) {
                None => Err(ParseError::InvalidLanguageCode),
                Some(iso_639_language_code) => Ok(
                    (
                        LanguageView {
                            language_tag: spec_bits(b[at], 5, 3) as u8,
                            dmf: dmf as u8,
                            dc: if spec_has_condition(dmf) {
                                Some(b[at + 1])
                            } else {
                                None
                            },
                            iso_639_language_code,
                            format: spec_bits(b[code + 4], 4, 4) as u8,
                            tcs: spec_tcs(spec_bits(b[code + 4], 2, 2) as u8),
                            rollup_mode: spec_rollup_mode(spec_bits(b[code + 4], 0, 2) as u8),
                        },
                        code + 4,
                    ),
                ),
            }
        }
    }
}

/// The data unit at the start of `b`, and the bytes that it takes: a
/// separator, a parameter, and the data behind its length of three bytes.
pub open spec fn spec_data_unit(b: Seq<u8>) -> Result<(DataUnitView, int), ParseError> {
    if b.len() < 5 {
        Err(ParseError::TooShort)
    } else {
        match spec_parameter(b[1]) {
            None => Err(ParseError::InvalidCode),
            Some(data_unit_parameter) => if b.len() < 5 + spec_be24(b[2], b[3], b[4]) {
                Err(ParseError::TooShort)
            } else {
                Ok(
                    (
                        DataUnitView {
                            unit_separator: b[0],
                            data_unit_parameter,
                            data_unit_data: b.subrange(5, 5 + spec_be24(b[2], b[3], b[4])),
                        },
                        5 + spec_be24(b[2], b[3], b[4]),
                    ),
                )
            },
        }
    }
}

/// The data units behind their total length of three bytes at `at`.
pub open spec fn spec_data_unit_loop(b: Seq<u8>, at: int) -> Result<Seq<DataUnitView>, ParseError> {
    if at < 0 || b.len() < at + 3 || b.len() < at + 3 + spec_be24(b[at], b[at + 1], b[at + 2]) {
        Err(ParseError::TooShort)
    } else {
        spec_list(
            b.subrange(at + 3, at + 3 + spec_be24(b[at], b[at + 1], b[at + 2])),
            |u: Seq<u8>| spec_data_unit(u),
        )
    }
}

/// The caption management data in `b`: the time mode, an offset time if the
/// mode asks for one, the languages behind their number, and the data units.
pub open spec fn spec_management(b: Seq<u8>) -> Result<CaptionManagementDataView, ParseError> {
    if b.len() < 1 {
        Err(ParseError::TooShort)
    } else {
        let tmd = spec_tmd(spec_bits(b[0], 6, 2) as u8);
        let count = if tmd == TMD::OffsetTime {
            6int
        } else {
            1int
        };
        if b.len() < count + 1 {
            Err(ParseError::TooShort)
        } else {
            match spec_items(b, count + 1, b[count] as nat, |s: Seq<u8>, at: int| spec_language(s, at)) {
                Err(e) => Err(e),
                Ok((languages, at)) => match spec_data_unit_loop(b, at) {
                    Err(e) => Err(e),
                    Ok(data_units) => Ok(
                        CaptionManagementDataView {
                            tmd,
                            otm: if tmd == TMD::OffsetTime {
                                Some(spec_time(b, 1))
                            } else {
                                None
                            },
                            languages,
                            data_units,
                        },
                    ),
                },
            }
        }
    }
}

/// The caption data in `b`: the time mode, a time if the mode asks for one,
/// and the data units.
pub open spec fn spec_caption_data(b: Seq<u8>) -> Result<CaptionDataView, ParseError> {
    if b.len() < 1 {
        Err(ParseError::TooShort)
    } else {
        let tmd = spec_tmd(spec_bits(b[0], 6, 2) as u8);
        let timed = tmd == TMD::RealTime || tmd == TMD::OffsetTime;
        let at = if timed {
            6int
        } else {
            1int
        };
        match spec_data_unit_loop(b, at) {
            Err(e) => Err(e),
            Ok(data_units) => Ok(
                CaptionDataView {
                    tmd,
                    stm: if timed {
                        Some(spec_time(b, 1))
                    } else {
                        None
                    },
                    data_units,
                },
            ),
        }
    }
}

/// Tells whether a data group of the id `data_group_id` holds caption
/// management data, not caption data.
pub open spec fn spec_is_management(data_group_id: int) -> bool {
    data_group_id == 0x0 || data_group_id == 0x20
}

/// The data group in `b`: five bytes of header, the data behind its length,
/// and two bytes of CRC.
pub open spec fn spec_data_group(b: Seq<u8>) -> Result<DataGroupView, ParseError> {
    if b.len() < 5 || b.len() < 5 + spec_be16(b[3], b[4]) + 2 {
        Err(ParseError::TooShort)
    } else {
        let end = 5 + spec_be16(b[3], b[4]);
        let data = b.subrange(5, end);
        let id = spec_bits(b[0], 2, 6);
        if spec_is_management(id) && spec_management(data) is Err {
            Err(spec_management(data)->Err_0)
        } else if !spec_is_management(id) && spec_caption_data(data) is Err {
            Err(spec_caption_data(data)->Err_0)
        } else {
            Ok(
                DataGroupView {
                    data_group_id: id as u8,
                    data_group_version: spec_bits(b[0], 0, 2) as u8,
                    data_group_link_number: b[1],
                    last_data_group_link_number: b[2],
                    data_group_data: if spec_is_management(id) {
                        DataGroupDataView::CaptionManagementData(spec_management(data)->Ok_0)
                    } else {
                        DataGroupDataView::CaptionData(spec_caption_data(data)->Ok_0)
                    },
                    crc16: spec_be16(b[end], b[end + 1]) as u16,
                },
            )
        }
    }
}

/// The number of bytes of the pattern of a glyph: two bits to a dot.
pub open spec fn spec_pattern_len(width: u8, height: u8) -> int {
    width * height / 4
}

/// The font at `at`, and the position after it: id and mode, depth, width,
/// height, and the pattern. The mode must be 1 and the depth 2.
pub open spec fn spec_font(b: Seq<u8>, at: int) -> Result<(FontView, int), ParseError> {
    if at < 0 || b.len() < at + 4 {
        Err(ParseError::TooShort)
    } else if spec_bits(b[at], 0, 4) != 1 {
        Err(ParseError::InvalidDrcsMode)
    } else if b[at + 1] != 2 {
        Err(ParseError::InvalidDrcsDepth)
    } else if b.len() < at + 4 + spec_pattern_len(b[at + 2], b[at + 3]) {
        Err(ParseError::TooShort)
    } else {
        let end = at + 4 + spec_pattern_len(b[at + 2], b[at + 3]);
        Ok(
            (
                FontView {
                    font_id: spec_bits(b[at], 4, 4) as u8,
                    depth: b[at + 1],
                    width: b[at + 2],
                    height: b[at + 3],
                    pattern_data: b.subrange(at + 4, end),
                },
                end,
            ),
        )
    }
}

/// The character code at `at` with its fonts, and the position after them.
pub open spec fn spec_code(b: Seq<u8>, at: int) -> Result<(CodeView, int), ParseError> {
    if at < 0 || b.len() < at + 3 {
        Err(ParseError::TooShort)
    } else {
        match spec_items(b, at + 3, b[at + 2] as nat, |s: Seq<u8>, p: int| spec_font(s, p)) {
            Err(e) => Err(e),
            Ok((fonts, end)) => Ok(
                (CodeView { character_code: spec_be16(b[at], b[at + 1]) as u16, fonts }, end),
            ),
        }
    }
}

/// The character codes that the DRCS data unit `b` defines, behind their number.
pub open spec fn spec_drcs(b: Seq<u8>) -> Result<Seq<CodeView>, ParseError> {
    if b.len() < 1 {
        Err(ParseError::TooShort)
    } else {
        match spec_items(b, 1, b[0] as nat, |s: Seq<u8>, p: int| spec_code(s, p)) {
            Err(e) => Err(e),
            Ok((codes, _)) => Ok(codes),
        }
    }
}

/// Tells whether a component tag is one of the captions of a full-segment service.
pub open spec fn spec_is_non_partial_reception_caption(component_tag: u8) -> bool {
    0x30 <= component_tag <= 0x3f
}

/// Tells whether a descriptor marks its stream as one of captions.
pub open spec fn spec_is_caption_component(d: DescriptorView) -> bool {
    d matches DescriptorView::StreamIdentifierDescriptor(sid)
        && spec_is_non_partial_reception_caption(sid.component_tag)
}

/// A stream carries captions if it is one of private PES data and one of its
/// descriptors is a stream identifier with a component tag from 0x30 to 0x3F.
pub open spec fn spec_is_caption(si: StreamInfoView) -> bool {
    si.stream_type == STREAM_TYPE_PES_PRIVATE_DATA && exists|i: int|
        0 <= i < si.descriptors.len() && spec_is_caption_component(#[trigger] si.descriptors[i])
}

impl TMD {
    /// The time mode that the two bits `b` name.
    pub fn from(b: u8) -> (r: TMD)
        ensures
            r == spec_tmd(b),
    {
        match b {
            0 => TMD::Free,
            1 => TMD::RealTime,
            2 => TMD::OffsetTime,
            _ => TMD::Reserved,
        }
    }
}

impl Time {
    /// Reads the time in the five bytes at `at`.
    pub fn parse(bytes: &[u8], at: usize) -> (r: Time)
        requires
            at + 5 <= bytes@.len(),
        ensures
            r == spec_time(bytes@, at as int),
    {
        proof {
            assert(bytes@.len() == bytes.len());
        }
        let h = Time::bcd2(bytes[at]);
        let m = Time::bcd2(bytes[at + 1]);
        let s = Time::bcd2(bytes[at + 2]);
        let ms = Time::bcd2(bytes[at + 3]) as u16 * 10 + bits(bytes[at + 4], 4, 4) as u16;
        Time { h, m, s, ms }
    }

    /// Reads a byte as two decimal digits.
    pub fn bcd2(b: u8) -> (r: u8)
        ensures
            r == spec_bcd(b),
    {
        bcd(b)
    }
}

impl TCS {
    /// The character coding that the two bits `b` name.
    pub fn from(b: u8) -> (r: TCS)
        ensures
            r == spec_tcs(b),
    {
        match b {
            0 => TCS::Char8,
            1 => TCS::UCS,
            _ => TCS::Reseved,
        }
    }
}

impl RollupMode {
    /// The roll-up mode that the two bits `b` name.
    pub fn from(b: u8) -> (r: RollupMode)
        ensures
            r == spec_rollup_mode(b),
    {
        match b {
            0 => RollupMode::NonRollup,
            1 => RollupMode::Rollup,
            _ => RollupMode::Reseved,
        }
    }
}

impl DataUnitParameter {
    /// The kind of data unit that the parameter byte `b` names, if it names one.
    pub fn from(b: u8) -> (r: Option<DataUnitParameter>)
        ensures
            r == spec_parameter(b),
    {
        match b {
            0x20 => Some(DataUnitParameter::Text),
            0x28 => Some(DataUnitParameter::Geometric),
            0x2c => Some(DataUnitParameter::AdditionalSound),
            0x30 => Some(DataUnitParameter::DRCS1),
            0x31 => Some(DataUnitParameter::DRCS2),
            0x34 => Some(DataUnitParameter::ColorMap),
            0x35 => Some(DataUnitParameter::BitMap),
            _ => None,
        }
    }
}

/// Tells whether `n` bytes stand at `pos`.
fn available(bytes: &[u8], pos: usize, n: usize) -> (r: bool)
    ensures
        r == (pos + n <= bytes@.len()),
        bytes@.len() <= usize::MAX,
{
    pos <= bytes.len() && bytes.len() - pos >= n
}

impl<'a> DataGroup<'a> {
    /// Reads the data group that a caption payload holds.
    pub fn parse(bytes: &'a [u8]) -> (r: Result<DataGroup<'a>, ParseError>)
        ensures
            match spec_data_group(bytes@) {
                Ok(v) => r matches Ok(d) && d@ == v,
                Err(e) => r matches Err(x) && x == e,
            },
    {
        if bytes.len() < 5 {
            return Err(ParseError::TooShort);
        }
        let data_group_id = bits(bytes[0], 2, 6);
        let data_group_version = bits(bytes[0], 0, 2);
        let data_group_link_number = bytes[1];
        let last_data_group_link_number = bytes[2];
        let data_group_size = be16(bytes[3], bytes[4]) as usize;
        if bytes.len() < 5 + data_group_size + 2 {
            return Err(ParseError::TooShort);
        }
        let data = &bytes[5..5 + data_group_size];
        let data_group_data = if data_group_id == 0x0 || data_group_id == 0x20 {
            DataGroupData::CaptionManagementData(CaptionManagementData::parse(data)?)
        } else {
            DataGroupData::CaptionData(CaptionData::parse(data)?)
        };
        let crc16 = be16(bytes[5 + data_group_size], bytes[5 + data_group_size + 1]);
        Ok(
            DataGroup {
                data_group_id,
                data_group_version,
                data_group_link_number,
                last_data_group_link_number,
                data_group_data,
                crc16,
            },
        )
    }
}

impl Language {
    /// Reads the language entry at `at` and tells where the next one starts.
    pub fn parse(bytes: &[u8], at: usize) -> (r: Result<(Language, usize), ParseError>)
        ensures
            match spec_language(bytes@, at as int) {
                Ok((v, n)) => r matches Ok((d, m)) && d@ == v && m == n && n <= bytes@.len(),
                Err(e) => r matches Err(x) && x == e,
            },
    {
        if !available(bytes, at, 1) {
            return Err(ParseError::TooShort);
        }
        let language_tag = bits(bytes[at], 5, 3);
        let dmf = bits(bytes[at], 0, 4);
        let condition = dmf == 0b1100 || dmf == 0b1101 || dmf == 0b1110;
        if condition && !available(bytes, at, 2) {
            return Err(ParseError::TooShort);
        }
        let code = if condition {
            at + 2
        } else {
            at + 1
        };
        if !available(bytes, code, 5) {
            return Err(ParseError::TooShort);
        }
        let dc = if condition {
            Some(bytes[at + 1])
        } else {
            None
        };
        let iso_639_language_code = match language_code(bytes, code) {
            Some(code) => code,
            None => return Err(ParseError::InvalidLanguageCode),
        };
        let format = bits(bytes[code + 4], 4, 4);
        let tcs = TCS::from(bits(bytes[code + 4], 2, 2));
        let rollup_mode = RollupMode::from(bits(bytes[code + 4], 0, 2));
        Ok(
            (
                Language { language_tag, dmf, dc, iso_639_language_code, format, tcs, rollup_mode },
                code + 4,
            ),
        )
    }

    /// Reads `n` language entries from `at` on and tells where they end.
    pub fn parse_n(bytes: &[u8], at: usize, n: u8) -> (r: Result<(Vec<Language>, usize), ParseError>)
        requires
            at <= bytes@.len(),
        ensures
            match spec_items(bytes@, at as int, n as nat, |s: Seq<u8>, p: int| spec_language(s, p)) {
                Ok((v, end)) => r matches Ok((d, m)) && views(d@) == v && m == end && end
                    <= bytes@.len(),
                Err(e) => r matches Err(x) && x == e,
            },
    {
        let mut items: Vec<Language> = Vec::new();
        let mut pos = at;
        let mut i: u8 = 0;
        let ghost item = |s: Seq<u8>, p: int| spec_language(s, p);
        proof {
            assert(views(items@) =~= Seq::<LanguageView>::empty());
        }
        while i < n
            invariant
                i <= n,
                pos <= bytes@.len(),
                item == (|s: Seq<u8>, p: int| spec_language(s, p)),
                spec_items(bytes@, at as int, i as nat, item) == Ok::<
                    (Seq<LanguageView>, int),
                    ParseError,
                >((views(items@), pos as int)),
            decreases n - i,
        {
            proof {
                assert(spec_items(bytes@, at as int, (i + 1) as nat, item) == match item(
                    bytes@,
                    pos as int,
                ) {
                    Err(e) => Err::<(Seq<LanguageView>, int), ParseError>(e),
                    Ok((v, end)) => Ok((views(items@).push(v), end)),
                });
            }
            let (one, next) = match Language::parse(bytes, pos) {
                Ok(parsed) => parsed,
                Err(e) => {
                    proof {
                        lemma_items_fail(bytes@, at as int, (i + 1) as nat, n as nat, item);
                    }
                    return Err(e);
                },
            };
            proof {
                assert(views(items@.push(one)) =~= views(items@).push(one@));
            }
            items.push(one);
            pos = next;
            i += 1;
        }
        Ok((items, pos))
    }
}

/// Reads the data units behind their total length of three bytes at `at`.
fn data_unit_loop<'a>(bytes: &'a [u8], at: usize) -> (r: Result<Vec<DataUnit<'a>>, ParseError>)
    ensures
        match spec_data_unit_loop(bytes@, at as int) {
            Ok(v) => r matches Ok(d) && views(d@) == v,
            Err(e) => r matches Err(x) && x == e,
        },
{
    if !available(bytes, at, 3) {
        return Err(ParseError::TooShort);
    }
    let data_unit_loop_length = be24(bytes[at], bytes[at + 1], bytes[at + 2]) as usize;
    if !available(bytes, at + 3, data_unit_loop_length) {
        return Err(ParseError::TooShort);
    }
    DataUnit::parse_all(&bytes[at + 3..at + 3 + data_unit_loop_length])
}

impl<'a> CaptionManagementData<'a> {
    /// Reads caption management data, as [`spec_management`] says.
    pub fn parse(bytes: &'a [u8]) -> (r: Result<CaptionManagementData<'a>, ParseError>)
        ensures
            match spec_management(bytes@) {
                Ok(v) => r matches Ok(d) && d@ == v,
                Err(e) => r matches Err(x) && x == e,
            },
    {
        if bytes.len() < 1 {
            return Err(ParseError::TooShort);
        }
        let tmd = TMD::from(bits(bytes[0], 6, 2));
        let count: usize = match tmd {
            TMD::OffsetTime => 6,
            _ => 1,
        };
        if bytes.len() < count + 1 {
            return Err(ParseError::TooShort);
        }
        let otm = match tmd {
            TMD::OffsetTime => Some(Time::parse(bytes, 1)),
            _ => None,
        };
        let num_languages = bytes[count];
        let (languages, at) = Language::parse_n(bytes, count + 1, num_languages)?;
        let data_units = data_unit_loop(bytes, at)?;
        Ok(CaptionManagementData { tmd, otm, languages, data_units })
    }
}

impl<'a> CaptionData<'a> {
    /// Reads caption data, as [`spec_caption_data`] says.
    pub fn parse(bytes: &'a [u8]) -> (r: Result<CaptionData<'a>, ParseError>)
        ensures
            match spec_caption_data(bytes@) {
                Ok(v) => r matches Ok(d) && d@ == v,
                Err(e) => r matches Err(x) && x == e,
            },
    {
        if bytes.len() < 1 {
            return Err(ParseError::TooShort);
        }
        let tmd = TMD::from(bits(bytes[0], 6, 2));
        let at: usize = match tmd {
            TMD::RealTime | TMD::OffsetTime => 6,
            _ => 1,
        };
        let data_units = data_unit_loop(bytes, at)?;
        let stm = match tmd {
            TMD::RealTime | TMD::OffsetTime => Some(Time::parse(bytes, 1)),
            _ => None,
        };
        Ok(CaptionData { tmd, stm, data_units })
    }
}

impl<'a> DataUnit<'a> {
    /// Reads the data unit at the start of `bytes` and tells how many bytes
    /// it takes.
    pub fn parse(bytes: &'a [u8]) -> (r: Result<(DataUnit<'a>, usize), ParseError>)
        ensures
            match spec_data_unit(bytes@) {
                Ok((v, n)) => r matches Ok((d, m)) && d@ == v && m == n,
                Err(e) => r matches Err(x) && x == e,
            },
    {
        if bytes.len() < 5 {
            return Err(ParseError::TooShort);
        }
        let unit_separator = bytes[0];
        let data_unit_parameter = match DataUnitParameter::from(bytes[1]) {
            Some(parameter) => parameter,
            None => return Err(ParseError::InvalidCode),
        };
        let data_unit_size = be24(bytes[2], bytes[3], bytes[4]) as usize;
        if bytes.len() - 5 < data_unit_size {
            return Err(ParseError::TooShort);
        }
        let data_unit_data = &bytes[5..5 + data_unit_size];
        Ok((DataUnit { unit_separator, data_unit_parameter, data_unit_data }, 5 + data_unit_size))
    }

    /// Reads the data units that fill `bytes`.
    pub fn parse_all(bytes: &'a [u8]) -> (r: Result<Vec<DataUnit<'a>>, ParseError>)
        ensures
            match spec_list(bytes@, |b: Seq<u8>| spec_data_unit(b)) {
                Ok(v) => r matches Ok(d) && views(d@) == v,
                Err(e) => r matches Err(x) && x == e,
            },
    {
        let mut items: Vec<DataUnit<'a>> = Vec::new();
        let mut rest = bytes;
        let ghost item = |b: Seq<u8>| spec_data_unit(b);
        proof {
            assert(Seq::<DataUnitView>::empty() + spec_list(bytes@, item)->Ok_0 =~= spec_list(
                bytes@,
                item,
            )->Ok_0);
            assert(views(items@) =~= Seq::<DataUnitView>::empty());
        }
        while rest.len() > 0
            invariant
                list_so_far(bytes@, item, views(items@), rest@),
                item == (|b: Seq<u8>| spec_data_unit(b)),
            decreases rest@.len(),
        {
            proof {
                lemma_list_step(bytes@, item, views(items@), rest@);
            }
            let (one, n) = DataUnit::parse(rest)?;
            if n > rest.len() {
                return Err(ParseError::TooShort);
            }
            proof {
                assert(views(items@.push(one)) =~= views(items@).push(one@));
                assert(rest@.subrange(n as int, rest@.len() as int) =~= rest@.skip(n as int));
            }
            items.push(one);
            rest = &rest[n..rest.len()];
        }
        proof {
            lemma_list_done(bytes@, item, views(items@), rest@);
        }
        Ok(items)
    }
}

impl<'a> Font<'a> {
    /// Reads the font at `at` and tells where the next one starts.
    pub fn parse(bytes: &'a [u8], at: usize) -> (r: Result<(Font<'a>, usize), ParseError>)
        ensures
            match spec_font(bytes@, at as int) {
                Ok((v, n)) => r matches Ok((d, m)) && d@ == v && m == n && n <= bytes@.len(),
                Err(e) => r matches Err(x) && x == e,
            },
    {
        if !available(bytes, at, 4) {
            return Err(ParseError::TooShort);
        }
        let font_id = bits(bytes[at], 4, 4);
        let mode = bits(bytes[at], 0, 4);
        if mode != 1 {
            // the operational guideline allows mode 1 only
            return Err(ParseError::InvalidDrcsMode);
        }
        let depth = bytes[at + 1];
        if depth != 2 {
            // the operational guideline allows depth 2 only
            return Err(ParseError::InvalidDrcsDepth);
        }
        let width = bytes[at + 2];
        let height = bytes[at + 3];
        assert(width * height <= 255 * 255) by (nonlinear_arith)
            requires
                width <= 255,
                height <= 255,
        ;
        let len = width as usize * height as usize / 4;
        if !available(bytes, at + 4, len) {
            return Err(ParseError::TooShort);
        }
        Ok(
            (
                Font { font_id, depth, width, height, pattern_data: &bytes[at + 4..at + 4 + len] },
                at + 4 + len,
            ),
        )
    }

    /// Reads `n` fonts from `at` on and tells where they end.
    pub fn parse_n(bytes: &'a [u8], at: usize, n: u8) -> (r: Result<(Vec<Font<'a>>, usize), ParseError>)
        requires
            at <= bytes@.len(),
        ensures
            match spec_items(bytes@, at as int, n as nat, |s: Seq<u8>, p: int| spec_font(s, p)) {
                Ok((v, end)) => r matches Ok((d, m)) && views(d@) == v && m == end && end
                    <= bytes@.len(),
                Err(e) => r matches Err(x) && x == e,
            },
    {
        let mut items: Vec<Font<'a>> = Vec::new();
        let mut pos = at;
        let mut i: u8 = 0;
        let ghost item = |s: Seq<u8>, p: int| spec_font(s, p);
        proof {
            assert(views(items@) =~= Seq::<FontView>::empty());
        }
        while i < n
            invariant
                i <= n,
                pos <= bytes@.len(),
                item == (|s: Seq<u8>, p: int| spec_font(s, p)),
                spec_items(bytes@, at as int, i as nat, item) == Ok::<
                    (Seq<FontView>, int),
                    ParseError,
                >((views(items@), pos as int)),
            decreases n - i,
        {
            proof {
                assert(spec_items(bytes@, at as int, (i + 1) as nat, item) == match item(
                    bytes@,
                    pos as int,
                ) {
                    Err(e) => Err::<(Seq<FontView>, int), ParseError>(e),
                    Ok((v, end)) => Ok((views(items@).push(v), end)),
                });
            }
            let (one, next) = match Font::parse(bytes, pos) {
                Ok(parsed) => parsed,
                Err(e) => {
                    proof {
                        lemma_items_fail(bytes@, at as int, (i + 1) as nat, n as nat, item);
                    }
                    return Err(e);
                },
            };
            proof {
                assert(views(items@.push(one)) =~= views(items@).push(one@));
            }
            items.push(one);
            pos = next;
            i += 1;
        }
        Ok((items, pos))
    }
}

impl<'a> Code<'a> {
    /// Reads the character code at `at` with its fonts and tells where the
    /// next one starts.
    pub fn parse(bytes: &'a [u8], at: usize) -> (r: Result<(Code<'a>, usize), ParseError>)
        ensures
            match spec_code(bytes@, at as int) {
                Ok((v, n)) => r matches Ok((d, m)) && d@ == v && m == n && n <= bytes@.len(),
                Err(e) => r matches Err(x) && x == e,
            },
    {
        if !available(bytes, at, 3) {
            return Err(ParseError::TooShort);
        }
        let character_code = be16(bytes[at], bytes[at + 1]);
        let number_of_font = bytes[at + 2];
        let (fonts, pos) = Font::parse_n(bytes, at + 3, number_of_font)?;
        Ok((Code { character_code, fonts }, pos))
    }

    /// Reads `n` character codes from `at` on and tells where they end.
    pub fn parse_n(bytes: &'a [u8], at: usize, n: u8) -> (r: Result<(Vec<Code<'a>>, usize), ParseError>)
        requires
            at <= bytes@.len(),
        ensures
            match spec_items(bytes@, at as int, n as nat, |s: Seq<u8>, p: int| spec_code(s, p)) {
                Ok((v, end)) => r matches Ok((d, m)) && views(d@) == v && m == end && end
                    <= bytes@.len(),
                Err(e) => r matches Err(x) && x == e,
            },
    {
        let mut items: Vec<Code<'a>> = Vec::new();
        let mut pos = at;
        let mut i: u8 = 0;
        let ghost item = |s: Seq<u8>, p: int| spec_code(s, p);
        proof {
            assert(views(items@) =~= Seq::<CodeView>::empty());
        }
        while i < n
            invariant
                i <= n,
                pos <= bytes@.len(),
                item == (|s: Seq<u8>, p: int| spec_code(s, p)),
                spec_items(bytes@, at as int, i as nat, item) == Ok::<
                    (Seq<CodeView>, int),
                    ParseError,
                >((views(items@), pos as int)),
            decreases n - i,
        {
            proof {
                assert(spec_items(bytes@, at as int, (i + 1) as nat, item) == match item(
                    bytes@,
                    pos as int,
                ) {
                    Err(e) => Err::<(Seq<CodeView>, int), ParseError>(e),
                    Ok((v, end)) => Ok((views(items@).push(v), end)),
                });
            }
            let (one, next) = match Code::parse(bytes, pos) {
                Ok(parsed) => parsed,
                Err(e) => {
                    proof {
                        lemma_items_fail(bytes@, at as int, (i + 1) as nat, n as nat, item);
                    }
                    return Err(e);
                },
            };
            proof {
                assert(views(items@.push(one)) =~= views(items@).push(one@));
            }
            items.push(one);
            pos = next;
            i += 1;
        }
        Ok((items, pos))
    }
}

impl<'a> DrcsDataStructure<'a> {
    /// Reads the glyphs that a DRCS data unit defines.
    pub fn parse(bytes: &'a [u8]) -> (r: Result<DrcsDataStructure<'a>, ParseError>)
        ensures
            match spec_drcs(bytes@) {
                Ok(v) => r matches Ok(d) && d@ == v,
                Err(e) => r matches Err(x) && x == e,
            },
    {
        if bytes.len() < 1 {
            return Err(ParseError::TooShort);
        }
        let number_of_code = bytes[0];
        let (codes, _) = Code::parse_n(bytes, 1, number_of_code)?;
        Ok(DrcsDataStructure { codes })
    }
}

/// Tells whether a component tag is one of the captions of a full-segment service.
pub fn is_non_partial_reception_caption(component_tag: u8) -> (r: bool)
    ensures
        r == spec_is_non_partial_reception_caption(component_tag),
{
    0x30 <= component_tag && component_tag <= 0x3f
}

/// Tells whether a descriptor marks its stream as one of captions.
pub fn is_caption_component(desc: &Descriptor) -> (r: bool)
    ensures
        r == spec_is_caption_component(desc@),
{
    if let Descriptor::StreamIdentifierDescriptor(sid) = desc {
        return is_non_partial_reception_caption(sid.component_tag);
    }
    false
}

/// Tells whether a stream carries captions, as [`spec_is_caption`] says.
pub fn is_caption(si: &StreamInfo) -> (r: bool)
    ensures
        r == spec_is_caption(si@),
{
    if si.stream_type == STREAM_TYPE_PES_PRIVATE_DATA {
        let mut i: usize = 0;
        while i < si.descriptors.len()
            invariant
                i <= si.descriptors@.len(),
                si.stream_type == STREAM_TYPE_PES_PRIVATE_DATA,
                forall|k: int|
                    0 <= k < i ==> !spec_is_caption_component(#[trigger] si@.descriptors[k]),
            decreases si.descriptors@.len() - i,
        {
            proof {
                assert(si@.descriptors.len() == si.descriptors@.len());
                assert(si@.descriptors[i as int] == si.descriptors@[i as int]@);
            }
            if is_caption_component(&si.descriptors[i]) {
                return true;
            }
            i += 1;
        }
    }
    false
}

} // verus!
