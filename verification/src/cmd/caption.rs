use crate::arib::caption::{
    spec_data_group, spec_drcs, Code, CodeView, DataGroup, DataGroupData, DataGroupDataView,
    DataGroupView, DataUnit, DataUnitParameter, DataUnitView, DrcsDataStructure, Font, FontView,
};
use crate::arib::pes::{
    spec_pes_data, AsynchronousPESData, SynchronizedPESData, ASYNCHRONOUS_PES_STREAM_ID,
    SYNCHRONIZED_PES_STREAM_ID,
};
use crate::arib::string::{
    drcs_view, spec_decode, AribDecoder, CodeTables, CodeTablesView, GraphicSets,
};
use crate::error::ParseError;
use crate::pes::{
    spec_pes_packet, PESPacket, PESPacketBody, PESPacketBodyView, PESPacketView, PTS_HZ,
};
use crate::util::{bits, spec_bits, views};
use md5::{Digest, Md5};
use std::collections::{HashMap, HashSet};
use vstd::bytes::{spec_u128_from_le_bytes, u128_from_le_bytes};
use vstd::prelude::*;

verus! {

broadcast use {vstd::std_specs::hash::group_hash_axioms, vstd::array::group_array_axioms};

/// What to do about a glyph for which no replacement is known.
#[derive(Debug, Clone, Copy, PartialEq, Eq, Structural)]
pub enum HandleDRCS {
    /// Go on.
    Ignore,
    /// Fail at once.
    FailFast,
    /// Go on, and fail at the end of the stream.
    ErrorExit,
}

/// Why the captions of a stream could not be made.
#[derive(Debug, Clone, Copy, PartialEq, Eq, Structural)]
pub enum CaptionError {
    /// A data group or a data unit could not be read.
    Parse(ParseError),
    /// A caption text could not be decoded.
    Decode(crate::arib::string::Error),
    /// The PES packet is not one that carries captions.
    UnknownPes,
    /// No replacement is known for the glyph with this fingerprint, which the
    /// character code stands for.
    UnknownDrcs(u16, u128),
    /// At the end of the stream, this many glyphs had no replacement.
    UnknownDrcsFonts(usize),
}

/// A caption and the time at which it is due, counted from the first picture.
#[derive(Debug)]
pub struct Caption {
    pub time_sec: u64,
    pub time_ms: u64,
    pub caption: String,
}

/// What a [`Caption`] holds.
pub struct CaptionView {
    pub time_sec: u64,
    pub time_ms: u64,
    pub caption: Seq<char>,
}

impl View for Caption {
    type V = CaptionView;

    open spec fn view(&self) -> CaptionView {
        CaptionView { time_sec: self.time_sec, time_ms: self.time_ms, caption: self.caption@ }
    }
}

/// The replacements of the glyphs that a stream defines.
pub struct DRCSProcessor {
    unknown: HashSet<u128>,
    drcs_map: HashMap<u128, String>,
    code_map: HashMap<u16, String>,
    handle_drcs: HandleDRCS,
}

/// What a [`DRCSProcessor`] holds: the fingerprints met without a
/// replacement, the replacement of each known fingerprint, the replacement of
/// each character code defined so far, and what to do about unknown glyphs.
pub struct DRCSProcessorView {
    pub unknown: Set<u128>,
    pub drcs_map: Map<u128, Seq<char>>,
    pub code_map: Map<u16, Seq<char>>,
    pub handle_drcs: HandleDRCS,
}

/// The MD5 digest of `data`: sixteen bytes.
pub uninterp spec fn spec_md5(data: Seq<u8>) -> Seq<u8>;

/// `Md5::digest` computes the MD5 digest of the bytes given.
#[verifier::external_body]
fn md5_digest(data: &[u8]) -> (digest: [u8; 16])
    ensures
        digest@ == spec_md5(data@),
{
    Md5::digest(data).into()
}

/// The fingerprint of a glyph: the MD5 digest of its pattern, read as a
/// number with the least significant byte first. The order of the bytes is
/// fixed, so that a glyph has one fingerprint on every machine; it is the
/// order in which the common machines hold a number in memory.
pub open spec fn spec_fingerprint(pattern: Seq<u8>) -> u128 {
    spec_u128_from_le_bytes(spec_md5(pattern))
}

/// Computes the fingerprint of a glyph from its pattern.
pub fn fingerprint(pattern: &[u8]) -> (hash: u128)
    ensures
        hash == spec_fingerprint(pattern@),
{
    let digest = md5_digest(pattern);
    u128_from_le_bytes(digest.as_slice())
}

/// How far the fonts of one character code have been looked up: the
/// replacements found so far, one after the other; whether any was found; the
/// fingerprints met without a replacement; and the fingerprint at which the
/// look-up failed, if it did.
pub struct Lookup {
    pub text: Seq<char>,
    pub found: bool,
    pub unknown: Set<u128>,
    pub failed: Option<u128>,
}

/// The look-up after one more font, whose glyph has the fingerprint `hash`.
/// A known glyph adds its replacement. An unknown one is noted, and fails the
/// look-up where unknown glyphs are to fail at once.
pub open spec fn spec_lookup_font(
    map: Map<u128, Seq<char>>,
    policy: HandleDRCS,
    so_far: Lookup,
    hash: u128,
) -> Lookup {
    if so_far.failed is Some {
        so_far
    } else if map.contains_key(hash) {
        Lookup { text: so_far.text + map[hash], found: true, ..so_far }
    } else {
        Lookup {
            unknown: so_far.unknown.insert(hash),
            failed: if policy == HandleDRCS::FailFast {
                Some(hash)
            } else {
                None
            },
            ..so_far
        }
    }
}

/// The look-up of the fonts with the fingerprints `hashes`, in their order.
pub open spec fn spec_lookup(
    map: Map<u128, Seq<char>>,
    policy: HandleDRCS,
    unknown: Set<u128>,
    hashes: Seq<u128>,
) -> Lookup
    decreases hashes.len(),
{
    if hashes.len() == 0 {
        Lookup { text: Seq::empty(), found: false, unknown, failed: None }
    } else {
        spec_lookup_font(
            map,
            policy,
            spec_lookup(map, policy, unknown, hashes.drop_last()),
            hashes.last(),
        )
    }
}

/// The fingerprints of the glyphs of the first `n` fonts.
pub open spec fn spec_fingerprints(fonts: Seq<FontView>, n: int) -> Seq<u128> {
    Seq::new(n as nat, |i: int| spec_fingerprint(fonts[i].pattern_data))
}

/// The processor after the fonts of one character code have been looked up,
/// and the error if the look-up failed. The code stands for the replacements
/// found, one after the other, or for U+FFFD where none was found.
pub open spec fn spec_process_code(v: DRCSProcessorView, code: CodeView) -> (
    DRCSProcessorView,
    Option<CaptionError>,
) {
    let lookup = spec_lookup(
        v.drcs_map,
        v.handle_drcs,
        v.unknown,
        spec_fingerprints(code.fonts, code.fonts.len() as int),
    );
    match lookup.failed {
        Some(hash) => (
            DRCSProcessorView { unknown: lookup.unknown, ..v },
            Some(CaptionError::UnknownDrcs(code.character_code, hash)),
        ),
        None => (
            DRCSProcessorView {
                unknown: lookup.unknown,
                code_map: v.code_map.insert(
                    code.character_code,
                    if lookup.found {
                        lookup.text
                    } else {
                        seq!['\u{fffd}']
                    },
                ),
                ..v
            },
            None,
        ),
    }
}

/// The processor after the character codes `codes` have been taken in, in
/// their order and up to the first that fails.
pub open spec fn spec_process_codes(v: DRCSProcessorView, codes: Seq<CodeView>) -> (
    DRCSProcessorView,
    Option<CaptionError>,
)
    decreases codes.len(),
{
    if codes.len() == 0 {
        (v, None)
    } else {
        let before = spec_process_codes(v, codes.drop_last());
        if before.1 is Some {
            before
        } else {
            spec_process_code(before.0, codes.last())
        }
    }
}

/// The processor after the DRCS data unit `data` has been taken in.
pub open spec fn spec_process(v: DRCSProcessorView, data: Seq<u8>) -> (
    DRCSProcessorView,
    Option<CaptionError>,
) {
    match spec_drcs(data) {
        Err(e) => (v, Some(CaptionError::Parse(e))),
        Ok(codes) => spec_process_codes(v, codes),
    }
}

/// The replacements of a map of fingerprints, each as its characters.
pub open spec fn replacements(m: Map<u128, String>) -> Map<u128, Seq<char>> {
    m.map_values(|s: String| s@)
}

impl View for DRCSProcessor {
    type V = DRCSProcessorView;

    closed spec fn view(&self) -> DRCSProcessorView {
        DRCSProcessorView {
            unknown: self.unknown@,
            drcs_map: replacements(self.drcs_map@),
            code_map: drcs_view(self.code_map@),
            handle_drcs: self.handle_drcs,
        }
    }
}

impl DRCSProcessor {
    /// A processor that knows no replacement.
    pub fn new(handle_drcs: HandleDRCS) -> (p: DRCSProcessor)
        ensures
            p@ == (DRCSProcessorView {
                unknown: Set::empty(),
                drcs_map: Map::empty(),
                code_map: Map::empty(),
                handle_drcs,
            }),
    {
        let p = DRCSProcessor {
            unknown: HashSet::new(),
            drcs_map: HashMap::new(),
            code_map: HashMap::new(),
            handle_drcs,
        };
        proof {
            assert(p@.drcs_map =~= Map::<u128, Seq<char>>::empty());
            assert(p@.code_map =~= Map::<u16, Seq<char>>::empty());
        }
        p
    }

    /// Makes `map` the replacements that the processor knows.
    pub fn load_map(&mut self, map: HashMap<u128, String>)
        ensures
            final(self)@ == (DRCSProcessorView { drcs_map: replacements(map@), ..old(self)@ }),
    {
        self.drcs_map = map;
    }

    /// Looks up the glyph of one font of the character code
    /// `character_code`, as [`spec_lookup_font`] says. `hash` is the
    /// fingerprint of the glyph.
    pub fn process_font(
        &mut self,
        character_code: u16,
        hash: u128,
        code_str: &mut String,
        found_font: &mut bool,
    ) -> (r: Result<(), CaptionError>)
        ensures
            ({
                let before = Lookup {
                    text: old(code_str)@,
                    found: *old(found_font),
                    unknown: old(self)@.unknown,
                    failed: None,
                };
                let after = spec_lookup_font(
                    old(self)@.drcs_map,
                    old(self)@.handle_drcs,
                    before,
                    hash,
                );
                &&& final(self)@ == (DRCSProcessorView { unknown: after.unknown, ..old(self)@ })
                &&& final(code_str)@ == after.text
                &&& *final(found_font) == after.found
                &&& match after.failed {
                    Some(h) => r == Err::<(), CaptionError>(
                        CaptionError::UnknownDrcs(character_code, h),
                    ),
                    None => r == Ok::<(), CaptionError>(()),
                }
            }),
    {
        match self.drcs_map.get(&hash) {
            Some(s) => {
                code_str.append(s.as_str());
                *found_font = true;
            },
            None => {
                self.unknown.insert(hash);
                if let HandleDRCS::FailFast = self.handle_drcs {
                    return Err(CaptionError::UnknownDrcs(character_code, hash));
                }
            },
        }
        Ok(())
    }

    /// Takes in one character code with its fonts, as [`spec_process_code`]
    /// says.
    pub fn process_code(&mut self, code: &Code) -> (r: Result<(), CaptionError>)
        ensures
            final(self)@ == spec_process_code(old(self)@, code@).0,
            match spec_process_code(old(self)@, code@).1 {
                Some(e) => r == Err::<(), CaptionError>(e),
                None => r == Ok::<(), CaptionError>(()),
            },
    {
        let mut code_str = String::new();
        let mut found_font = false;
        let ghost fonts = code@.fonts;
        let ghost map = self@.drcs_map;
        let ghost policy = self@.handle_drcs;
        let ghost unknown = self@.unknown;
        let mut i: usize = 0;
        proof {
            assert(spec_fingerprints(fonts, 0) =~= Seq::<u128>::empty());
        }
        while i < code.fonts.len()
            invariant
                i <= code.fonts@.len(),
                fonts == code@.fonts,
                fonts.len() == code.fonts@.len(),
                self@ == (DRCSProcessorView { unknown: self@.unknown, ..old(self)@ }),
                map == old(self)@.drcs_map,
                policy == old(self)@.handle_drcs,
                unknown == old(self)@.unknown,
                !found_font ==> code_str@ == Seq::<char>::empty(),
                spec_lookup(map, policy, unknown, spec_fingerprints(fonts, i as int)) == (Lookup {
                    text: code_str@,
                    found: found_font,
                    unknown: self@.unknown,
                    failed: None,
                }),
            decreases code.fonts@.len() - i,
        {
            let font = &code.fonts[i];
            let hash = fingerprint(font.pattern_data);
            proof {
                assert(fonts[i as int] == font@);
                assert(spec_fingerprints(fonts, i + 1).drop_last() =~= spec_fingerprints(
                    fonts,
                    i as int,
                ));
                assert(spec_fingerprints(fonts, i + 1).last() == hash);
            }
            match self.process_font(code.character_code, hash, &mut code_str, &mut found_font) {
                Ok(()) => {},
                Err(e) => {
                    proof {
                        lemma_lookup_failed(
                            map,
                            policy,
                            unknown,
                            spec_fingerprints(fonts, fonts.len() as int),
                            i + 1,
                        );
                        assert(spec_fingerprints(fonts, fonts.len() as int).take(i + 1)
                            =~= spec_fingerprints(fonts, i + 1));
                    }
                    return Err(e);
                },
            }
            i += 1;
        }
        if !found_font {
            code_str.push('\u{fffd}');
            proof {
                assert(code_str@ =~= seq!['\u{fffd}']);
            }
        }
        self.code_map.insert(code.character_code, code_str);
        proof {
            assert(self@.code_map =~= old(self)@.code_map.insert(
                code@.character_code,
                code_str@,
            ));
        }
        Ok(())
    }

    /// Takes in a DRCS data unit, as [`spec_process`] says.
    pub fn process(&mut self, data: &[u8]) -> (r: Result<(), CaptionError>)
        ensures
            final(self)@ == spec_process(old(self)@, data@).0,
            match spec_process(old(self)@, data@).1 {
                Some(e) => r == Err::<(), CaptionError>(e),
                None => r == Ok::<(), CaptionError>(()),
            },
    {
        let drcs = match DrcsDataStructure::parse(data) {
            Ok(drcs) => drcs,
            Err(e) => return Err(CaptionError::Parse(e)),
        };
        let ghost codes = drcs@;
        let mut i: usize = 0;
        proof {
            assert(codes.take(0) =~= Seq::<CodeView>::empty());
        }
        while i < drcs.codes.len()
            invariant
                i <= drcs.codes@.len(),
                codes == drcs@,
                codes.len() == drcs.codes@.len(),
                spec_drcs(data@) == Ok::<Seq<CodeView>, ParseError>(codes),
                spec_process_codes(old(self)@, codes.take(i as int)) == (self@, None::<CaptionError>),
            decreases drcs.codes@.len() - i,
        {
            proof {
                assert(codes[i as int] == drcs.codes@[i as int]@);
                assert(codes.take(i + 1).drop_last() =~= codes.take(i as int));
                assert(codes.take(i + 1).last() == codes[i as int]);
            }
            match self.process_code(&drcs.codes[i]) {
                Ok(()) => {},
                Err(e) => {
                    proof {
                        lemma_process_codes_failed(old(self)@, codes, i + 1);
                    }
                    return Err(e);
                },
            }
            i += 1;
        }
        proof {
            assert(codes.take(i as int) =~= codes);
        }
        Ok(())
    }

    /// The replacement of each character code defined so far.
    pub fn code_map(&self) -> (m: HashMap<u16, String>)
        ensures
            drcs_view(m@) == self@.code_map,
    {
        self.code_map.clone()
    }

    /// Forgets the character codes defined so far.
    pub fn clear_code_map(&mut self)
        ensures
            final(self)@ == (DRCSProcessorView { code_map: Map::empty(), ..old(self)@ }),
    {
        self.code_map.clear();
        proof {
            assert(self@.code_map =~= Map::<u16, Seq<char>>::empty());
        }
    }

    /// At the end of the stream: fails if unknown glyphs were met and are to
    /// fail then.
    pub fn report_error(self) -> (r: Result<(), CaptionError>)
        ensures
            self@.handle_drcs == HandleDRCS::ErrorExit && self@.unknown.len() > 0 ==> r == Err::<
                (),
                CaptionError,
            >(CaptionError::UnknownDrcsFonts(self@.unknown.len() as usize)),
            !(self@.handle_drcs == HandleDRCS::ErrorExit && self@.unknown.len() > 0) ==> r == Ok::<
                (),
                CaptionError,
            >(()),
    {
        if let HandleDRCS::ErrorExit = self.handle_drcs {
            let unknown = self.unknown.len();
            if unknown > 0 {
                return Err(CaptionError::UnknownDrcsFonts(unknown));
            }
        }
        Ok(())
    }
}

/// A look-up that has failed stays as it is, whatever fonts follow.
pub proof fn lemma_lookup_failed(
    map: Map<u128, Seq<char>>,
    policy: HandleDRCS,
    unknown: Set<u128>,
    hashes: Seq<u128>,
    n: int,
)
    requires
        0 <= n <= hashes.len(),
        spec_lookup(map, policy, unknown, hashes.take(n)).failed is Some,
    ensures
        spec_lookup(map, policy, unknown, hashes) == spec_lookup(map, policy, unknown, hashes.take(n)),
    decreases hashes.len(),
{
    if n < hashes.len() {
        assert(hashes.drop_last().take(n) =~= hashes.take(n));
        lemma_lookup_failed(map, policy, unknown, hashes.drop_last(), n);
    } else {
        assert(hashes.take(n) =~= hashes);
    }
}

/// Once a character code has failed, those after it are not taken in.
pub proof fn lemma_process_codes_failed(v: DRCSProcessorView, codes: Seq<CodeView>, n: int)
    requires
        0 <= n <= codes.len(),
        spec_process_codes(v, codes.take(n)).1 is Some,
    ensures
        spec_process_codes(v, codes) == spec_process_codes(v, codes.take(n)),
    decreases codes.len(),
{
    if n < codes.len() {
        assert(codes.drop_last().take(n) =~= codes.take(n));
        lemma_process_codes_failed(v, codes.drop_last(), n);
    } else {
        assert(codes.take(n) =~= codes);
    }
}


/// The data group in the payload of a PES packet of a caption stream.
pub open spec fn spec_caption_in(payload: Option<Seq<u8>>) -> Result<DataGroupView, CaptionError> {
    match payload {
        None => Err(CaptionError::UnknownPes),
        Some(payload) => match spec_pes_data(payload) {
            Err(e) => Err(CaptionError::Parse(e)),
            Ok(data) => match spec_data_group(data.pes_data_byte) {
                Err(e) => Err(CaptionError::Parse(e)),
                Ok(group) => Ok(group),
            },
        },
    }
}

/// The payload of a PES packet with the usual header.
pub open spec fn spec_sync_payload(pes: PESPacketView) -> Option<Seq<u8>> {
    match pes.body {
        PESPacketBodyView::NormalPESPacketBody(body) => Some(body.pes_packet_data_byte),
        _ => None,
    }
}

/// The payload of a PES packet of plain data bytes.
pub open spec fn spec_async_payload(pes: PESPacketView) -> Option<Seq<u8>> {
    match pes.body {
        PESPacketBodyView::DataBytes(bytes) => Some(bytes),
        _ => None,
    }
}

/// The data group that a PES packet of a caption stream carries: in a packet
/// of the stream id 0xBD behind the usual PES header, in one of the stream
/// id 0xBF right after the length field.
pub open spec fn spec_get_caption(pes: PESPacketView) -> Result<DataGroupView, CaptionError> {
    if pes.stream_id == SYNCHRONIZED_PES_STREAM_ID {
        spec_caption_in(spec_sync_payload(pes))
    } else if pes.stream_id == ASYNCHRONOUS_PES_STREAM_ID {
        spec_caption_in(spec_async_payload(pes))
    } else {
        Err(CaptionError::UnknownPes)
    }
}

/// The data units of a data group.
pub open spec fn spec_data_units(group: DataGroupView) -> Seq<DataUnitView> {
    match group.data_group_data {
        DataGroupDataView::CaptionManagementData(d) => d.data_units,
        DataGroupDataView::CaptionData(d) => d.data_units,
    }
}

/// What one data unit makes of the processor, the caption that it gives if
/// any, and the error if it fails.
///
/// A text is decoded with the registers of a caption text set afresh and
/// with the replacements of the character codes defined so far; an empty
/// text gives no caption. A unit of DRCS glyphs of one byte is taken in by
/// the processor. All other units are passed over.
pub open spec fn spec_dump_unit(
    v: DRCSProcessorView,
    tables: CodeTablesView,
    unit: DataUnitView,
    offset: u64,
) -> (DRCSProcessorView, Option<CaptionView>, Option<CaptionError>) {
    match unit.data_unit_parameter {
        DataUnitParameter::Text => match spec_decode(
            GraphicSets::caption_initial(),
            tables,
            v.code_map,
            unit.data_unit_data,
            0,
        ) {
            Err(e) => (v, None, Some(CaptionError::Decode(e))),
            Ok(text) => (
                v,
                if text.len() > 0 {
                    Some(
                        CaptionView {
                            time_sec: offset / PTS_HZ,
                            time_ms: ((offset % PTS_HZ) as int * 1000 / (PTS_HZ as int)) as u64,
                            caption: text,
                        },
                    )
                } else {
                    None
                },
                None,
            ),
        },
        DataUnitParameter::DRCS1 => (
            spec_process(v, unit.data_unit_data).0,
            None,
            spec_process(v, unit.data_unit_data).1,
        ),
        _ => (v, None, None),
    }
}

/// What the data units `units` make of the processor, in their order and up
/// to the first that fails, and the captions that they give.
pub open spec fn spec_dump_units(
    v: DRCSProcessorView,
    tables: CodeTablesView,
    units: Seq<DataUnitView>,
    offset: u64,
) -> (DRCSProcessorView, Seq<CaptionView>, Option<CaptionError>)
    decreases units.len(),
{
    if units.len() == 0 {
        (v, Seq::empty(), None)
    } else {
        let before = spec_dump_units(v, tables, units.drop_last(), offset);
        if before.2 is Some {
            before
        } else {
            let step = spec_dump_unit(before.0, tables, units.last(), offset);
            (
                step.0,
                match step.1 {
                    Some(caption) => before.1.push(caption),
                    None => before.1,
                },
                step.2,
            )
        }
    }
}

/// What the data units of one data group make of the processor: the
/// character codes defined by earlier data groups are forgotten first.
pub open spec fn spec_dump_caption(
    v: DRCSProcessorView,
    tables: CodeTablesView,
    units: Seq<DataUnitView>,
    offset: u64,
) -> (DRCSProcessorView, Seq<CaptionView>, Option<CaptionError>) {
    spec_dump_units(DRCSProcessorView { code_map: Map::empty(), ..v }, tables, units, offset)
}

/// What one reassembled PES packet of the caption stream makes of the
/// processor, and the captions that it gives. A packet that cannot be read,
/// has no time stamp, is due before `base_pts` or carries no data group is
/// passed over. A text that cannot be decoded ends the work on its data
/// group without an error; the other errors are given.
pub open spec fn spec_process_captions(
    v: DRCSProcessorView,
    tables: CodeTablesView,
    bytes: Seq<u8>,
    base_pts: u64,
) -> (DRCSProcessorView, Seq<CaptionView>, Option<CaptionError>) {
    match spec_pes_packet(bytes) {
        Err(_) => (v, Seq::empty(), None),
        Ok(pes) => {
            let pts = match pes.body {
                PESPacketBodyView::NormalPESPacketBody(body) => body.fields.pts,
                _ => None,
            };
            match pts {
                None => (v, Seq::empty(), None),
                Some(now) => if now < base_pts {
                    (v, Seq::empty(), None)
                } else {
                    match spec_get_caption(pes) {
                        Err(_) => (v, Seq::empty(), None),
                        Ok(group) => {
                            let done = spec_dump_caption(
                                v,
                                tables,
                                spec_data_units(group),
                                (now - base_pts) as u64,
                            );
                            (
                                done.0,
                                done.1,
                                match done.2 {
                                    Some(CaptionError::Decode(_)) => None,
                                    other => other,
                                },
                            )
                        },
                    }
                },
            }
        },
    }
}

/// Each caption text is decoded on its own: a text leaves the processor as
/// it was, and what it gives is what the registers of a caption text, set
/// afresh, make of its bytes, whatever was decoded before.
pub proof fn lemma_texts_are_decoded_afresh(
    v: DRCSProcessorView,
    tables: CodeTablesView,
    unit: DataUnitView,
    offset: u64,
)
    requires
        unit.data_unit_parameter == DataUnitParameter::Text,
    ensures
        spec_dump_unit(v, tables, unit, offset).0 == v,
        match spec_decode(
            GraphicSets::caption_initial(),
            tables,
            v.code_map,
            unit.data_unit_data,
            0,
        ) {
            Ok(text) => {
                &&& spec_dump_unit(v, tables, unit, offset).2 is None
                &&& text.len() > 0 ==> spec_dump_unit(v, tables, unit, offset).1 is Some
                    && spec_dump_unit(v, tables, unit, offset).1->0.caption == text
                &&& text.len() == 0 ==> spec_dump_unit(v, tables, unit, offset).1 is None
            },
            Err(e) => spec_dump_unit(v, tables, unit, offset).2 == Some(CaptionError::Decode(e)),
        },
{
}

/// Once a data unit has failed, those after it are not looked at.
pub proof fn lemma_dump_units_failed(
    v: DRCSProcessorView,
    tables: CodeTablesView,
    units: Seq<DataUnitView>,
    offset: u64,
    n: int,
)
    requires
        0 <= n <= units.len(),
        spec_dump_units(v, tables, units.take(n), offset).2 is Some,
    ensures
        spec_dump_units(v, tables, units, offset) == spec_dump_units(
            v,
            tables,
            units.take(n),
            offset,
        ),
    decreases units.len(),
{
    if n < units.len() {
        assert(units.drop_last().take(n) =~= units.take(n));
        lemma_dump_units_failed(v, tables, units.drop_last(), offset, n);
    } else {
        assert(units.take(n) =~= units);
    }
}

/// Reads the data group out of a PES packet with the usual header.
pub fn sync_caption<'a>(pes: &PESPacket<'a>) -> (r: Result<DataGroup<'a>, CaptionError>)
    ensures
        match spec_caption_in(spec_sync_payload(pes@)) {
            Ok(v) => r matches Ok(g) && g@ == v,
            Err(e) => r matches Err(x) && x == e,
        },
{
    if let PESPacketBody::NormalPESPacketBody(ref body) = pes.body {
        let data = match SynchronizedPESData::parse(body.pes_packet_data_byte) {
            Ok(data) => data,
            Err(e) => return Err(CaptionError::Parse(e)),
        };
        match DataGroup::parse(data.synchronized_pes_data_byte) {
            Ok(group) => Ok(group),
            Err(e) => Err(CaptionError::Parse(e)),
        }
    } else {
        Err(CaptionError::UnknownPes)
    }
}

/// Reads the data group out of a PES packet of plain data bytes.
pub fn async_caption<'a>(pes: &PESPacket<'a>) -> (r: Result<DataGroup<'a>, CaptionError>)
    ensures
        match spec_caption_in(spec_async_payload(pes@)) {
            Ok(v) => r matches Ok(g) && g@ == v,
            Err(e) => r matches Err(x) && x == e,
        },
{
    if let PESPacketBody::DataBytes(bytes) = pes.body {
        let data = match AsynchronousPESData::parse(bytes) {
            Ok(data) => data,
            Err(e) => return Err(CaptionError::Parse(e)),
        };
        match DataGroup::parse(data.asynchronous_pes_data_byte) {
            Ok(group) => Ok(group),
            Err(e) => Err(CaptionError::Parse(e)),
        }
    } else {
        Err(CaptionError::UnknownPes)
    }
}

/// Reads the data group that a PES packet of a caption stream carries, as
/// [`spec_get_caption`] says.
pub fn get_caption<'a>(pes: &PESPacket<'a>) -> (r: Result<DataGroup<'a>, CaptionError>)
    ensures
        match spec_get_caption(pes@) {
            Ok(v) => r matches Ok(g) && g@ == v,
            Err(e) => r matches Err(x) && x == e,
        },
{
    match pes.stream_id {
        SYNCHRONIZED_PES_STREAM_ID => sync_caption(pes),
        ASYNCHRONOUS_PES_STREAM_ID => async_caption(pes),
        _ => Err(CaptionError::UnknownPes),
    }
}

/// Works off the data units of one data group, as [`spec_dump_caption`]
/// says: the processor changes as the units say, and the captions that they
/// give go to the end of `out`, also those before a unit that fails.
pub fn dump_caption<'a>(
    data_units: &Vec<DataUnit<'a>>,
    offset: u64,
    drcs_processor: &mut DRCSProcessor,
    tables: &CodeTables,
    out: &mut Vec<Caption>,
) -> (r: Result<(), CaptionError>)
    ensures
        final(drcs_processor)@ == spec_dump_caption(
            old(drcs_processor)@,
            tables@,
            views(data_units@),
            offset,
        ).0,
        views(final(out)@) == views(old(out)@) + spec_dump_caption(
            old(drcs_processor)@,
            tables@,
            views(data_units@),
            offset,
        ).1,
        match spec_dump_caption(old(drcs_processor)@, tables@, views(data_units@), offset).2 {
            Some(e) => r == Err::<(), CaptionError>(e),
            None => r == Ok::<(), CaptionError>(()),
        },
{
    drcs_processor.clear_code_map();
    let ghost start = drcs_processor@;
    let ghost units = views(data_units@);
    let mut i: usize = 0;
    proof {
        assert(units.take(0) =~= Seq::<DataUnitView>::empty());
        assert(views(out@) + Seq::<CaptionView>::empty() =~= views(out@));
    }
    while i < data_units.len()
        invariant
            i <= data_units@.len(),
            units == views(data_units@),
            units.len() == data_units@.len(),
            start == (DRCSProcessorView { code_map: Map::empty(), ..old(drcs_processor)@ }),
            spec_dump_units(start, tables@, units.take(i as int), offset).0 == drcs_processor@,
            views(out@) == views(old(out)@) + spec_dump_units(
                start,
                tables@,
                units.take(i as int),
                offset,
            ).1,
            spec_dump_units(start, tables@, units.take(i as int), offset).2 is None,
        decreases data_units@.len() - i,
    {
        let du = &data_units[i];
        let ghost before = spec_dump_units(start, tables@, units.take(i as int), offset);
        proof {
            assert(units[i as int] == du@);
            assert(units.take(i + 1).drop_last() =~= units.take(i as int));
            assert(units.take(i + 1).last() == units[i as int]);
        }
        match &du.data_unit_parameter {
            DataUnitParameter::Text => {
                let mut decoder = AribDecoder::with_caption_initialization();
                decoder.set_drcs(drcs_processor.code_map());
                let caption_string = match decoder.decode(du.data_unit_data, tables) {
                    Ok(s) => s,
                    Err(e) => {
                        proof {
                            lemma_dump_units_failed(start, tables@, units, offset, i + 1);
                        }
                        return Err(CaptionError::Decode(e));
                    },
                };
                if !caption_string.as_str().is_empty() {
                    let caption = Caption {
                        time_sec: offset / PTS_HZ,
                        time_ms: offset % PTS_HZ * 1000 / PTS_HZ,
                        caption: caption_string,
                    };
                    proof {
                        assert(views(out@.push(caption)) =~= views(out@).push(caption@));
                        assert(views(old(out)@) + before.1.push(caption@) =~= (views(old(out)@)
                            + before.1).push(caption@));
                    }
                    out.push(caption);
                }
            },
            DataUnitParameter::DRCS1 => {
                match drcs_processor.process(du.data_unit_data) {
                    Ok(()) => {},
                    Err(e) => {
                        proof {
                            lemma_dump_units_failed(start, tables@, units, offset, i + 1);
                        }
                        return Err(e);
                    },
                }
            },
            _ => {},
        }
        i += 1;
    }
    proof {
        assert(units.take(i as int) =~= units);
    }
    Ok(())
}

/// Works off one reassembled PES packet of the caption stream, as
/// [`spec_process_captions`] says.
pub fn process_captions(
    bytes: &[u8],
    base_pts: u64,
    drcs_processor: &mut DRCSProcessor,
    tables: &CodeTables,
    out: &mut Vec<Caption>,
) -> (r: Result<(), CaptionError>)
    ensures
        final(drcs_processor)@ == spec_process_captions(
            old(drcs_processor)@,
            tables@,
            bytes@,
            base_pts,
        ).0,
        views(final(out)@) == views(old(out)@) + spec_process_captions(
            old(drcs_processor)@,
            tables@,
            bytes@,
            base_pts,
        ).1,
        match spec_process_captions(old(drcs_processor)@, tables@, bytes@, base_pts).2 {
            Some(e) => r == Err::<(), CaptionError>(e),
            None => r == Ok::<(), CaptionError>(()),
        },
{
    proof {
        assert(views(out@) + Seq::<CaptionView>::empty() =~= views(out@));
    }
    let pes = match PESPacket::parse(bytes) {
        Ok(pes) => pes,
        Err(_) => return Ok(()),
    };
    let offset = match pes.get_pts() {
        Some(now) => {
            // a caption that is due before the first picture is left out
            if now < base_pts {
                return Ok(());
            }
            now - base_pts
        },
        None => return Ok(()),
    };
    let dg = match get_caption(&pes) {
        Ok(dg) => dg,
        Err(_) => return Ok(()),
    };
    let data_units = match dg.data_group_data {
        DataGroupData::CaptionManagementData(ref cmd) => &cmd.data_units,
        DataGroupData::CaptionData(ref cd) => &cd.data_units,
    };
    match dump_caption(data_units, offset, drcs_processor, tables, out) {
        // a text that cannot be decoded costs its data group, not the stream
        Err(CaptionError::Decode(_)) => Ok(()),
        done => done,
    }
}

/// The mark of the dot in the column `x` of the row `y` of a glyph: a blank
/// for the value zero, else the digit of the value. Two bits hold a dot,
/// four dots fill a byte from the top bits down, and the rows follow one
/// another without gaps.
pub open spec fn spec_dot(font: FontView, x: int, y: int) -> char {
    let pos = x + y * font.width;
    if pos / 4 < font.pattern_data.len() {
        let v = spec_bits(font.pattern_data[pos / 4], (6 - pos % 4 * 2) as nat, 2);
        if v > 0 {
            (0x30 + v) as char
        } else {
            ' '
        }
    } else {
        ' '
    }
}

/// The row `y` of a glyph as text.
pub open spec fn spec_aa_line(font: FontView, y: int) -> Seq<char> {
    Seq::new(font.width as nat, |x: int| spec_dot(font, x, y))
}

/// Draws a glyph as lines of text, one for each row, as [`spec_dot`] says.
pub fn print_aa(font: &Font) -> (lines: Vec<String>)
    ensures
        lines@.len() == font.height,
        forall|y: int| 0 <= y < font.height ==> (#[trigger] lines@[y])@ == spec_aa_line(font@, y),
{
    let mut lines: Vec<String> = Vec::new();
    let mut y: u8 = 0;
    while y < font.height
        invariant
            y <= font.height,
            lines@.len() == y,
            forall|k: int| 0 <= k < y ==> (#[trigger] lines@[k])@ == spec_aa_line(font@, k),
        decreases font.height - y,
    {
        let mut aa = String::new();
        let mut x: u8 = 0;
        while x < font.width
            invariant
                x <= font.width,
                y < font.height,
                aa@ == Seq::new(x as nat, |k: int| spec_dot(font@, k, y as int)),
            decreases font.width - x,
        {
            assert(y * font.width <= 255 * 255) by (nonlinear_arith)
                requires
                    y <= 255,
                    font.width <= 255,
            ;
            let pos = x as usize + y as usize * font.width as usize;
            let dot = if pos / 4 < font.pattern_data.len() {
                let data = font.pattern_data[pos / 4];
                let shift = 6 - (pos % 4) as u8 * 2;
                let v = bits(data, shift, 2);
                if v > 0 {
                    (0x30 + v) as char
                } else {
                    ' '
                }
            } else {
                ' '
            };
            aa.push(dot);
            x += 1;
            proof {
                assert(aa@ =~= Seq::new(x as nat, |k: int| spec_dot(font@, k, y as int)));
            }
        }
        lines.push(aa);
        y += 1;
    }
    lines
}

} // verus!
