use arib_ts::arib::caption::{
    is_caption, is_caption_component, is_non_partial_reception_caption, CaptionData,
    CaptionManagementData, Code, DataGroup, DataGroupData, DataUnit, DataUnitParameter,
    DrcsDataStructure, Font, Language, RollupMode, Time, TCS, TMD,
};
use arib_ts::arib::pes::{AsynchronousPESData, SynchronizedPESData};
use arib_ts::error::ParseError;
use arib_ts::psi::descriptor::Descriptor;
use arib_ts::psi::pmt::StreamInfo;

fn unit(parameter: u8, data: &[u8]) -> Vec<u8> {
    let mut b = vec![0x1f, parameter, 0, (data.len() >> 8) as u8, data.len() as u8];
    b.extend_from_slice(data);
    b
}

fn with_loop(head: &[u8], units: &[Vec<u8>]) -> Vec<u8> {
    let n: usize = units.iter().map(|u| u.len()).sum();
    let mut b = head.to_vec();
    b.extend_from_slice(&[0, (n >> 8) as u8, n as u8]);
    for u in units {
        b.extend_from_slice(u);
    }
    b
}

fn group(id: u8, data: &[u8]) -> Vec<u8> {
    let mut b = vec![(id << 2) | 1, 2, 3, (data.len() >> 8) as u8, data.len() as u8];
    b.extend_from_slice(data);
    b.extend_from_slice(&[0xab, 0xcd]);
    b
}

#[test]
fn caption_payloads() {
    let bytes = [0x80, 0xff, 0xf2, 0xaa, 0xbb, 1, 2, 3];
    let s = SynchronizedPESData::parse(&bytes).unwrap();
    assert_eq!(s.data_identifier, 0x80);
    assert_eq!(s.private_stream_id, 0xff);
    assert_eq!(s.pes_data_private_data_byte, &[0xaa, 0xbb]);
    assert_eq!(s.synchronized_pes_data_byte, &[1, 2, 3]);
    let a = AsynchronousPESData::parse(&[0x81, 0xff, 0xf0]).unwrap();
    assert_eq!(a.data_identifier, 0x81);
    assert_eq!(a.pes_data_private_data_byte, &[] as &[u8]);
    assert_eq!(a.asynchronous_pes_data_byte, &[] as &[u8]);
    assert_eq!(SynchronizedPESData::parse(&[0x80, 0xff]).err(), Some(ParseError::TooShort));
    assert_eq!(AsynchronousPESData::parse(&[0x81, 0xff, 0xf3, 1, 2]).err(), Some(ParseError::TooShort));
}

#[test]
fn data_group_of_caption_data() {
    let data = with_loop(&[0x3f], &[unit(0x20, &[0xa4, 0xa6]), unit(0x30, &[0])]);
    let bytes = group(1, &data);
    let g = DataGroup::parse(&bytes).unwrap();
    assert_eq!(g.data_group_id, 1);
    assert_eq!(g.data_group_version, 1);
    assert_eq!(g.data_group_link_number, 2);
    assert_eq!(g.last_data_group_link_number, 3);
    assert_eq!(g.crc16, 0xabcd);
    match g.data_group_data {
        DataGroupData::CaptionData(d) => {
            assert_eq!(d.tmd, TMD::Free);
            assert_eq!(d.stm, None);
            assert_eq!(d.data_units.len(), 2);
            assert_eq!(d.data_units[0].unit_separator, 0x1f);
            assert_eq!(d.data_units[0].data_unit_parameter, DataUnitParameter::Text);
            assert_eq!(d.data_units[0].data_unit_data, &[0xa4, 0xa6]);
            assert_eq!(d.data_units[1].data_unit_parameter, DataUnitParameter::DRCS1);
        }
        _ => panic!("caption data is expected"),
    }
}

#[test]
fn caption_data_with_a_time() {
    let data = with_loop(&[0x7f, 0x01, 0x23, 0x45, 0x67, 0x8f], &[]);
    let d = CaptionData::parse(&data).unwrap();
    assert_eq!(d.tmd, TMD::RealTime);
    assert_eq!(d.stm, Some(Time { h: 1, m: 23, s: 45, ms: 678 }));
    assert!(d.data_units.is_empty());
    assert_eq!(CaptionData::parse(&data[..8]).err(), Some(ParseError::TooShort));
    assert_eq!(CaptionData::parse(&[0x7f, 0, 0, 0]).err(), Some(ParseError::TooShort));
    assert_eq!(CaptionData::parse(&[]).err(), Some(ParseError::TooShort));
}

#[test]
fn data_group_of_caption_management_data() {
    let data = with_loop(
        &[0xbf, 0x00, 0x00, 0x10, 0x50, 0x0f, 2, 0x1c, 0x07, b'j', b'p', b'n', 0x00, 0x30, b'e', b'n',
            b'g', 0x00],
        &[unit(0x35, &[])],
    );
    for id in [0x00, 0x20] {
        let bytes = group(id, &data);
        let g = DataGroup::parse(&bytes).unwrap();
        assert_eq!(g.data_group_id, id);
        match g.data_group_data {
            DataGroupData::CaptionManagementData(d) => {
                assert_eq!(d.tmd, TMD::OffsetTime);
                assert_eq!(d.otm, Some(Time { h: 0, m: 0, s: 10, ms: 500 }));
                assert_eq!(d.languages.len(), 2);
                let l0 = &d.languages[0];
                assert_eq!(l0.language_tag, 0);
                assert_eq!(l0.dmf, 0b1100);
                assert_eq!(l0.dc, Some(0x07));
                assert_eq!(l0.iso_639_language_code, "jpn");
                assert_eq!(l0.format, 3);
                assert_eq!(l0.tcs, TCS::Char8);
                assert_eq!(l0.rollup_mode, RollupMode::NonRollup);
                let l1 = &d.languages[1];
                assert_eq!(l1.language_tag, 1);
                assert_eq!(l1.dmf, 0);
                assert_eq!(l1.dc, None);
                assert_eq!(l1.iso_639_language_code, "eng");
                assert_eq!(l1.format, 0);
                assert_eq!(l1.tcs, TCS::Char8);
                assert_eq!(l1.rollup_mode, RollupMode::NonRollup);
                assert_eq!(d.data_units.len(), 1);
                assert_eq!(d.data_units[0].data_unit_parameter, DataUnitParameter::BitMap);
            }
            _ => panic!("caption management data is expected"),
        }
    }
}

#[test]
fn caption_management_data_errors() {
    assert_eq!(CaptionManagementData::parse(&[]).err(), Some(ParseError::TooShort));
    assert_eq!(CaptionManagementData::parse(&[0x3f]).err(), Some(ParseError::TooShort));
    // a language that is cut short
    assert_eq!(CaptionManagementData::parse(&[0x3f, 1, 0x00, b'j']).err(), Some(ParseError::TooShort));
    assert_eq!(
        CaptionManagementData::parse(&[0x3f, 1, 0x00, 0xff, b'p', b'n', 0, 0]).err(),
        Some(ParseError::InvalidLanguageCode)
    );
    // no room for the length of the data units
    assert_eq!(CaptionManagementData::parse(&[0x3f, 0, 0, 0]).err(), Some(ParseError::TooShort));
    assert_eq!(
        CaptionManagementData::parse(&[0x3f, 1, 0x00, b'j', b'p', b'n', 0, 0]).err(),
        Some(ParseError::TooShort)
    );
    let ok = CaptionManagementData::parse(&[0x3f, 0, 0, 0, 0]).unwrap();
    assert_eq!(ok.tmd, TMD::Free);
    assert!(ok.languages.is_empty() && ok.data_units.is_empty());
}

#[test]
fn data_group_errors() {
    let data = with_loop(&[0x3f], &[unit(0x20, &[1])]);
    let bytes = group(1, &data);
    assert_eq!(DataGroup::parse(&bytes[..4]).err(), Some(ParseError::TooShort));
    assert_eq!(DataGroup::parse(&bytes[..bytes.len() - 1]).err(), Some(ParseError::TooShort));
    let unknown = group(1, &with_loop(&[0x3f], &[unit(0x21, &[1])]));
    assert_eq!(DataGroup::parse(&unknown).err(), Some(ParseError::InvalidCode));
}

#[test]
fn data_units() {
    let bytes = unit(0x28, &[1, 2, 3]);
    let (u, n) = DataUnit::parse(&bytes).unwrap();
    assert_eq!(n, 8);
    assert_eq!(u.data_unit_parameter, DataUnitParameter::Geometric);
    assert_eq!(u.data_unit_data, &[1, 2, 3]);
    assert_eq!(DataUnit::parse(&bytes[..7]).err(), Some(ParseError::TooShort));
    assert_eq!(DataUnit::parse(&bytes[..4]).err(), Some(ParseError::TooShort));
    assert_eq!(DataUnitParameter::from(0x20), Some(DataUnitParameter::Text));
    assert_eq!(DataUnitParameter::from(0x28), Some(DataUnitParameter::Geometric));
    assert_eq!(DataUnitParameter::from(0x2c), Some(DataUnitParameter::AdditionalSound));
    assert_eq!(DataUnitParameter::from(0x30), Some(DataUnitParameter::DRCS1));
    assert_eq!(DataUnitParameter::from(0x31), Some(DataUnitParameter::DRCS2));
    assert_eq!(DataUnitParameter::from(0x34), Some(DataUnitParameter::ColorMap));
    assert_eq!(DataUnitParameter::from(0x35), Some(DataUnitParameter::BitMap));
    assert_eq!(DataUnitParameter::from(0x36), None);
    let mut two = unit(0x20, &[1]);
    two.extend_from_slice(&unit(0x31, &[]));
    assert_eq!(DataUnit::parse_all(&two).unwrap().len(), 2);
    assert!(DataUnit::parse_all(&[]).unwrap().is_empty());
}

#[test]
fn small_code_lists() {
    assert_eq!(TMD::from(0), TMD::Free);
    assert_eq!(TMD::from(1), TMD::RealTime);
    assert_eq!(TMD::from(2), TMD::OffsetTime);
    assert_eq!(TMD::from(3), TMD::Reserved);
    assert_eq!(TCS::from(0), TCS::Char8);
    assert_eq!(TCS::from(1), TCS::UCS);
    assert_eq!(TCS::from(2), TCS::Reseved);
    assert_eq!(TCS::from(3), TCS::Reseved);
    assert_eq!(RollupMode::from(0), RollupMode::NonRollup);
    assert_eq!(RollupMode::from(1), RollupMode::Rollup);
    assert_eq!(RollupMode::from(2), RollupMode::Reseved);
    assert_eq!(Time::bcd2(0x42), 42);
    assert_eq!(Time::parse(&[0x23, 0x59, 0x59, 0x99, 0x9f], 0), Time { h: 23, m: 59, s: 59, ms: 999 });
}

#[test]
fn languages() {
    let (l, n) = Language::parse(&[0xff, 0x2f, b'j', b'p', b'n', 0x00, 0xa6], 1).unwrap();
    assert_eq!(n, 6);
    assert_eq!(l.language_tag, 1);
    assert_eq!(l.dmf, 0xf);
    assert_eq!(l.dc, None);
    assert_eq!(l.iso_639_language_code, "jpn");
    assert_eq!(l.format, 0xa);
    assert_eq!(l.tcs, TCS::UCS);
    assert_eq!(l.rollup_mode, RollupMode::Reseved);
    let (all, end) = Language::parse_n(
        &[0x0e, 1, b'a', b'b', b'c', 0, 0x20, b'x', b'y', b'z', 0, 0x05],
        0,
        2,
    )
    .unwrap();
    assert_eq!(end, 11);
    assert_eq!(all[0].dc, Some(1));
    assert_eq!(all[0].iso_639_language_code, "abc");
    assert_eq!(all[0].format, 2);
    assert_eq!(all[1].iso_639_language_code, "xyz");
    assert_eq!(all[1].rollup_mode, RollupMode::Rollup);
    assert_eq!(
        Language::parse(&[0x0e, 1, b'a', b'b', b'c', 0], 0).err(),
        Some(ParseError::TooShort)
    );
    assert_eq!(Language::parse(&[0x0e], 0).err(), Some(ParseError::TooShort));
    assert_eq!(Language::parse(&[], 0).err(), Some(ParseError::TooShort));
}

#[test]
fn drcs_glyphs() {
    let bytes = [
        2, 0x41, 0x21, 2, 0x31, 2, 4, 2, 0xaa, 0xbb, 0x51, 2, 2, 2, 0xcc, 0x41, 0x22, 0,
    ];
    let d = DrcsDataStructure::parse(&bytes).unwrap();
    assert_eq!(d.codes.len(), 2);
    assert_eq!(d.codes[0].character_code, 0x4121);
    assert_eq!(d.codes[0].fonts.len(), 2);
    let f = &d.codes[0].fonts[0];
    assert_eq!((f.font_id, f.depth, f.width, f.height), (3, 2, 4, 2));
    assert_eq!(f.pattern_data, &[0xaa, 0xbb]);
    let f = &d.codes[0].fonts[1];
    assert_eq!((f.font_id, f.depth, f.width, f.height), (5, 2, 2, 2));
    assert_eq!(f.pattern_data, &[0xcc]);
    assert_eq!(d.codes[1].character_code, 0x4122);
    assert!(d.codes[1].fonts.is_empty());
    assert!(DrcsDataStructure::parse(&[0]).unwrap().codes.is_empty());
}

#[test]
fn drcs_errors() {
    assert_eq!(DrcsDataStructure::parse(&[]).err(), Some(ParseError::TooShort));
    assert_eq!(DrcsDataStructure::parse(&[1, 0x41]).err(), Some(ParseError::TooShort));
    assert_eq!(
        DrcsDataStructure::parse(&[1, 0x41, 0x21, 1, 0x02, 2, 4, 2, 0, 0]).err(),
        Some(ParseError::InvalidDrcsMode)
    );
    assert_eq!(
        DrcsDataStructure::parse(&[1, 0x41, 0x21, 1, 0x01, 4, 4, 2, 0, 0]).err(),
        Some(ParseError::InvalidDrcsDepth)
    );
    assert_eq!(
        DrcsDataStructure::parse(&[1, 0x41, 0x21, 1, 0x01, 2, 4, 2, 0]).err(),
        Some(ParseError::TooShort)
    );
    assert_eq!(Font::parse(&[0x01, 2, 4], 0).err(), Some(ParseError::TooShort));
    assert_eq!(Code::parse(&[0x41, 0x21, 1], 0).err(), Some(ParseError::TooShort));
    // a pattern of 36 by 36 dots takes 324 bytes
    assert_eq!(Font::parse(&[9, 0x71, 2, 36, 36, 1, 2], 1).err(), Some(ParseError::TooShort));
    let bytes = [9, 0x71, 2, 1, 7, 0xee, 2];
    let (font, end) = Font::parse(&bytes, 1).unwrap();
    assert_eq!(end, 6);
    assert_eq!((font.font_id, font.width, font.height), (7, 1, 7));
    assert_eq!(font.pattern_data, &[0xee]);
}

#[test]
fn caption_streams_are_told_by_their_component_tag() {
    assert!(is_non_partial_reception_caption(0x30));
    assert!(is_non_partial_reception_caption(0x3f));
    assert!(!is_non_partial_reception_caption(0x2f));
    assert!(!is_non_partial_reception_caption(0x40));
    let (tagged, _) = Descriptor::parse(&[0x52, 1, 0x38]).unwrap();
    assert!(is_caption_component(&tagged));
    let (other, _) = Descriptor::parse(&[0x52, 1, 0x87]).unwrap();
    assert!(!is_caption_component(&other));
    let (unknown, _) = Descriptor::parse(&[0xfd, 1, 0x38]).unwrap();
    assert!(!is_caption_component(&unknown));
    let caption = [0x06, 0xe1, 0x30, 0xf0, 0x06, 0xfd, 1, 0x38, 0x52, 1, 0x30];
    assert!(is_caption(&StreamInfo::parse(&caption).unwrap().0));
    let superimpose = [0x06, 0xe1, 0x38, 0xf0, 0x03, 0x52, 1, 0x87];
    assert!(!is_caption(&StreamInfo::parse(&superimpose).unwrap().0));
    let video = [0x02, 0xe1, 0x11, 0xf0, 0x03, 0x52, 1, 0x30];
    assert!(!is_caption(&StreamInfo::parse(&video).unwrap().0));
    let bare = [0x06, 0xe1, 0x30, 0xf0, 0x00];
    assert!(!is_caption(&StreamInfo::parse(&bare).unwrap().0));
}
