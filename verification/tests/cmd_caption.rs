use arib_ts::arib::caption::{DataUnit, DrcsDataStructure, Font};
use arib_ts::arib::string::{Charset, CodeTables, Error};
use arib_ts::cmd::caption::{
    async_caption, dump_caption, fingerprint, get_caption, print_aa, process_captions,
    sync_caption, Caption, CaptionError, DRCSProcessor, HandleDRCS,
};
use arib_ts::error::ParseError;
use arib_ts::pes::PESPacket;
use std::collections::HashMap;

fn caption_tables() -> CodeTables {
    let mut t = CodeTables::new();
    t.set_kanji(0x13021, vec!['\u{4e9c}']);
    t
}

fn caption_unit(parameter: u8, data: &[u8]) -> Vec<u8> {
    let mut b = vec![0x1f, parameter, 0, (data.len() >> 8) as u8, data.len() as u8];
    b.extend_from_slice(data);
    b
}

fn caption_group(units: &[Vec<u8>]) -> Vec<u8> {
    let n: usize = units.iter().map(|u| u.len()).sum();
    let mut data = vec![0x3f, 0, (n >> 8) as u8, n as u8];
    for u in units {
        data.extend_from_slice(u);
    }
    let mut b = vec![0x04, 0, 0, (data.len() >> 8) as u8, data.len() as u8];
    b.extend_from_slice(&data);
    b.extend_from_slice(&[0, 0]);
    b
}

fn caption_pes(pts: u64, units: &[Vec<u8>]) -> Vec<u8> {
    let mut b = vec![0, 0, 1, 0xbd, 0, 0, 0x80, 0x80, 5];
    b.extend_from_slice(&[
        0x21 | ((pts >> 29) & 0x0e) as u8,
        (pts >> 22) as u8,
        ((pts >> 14) & 0xfe) as u8 | 1,
        (pts >> 7) as u8,
        ((pts << 1) & 0xfe) as u8 | 1,
    ]);
    b.extend_from_slice(&[0x80, 0xff, 0xf0]);
    b.extend_from_slice(&caption_group(units));
    b
}

const GLYPH_A: [u8; 4] = [0x55; 4];
const GLYPH_B: [u8; 4] = [0xaa; 4];

fn drcs_unit(codes: &[(u16, &[&[u8; 4]])]) -> Vec<u8> {
    let mut d = vec![codes.len() as u8];
    for (code, glyphs) in codes {
        d.extend_from_slice(&[(code >> 8) as u8, *code as u8, glyphs.len() as u8]);
        for g in *glyphs {
            d.extend_from_slice(&[0x01, 2, 4, 4]);
            d.extend_from_slice(&g[..]);
        }
    }
    d
}

fn processor(policy: HandleDRCS) -> DRCSProcessor {
    let mut map = HashMap::new();
    map.insert(fingerprint(&GLYPH_A), String::from("(A)"));
    let mut p = DRCSProcessor::new(policy);
    p.load_map(map);
    p
}

#[test]
fn fingerprint_is_the_md5_digest_read_from_its_low_byte() {
    assert_eq!(fingerprint(&[]), 0x7e42f8ec980980e904b2008fd98c1dd4);
    assert_eq!(fingerprint(&GLYPH_A), 0xd4d06a8e70b993c1f64729a203233fc6);
    assert_ne!(fingerprint(&GLYPH_A), fingerprint(&GLYPH_B));
}

#[test]
fn known_glyphs_are_replaced() {
    let mut p = processor(HandleDRCS::FailFast);
    assert_eq!(p.process(&drcs_unit(&[(0x4121, &[&GLYPH_A]), (0x4122, &[&GLYPH_A, &GLYPH_A])])), Ok(()));
    let codes = p.code_map();
    assert_eq!(codes.len(), 2);
    assert_eq!(codes[&0x4121], "(A)");
    assert_eq!(codes[&0x4122], "(A)(A)");
    p.clear_code_map();
    assert!(p.code_map().is_empty());
    assert_eq!(p.report_error(), Ok(()));
}

#[test]
fn unknown_glyphs_follow_the_policy() {
    let unit = drcs_unit(&[(0x4121, &[&GLYPH_B]), (0x4122, &[&GLYPH_B, &GLYPH_A]), (0x4123, &[])]);

    let mut ignore = processor(HandleDRCS::Ignore);
    assert_eq!(ignore.process(&unit), Ok(()));
    let codes = ignore.code_map();
    assert_eq!(codes[&0x4121], "\u{fffd}");
    assert_eq!(codes[&0x4122], "(A)");
    assert_eq!(codes[&0x4123], "\u{fffd}");
    assert_eq!(ignore.report_error(), Ok(()));

    let mut fail_fast = processor(HandleDRCS::FailFast);
    assert_eq!(
        fail_fast.process(&unit),
        Err(CaptionError::UnknownDrcs(0x4121, fingerprint(&GLYPH_B)))
    );
    assert!(fail_fast.code_map().is_empty());
    assert_eq!(fail_fast.report_error(), Ok(()));

    let mut error_exit = processor(HandleDRCS::ErrorExit);
    assert_eq!(error_exit.process(&unit), Ok(()));
    assert_eq!(error_exit.process(&drcs_unit(&[(0x4124, &[&[1, 2, 3, 4]])])), Ok(()));
    assert_eq!(error_exit.code_map().len(), 4);
    // two different glyphs were unknown
    assert_eq!(error_exit.report_error(), Err(CaptionError::UnknownDrcsFonts(2)));
}

#[test]
fn drcs_unit_that_cannot_be_read_changes_nothing() {
    let mut p = processor(HandleDRCS::Ignore);
    assert_eq!(p.process(&[1, 0x41]), Err(CaptionError::Parse(ParseError::TooShort)));
    assert_eq!(
        p.process(&[1, 0x41, 0x21, 1, 0x02, 2, 4, 4, 0, 0, 0, 0]),
        Err(CaptionError::Parse(ParseError::InvalidDrcsMode))
    );
    assert!(p.code_map().is_empty());
}

#[test]
fn one_font_and_one_code_at_a_time() {
    let mut p = processor(HandleDRCS::FailFast);
    let mut text = String::from("x");
    let mut found = false;
    assert_eq!(p.process_font(0x4121, fingerprint(&GLYPH_A), &mut text, &mut found), Ok(()));
    assert_eq!(text, "x(A)");
    assert!(found);
    assert_eq!(
        p.process_font(0x4121, 7, &mut text, &mut found),
        Err(CaptionError::UnknownDrcs(0x4121, 7))
    );
    assert_eq!(text, "x(A)");
    let bytes = drcs_unit(&[(0x4125, &[&GLYPH_A])]);
    let drcs = DrcsDataStructure::parse(&bytes).unwrap();
    assert_eq!(p.process_code(&drcs.codes[0]), Ok(()));
    assert_eq!(p.code_map()[&0x4125], "(A)");
}

fn captions_of(out: &[Caption]) -> Vec<(u64, u64, &str)> {
    out.iter().map(|c| (c.time_sec, c.time_ms, c.caption.as_str())).collect()
}

#[test]
fn captions_carry_the_time_since_the_first_picture() {
    let mut p = processor(HandleDRCS::ErrorExit);
    let mut out = Vec::new();
    let bytes = caption_pes(90000 + 3 * 90000 + 45000, &[caption_unit(0x20, &[0xa4, 0xa6])]);
    assert_eq!(process_captions(&bytes, 90000, &mut p, &caption_tables(), &mut out), Ok(()));
    assert_eq!(captions_of(&out), vec![(3, 500, "\u{3044}\u{3046}")]);
    let bytes = caption_pes(90000 + 89999, &[caption_unit(0x20, &[0xa2])]);
    assert_eq!(process_captions(&bytes, 90000, &mut p, &caption_tables(), &mut out), Ok(()));
    assert_eq!(captions_of(&out)[1], (0, 999, "\u{3042}"));
    let bytes = caption_pes(90000, &[caption_unit(0x20, &[0xa2])]);
    assert_eq!(process_captions(&bytes, 90000, &mut p, &caption_tables(), &mut out), Ok(()));
    assert_eq!(captions_of(&out)[2], (0, 0, "\u{3042}"));
}

#[test]
fn captions_before_the_first_picture_are_left_out() {
    let mut p = processor(HandleDRCS::ErrorExit);
    let mut out = Vec::new();
    let bytes = caption_pes(89999, &[caption_unit(0x20, &[0xa4])]);
    assert_eq!(process_captions(&bytes, 90000, &mut p, &caption_tables(), &mut out), Ok(()));
    assert!(out.is_empty());
}

#[test]
fn packets_that_carry_no_caption_are_passed_over() {
    let mut p = processor(HandleDRCS::FailFast);
    let mut out = Vec::new();
    let t = caption_tables();
    assert_eq!(process_captions(&[0, 0, 1], 0, &mut p, &t, &mut out), Ok(()));
    // no time stamp
    assert_eq!(process_captions(&[0, 0, 1, 0xbd, 0, 0, 0x80, 0, 0, 0x80, 0xff, 0xf0], 0, &mut p, &t, &mut out), Ok(()));
    // a video packet
    let mut video = caption_pes(90000, &[caption_unit(0x20, &[0xa4])]);
    video[3] = 0xe0;
    assert_eq!(process_captions(&video, 0, &mut p, &t, &mut out), Ok(()));
    // a data group that is cut short
    let whole = caption_pes(90000, &[caption_unit(0x20, &[0xa4])]);
    assert_eq!(process_captions(&whole[..whole.len() - 3], 0, &mut p, &t, &mut out), Ok(()));
    assert!(out.is_empty());
}

#[test]
fn each_text_is_decoded_with_fresh_registers_and_the_glyphs_defined_before_it() {
    let mut p = processor(HandleDRCS::Ignore);
    let mut out = Vec::new();
    // DRCS-1 into G0, then the code 0x21
    let drcs_text = [0x1b, 0x28, 0x20, 0x41, 0x21];
    let bytes = caption_pes(
        180000,
        &[
            caption_unit(0x30, &drcs_unit(&[(0x4121, &[&GLYPH_A])])),
            caption_unit(0x20, &drcs_text),
            caption_unit(0x28, &[1, 2, 3]),
            caption_unit(0x20, &[]),
            // kanji is in G0 again
            caption_unit(0x20, &[0x30, 0x21]),
        ],
    );
    assert_eq!(process_captions(&bytes, 0, &mut p, &caption_tables(), &mut out), Ok(()));
    assert_eq!(captions_of(&out), vec![(2, 0, "(A)"), (2, 0, "\u{4e9c}")]);
    // the glyphs of one data group do not reach the next
    let later = caption_pes(270000, &[caption_unit(0x20, &drcs_text)]);
    let group = &later[17..];
    let units = DataUnit::parse_all(&group[5 + 4..group.len() - 2]).unwrap();
    let mut q = processor(HandleDRCS::Ignore);
    assert_eq!(
        dump_caption(&units, 0, &mut q, &caption_tables(), &mut out),
        Err(CaptionError::Decode(Error::UnknownCodepoint(0x4121, Charset::DRCS(1))))
    );
    assert_eq!(out.len(), 2);
}

#[test]
fn a_text_that_cannot_be_decoded_is_left_out() {
    let mut p = processor(HandleDRCS::FailFast);
    let mut out = Vec::new();
    let bytes = caption_pes(
        90000,
        &[caption_unit(0x20, &[0xa4]), caption_unit(0x20, &[0x95]), caption_unit(0x20, &[0xa6])],
    );
    assert_eq!(process_captions(&bytes, 0, &mut p, &caption_tables(), &mut out), Ok(()));
    assert_eq!(captions_of(&out), vec![(1, 0, "\u{3044}")]);
    // the stream goes on
    let next = caption_pes(180000, &[caption_unit(0x20, &[0xa6])]);
    assert_eq!(process_captions(&next, 0, &mut p, &caption_tables(), &mut out), Ok(()));
    assert_eq!(captions_of(&out)[1], (2, 0, "\u{3046}"));
    // an unknown glyph fails the stream where it is to fail at once
    let drcs = caption_pes(180000, &[caption_unit(0x30, &drcs_unit(&[(0x4121, &[&GLYPH_B])]))]);
    assert_eq!(
        process_captions(&drcs, 0, &mut p, &caption_tables(), &mut out),
        Err(CaptionError::UnknownDrcs(0x4121, fingerprint(&GLYPH_B)))
    );
    // and so does a glyph that cannot be read
    let broken = caption_pes(180000, &[caption_unit(0x30, &[1, 0x41])]);
    assert_eq!(
        process_captions(&broken, 0, &mut p, &caption_tables(), &mut out),
        Err(CaptionError::Parse(ParseError::TooShort))
    );
}

#[test]
fn captions_before_a_failing_unit_are_given_all_the_same() {
    let mut p = processor(HandleDRCS::FailFast);
    let mut out = vec![Caption { time_sec: 0, time_ms: 0, caption: String::from("before") }];
    let group = caption_group(&[
        caption_unit(0x20, &[0xa4]),
        caption_unit(0x30, &drcs_unit(&[(0x4121, &[&GLYPH_B])])),
        caption_unit(0x20, &[0xa6]),
    ]);
    let units = DataUnit::parse_all(&group[5 + 4..group.len() - 2]).unwrap();
    assert_eq!(
        dump_caption(&units, 90000 + 9, &mut p, &caption_tables(), &mut out),
        Err(CaptionError::UnknownDrcs(0x4121, fingerprint(&GLYPH_B)))
    );
    assert_eq!(captions_of(&out), vec![(0, 0, "before"), (1, 0, "\u{3044}")]);
    let mut q = processor(HandleDRCS::Ignore);
    let cut = caption_unit(0x20, &[0x30]);
    let failing = DataUnit::parse_all(&cut).unwrap();
    assert_eq!(
        dump_caption(&failing, 0, &mut q, &caption_tables(), &mut out),
        Err(CaptionError::Decode(Error::MalformedShortBytes))
    );
}

#[test]
fn data_groups_come_in_two_kinds_of_pes_packet() {
    let bytes = caption_pes(90000, &[caption_unit(0x20, &[0xa4])]);
    let pes = PESPacket::parse(&bytes).unwrap();
    assert_eq!(get_caption(&pes).unwrap().data_group_id, 1);
    assert_eq!(sync_caption(&pes).unwrap().data_group_id, 1);
    let mut asynchronous = vec![0, 0, 1, 0xbf, 0, 0, 0x81, 0xff, 0xf0];
    asynchronous.extend_from_slice(&caption_group(&[]));
    let pes = PESPacket::parse(&asynchronous).unwrap();
    assert_eq!(get_caption(&pes).unwrap().data_group_id, 1);
    assert_eq!(async_caption(&pes).unwrap().crc16, 0);
    let video = [0, 0, 1, 0xe0, 0, 0, 0x80, 0, 0];
    assert_eq!(get_caption(&PESPacket::parse(&video).unwrap()).err(), Some(CaptionError::UnknownPes));
    let cut = [0, 0, 1, 0xbf, 0, 0, 0x81, 0xff];
    assert_eq!(
        get_caption(&PESPacket::parse(&cut).unwrap()).err(),
        Some(CaptionError::Parse(ParseError::TooShort))
    );
    let no_group = [0, 0, 1, 0xbf, 0, 0, 0x81, 0xff, 0xf0, 0x04];
    assert_eq!(
        get_caption(&PESPacket::parse(&no_group).unwrap()).err(),
        Some(CaptionError::Parse(ParseError::TooShort))
    );
}

#[test]
fn glyphs_are_drawn_dot_by_dot() {
    let font = Font { font_id: 0, depth: 2, width: 4, height: 3, pattern_data: &[0x1b, 0xe4, 0x00] };
    assert_eq!(print_aa(&font), vec![" 123", "321 ", "    "]);
    let narrow = Font { font_id: 0, depth: 2, width: 2, height: 3, pattern_data: &[0xd8] };
    // dots beyond the pattern are blank
    assert_eq!(print_aa(&narrow), vec!["31", "2 ", "  "]);
    let none = Font { font_id: 0, depth: 2, width: 0, height: 2, pattern_data: &[] };
    assert_eq!(print_aa(&none), vec!["", ""]);
}
