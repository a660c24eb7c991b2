use arib_ts::error::ParseError;
use arib_ts::pes::{NormalPESPacketBody, PESPacket, PESPacketBody, ESCR};

fn timestamp(marker: u8, v: u64) -> [u8; 5] {
    [
        (marker << 4) | ((v >> 29) & 0x0e) as u8 | 1,
        (v >> 22) as u8,
        ((v >> 14) & 0xfe) as u8 | 1,
        (v >> 7) as u8,
        ((v << 1) & 0xfe) as u8 | 1,
    ]
}

fn pes(stream_id: u8, announce_length: bool, body: &[u8]) -> Vec<u8> {
    let n = if announce_length { body.len() } else { 0 };
    let mut b = vec![0, 0, 1, stream_id, (n >> 8) as u8, n as u8];
    b.extend_from_slice(body);
    b
}

fn normal_body(flags: u8, header: &[u8], stuffing: usize, payload: &[u8]) -> Vec<u8> {
    let mut b = vec![0x8d, flags, (header.len() + stuffing) as u8];
    b.extend_from_slice(header);
    b.extend(std::iter::repeat(0xff).take(stuffing));
    b.extend_from_slice(payload);
    b
}

#[test]
fn pes_packet_with_pts() {
    let bytes = pes(0xe0, true, &normal_body(0x80, &timestamp(2, 180000), 2, &[0xaa, 0xbb]));
    let p = PESPacket::parse(&bytes).unwrap();
    assert_eq!(p.packet_start_code_prefix, 1);
    assert_eq!(p.stream_id, 0xe0);
    assert_eq!(p.get_pts(), Some(180000));
    match p.body {
        PESPacketBody::NormalPESPacketBody(body) => {
            // the fields of the first byte, 0b10_0_0_1_1_01, from the top down
            assert_eq!(body.pes_scrambling_control, 2);
            assert_eq!(body.pes_priority, 0);
            assert_eq!(body.data_alignment_indicator, 0);
            assert_eq!(body.copyright, 1);
            assert_eq!(body.original_or_copy, 1);
            assert_eq!(body.fields.pts, Some(180000));
            assert_eq!(body.fields.dts, None);
            assert!(body.fields.escr.is_none());
            assert!(body.fields.es_rate.is_none());
            assert!(body.fields.pes_extension.is_none());
            assert_eq!(body.pes_packet_data_byte, &[0xaa, 0xbb]);
        }
        _ => panic!("a body with the usual header is expected"),
    }
}

#[test]
fn timestamps_have_33_bits() {
    for v in [0u64, 1, 90000, 0x1_2345_6789, 0x1_ffff_ffff] {
        assert_eq!(NormalPESPacketBody::parse_timestamp(&timestamp(2, v), 0), Ok(v));
    }
    let mut two = vec![0xee];
    two.extend_from_slice(&timestamp(3, 0x1_0000_0001));
    assert_eq!(NormalPESPacketBody::parse_timestamp(&two, 1), Ok(0x1_0000_0001));
    assert_eq!(NormalPESPacketBody::parse_timestamp(&two, 2), Err(ParseError::TooShort));
    assert_eq!(NormalPESPacketBody::parse_timestamp(&[], 0), Err(ParseError::TooShort));
}

#[test]
fn pes_packet_with_pts_and_dts() {
    let mut header = timestamp(3, 0x1_ffff_ffff).to_vec();
    header.extend_from_slice(&timestamp(1, 90000));
    let bytes = pes(0xe0, false, &normal_body(0xc0, &header, 0, &[1, 2, 3]));
    let p = PESPacket::parse(&bytes).unwrap();
    match p.body {
        PESPacketBody::NormalPESPacketBody(body) => {
            assert_eq!(body.fields.pts, Some(0x1_ffff_ffff));
            assert_eq!(body.fields.dts, Some(90000));
            assert_eq!(body.pes_packet_data_byte, &[1, 2, 3]);
        }
        _ => panic!("a body with the usual header is expected"),
    }
}

#[test]
fn pes_packet_with_all_optional_fields() {
    let mut header = timestamp(2, 12345).to_vec();
    // clock reference, rate, trick mode, copy information, CRC
    header.extend_from_slice(&[0xff, 0xff, 0xff, 0xff, 0xff, 0xff]);
    header.extend_from_slice(&[0x80, 0x00, 0x03]);
    header.push(0x55);
    header.push(0xaa);
    header.extend_from_slice(&[0x12, 0x34]);
    // extension: private data, pack header, sequence counter, buffer, second extension
    header.push(0xf1);
    header.extend_from_slice(&[7; 15]);
    header.extend_from_slice(&[2, 0xc0, 0xc1]);
    header.extend_from_slice(&[0x85, 0x7f]);
    header.extend_from_slice(&[0x61, 0x23]);
    header.push(0x81);
    let bytes = pes(0xc0, true, &normal_body(0xbf, &header, 0, &[9]));
    let p = PESPacket::parse(&bytes).unwrap();
    match p.body {
        PESPacketBody::NormalPESPacketBody(body) => {
            let f = body.fields;
            assert_eq!(f.pts, Some(12345));
            assert_eq!(f.dts, None);
            assert_eq!(
                f.escr,
                Some(ESCR {
                    base: (3 << 30) | (3 << 28) | (0xff << 20) | (0x1f << 15) | (3 << 13)
                        | (0xff << 5) | 0x1f,
                    extension: (3 << 7) | 0x7f,
                })
            );
            assert_eq!(f.es_rate, Some(1));
            assert!(f.dsm_trick_mode.is_some());
            assert_eq!(f.additional_copy_info, Some(0x2a));
            assert_eq!(f.previous_pes_packet_crc, Some(0x1234));
            let e = f.pes_extension.unwrap();
            let mut private = vec![0xf1u8];
            private.extend_from_slice(&[7; 15]);
            assert_eq!(e.pes_private_data, Some(&private[..]));
            assert_eq!(e.pack_header, Some(&[0xc0, 0xc1][..]));
            assert_eq!(e.program_packet_sequence_counter, Some(5));
            assert_eq!(e.mpeg1_mpeg2_identifier, Some(1));
            assert_eq!(e.original_stuff_length, Some(0x3f));
            assert_eq!(e.p_std_buffer_scale, Some(1));
            assert_eq!(e.p_std_buffer_size, Some(0x0123));
            assert_eq!(body.pes_packet_data_byte, &[9]);
        }
        _ => panic!("a body with the usual header is expected"),
    }
}

#[test]
fn clock_reference() {
    assert_eq!(
        NormalPESPacketBody::parse_escr(&[0x08, 0x01, 0x08, 0x01, 0x08, 0x02], 0),
        Ok(ESCR { base: (1 << 30) | (1 << 20) | (1 << 15) | (1 << 5) | 1, extension: 1 })
    );
    assert_eq!(NormalPESPacketBody::parse_escr(&[0; 5], 0), Err(ParseError::TooShort));
    assert_eq!(NormalPESPacketBody::parse_escr(&[0; 6], 1), Err(ParseError::TooShort));
}

#[test]
fn pes_packet_of_plain_data_and_of_padding() {
    let bytes = pes(0xbf, true, &[1, 2, 3]);
    let data = PESPacket::parse(&bytes).unwrap();
    assert!(matches!(data.body, PESPacketBody::DataBytes(b) if b == [1, 2, 3]));
    assert_eq!(data.get_pts(), None);
    for id in [0xbc, 0xf0, 0xf1, 0xf2, 0xf8, 0xff] {
        let bytes = pes(id, false, &[4, 5]);
        let p = PESPacket::parse(&bytes).unwrap();
        assert!(matches!(p.body, PESPacketBody::DataBytes(b) if b == [4, 5]));
    }
    let bytes = pes(0xbe, true, &[0xff; 4]);
    let padding = PESPacket::parse(&bytes).unwrap();
    assert!(matches!(padding.body, PESPacketBody::PaddingByte));
    // what follows the announced length is not part of the packet
    let mut long = pes(0xbf, true, &[1, 2, 3]);
    long.extend_from_slice(&[9, 9]);
    let cut = PESPacket::parse(&long).unwrap();
    assert!(matches!(cut.body, PESPacketBody::DataBytes(b) if b == [1, 2, 3]));
}

#[test]
fn pes_packet_errors() {
    assert_eq!(PESPacket::parse(&[0, 0, 1, 0xe0, 0]).err(), Some(ParseError::TooShort));
    assert_eq!(PESPacket::parse(&[0, 0, 1, 0xbf, 0, 3, 1, 2]).err(), Some(ParseError::TooShort));
    // the usual header needs three bytes
    assert_eq!(PESPacket::parse(&pes(0xe0, true, &[0x80, 0x00])).err(), Some(ParseError::TooShort));
    // a time stamp that is cut short
    assert_eq!(
        PESPacket::parse(&pes(0xe0, true, &[0x80, 0x80, 0x05, 0x21, 0x00])).err(),
        Some(ParseError::TooShort)
    );
    // header data that reaches beyond the packet
    assert_eq!(
        PESPacket::parse(&pes(0xe0, true, &[0x80, 0x00, 0x02, 0xff])).err(),
        Some(ParseError::TooShort)
    );
    // an extension that is cut short
    assert_eq!(
        PESPacket::parse(&pes(0xe0, true, &[0x80, 0x01, 0x01, 0x80])).err(),
        Some(ParseError::TooShort)
    );
    assert_eq!(
        PESPacket::parse(&pes(0xe0, true, &[0x80, 0x01, 0x00])).err(),
        Some(ParseError::TooShort)
    );
}

#[test]
fn optional_fields_follow_their_flags() {
    let f = NormalPESPacketBody::parse_optional_fields(&[0x81, 0x12, 0x34], 0, 0, 0, 0, 1, 1, 0)
        .unwrap();
    assert_eq!(f.additional_copy_info, Some(1));
    assert_eq!(f.previous_pes_packet_crc, Some(0x1234));
    assert_eq!(f.pts, None);
    let none = NormalPESPacketBody::parse_optional_fields(&[], 0, 0, 0, 0, 0, 0, 0).unwrap();
    assert!(none.pts.is_none() && none.pes_extension.is_none());
    assert_eq!(
        NormalPESPacketBody::parse_optional_fields(&[0x81, 0x12], 0, 0, 0, 0, 1, 1, 0).err(),
        Some(ParseError::TooShort)
    );
    // the fields are read from the flags byte on
    let e = NormalPESPacketBody::parse_extension_fields(&[0xee, 0x30, 0x7f, 0x3f, 0xff], 1).unwrap();
    assert_eq!(e.program_packet_sequence_counter, Some(0x30));
    assert_eq!(e.mpeg1_mpeg2_identifier, Some(1));
    assert_eq!(e.original_stuff_length, Some(0x3f));
    assert_eq!(e.p_std_buffer_scale, Some(1));
    assert_eq!(e.p_std_buffer_size, Some(0x1fff));
    assert_eq!(e.pes_private_data, None);
    assert_eq!(e.pack_header, None);
}
