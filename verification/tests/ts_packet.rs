use arib_ts::error::ParseError;
use arib_ts::ts::packet::{AdaptationField, TSPacketDecoder, TS_PACKET_LENGTH};
use bytes::{Bytes, BytesMut};

fn frame(
    error: bool,
    start: bool,
    pid: u16,
    control: u8,
    counter: u8,
    adaptation: Option<&[u8]>,
    payload: &[u8],
) -> Vec<u8> {
    let mut b = vec![
        0x47,
        (if error { 0x80 } else { 0 }) | (if start { 0x40 } else { 0 }) | ((pid >> 8) as u8 & 0x1f),
        pid as u8,
        (control << 4) | counter,
    ];
    if let Some(a) = adaptation {
        b.push(a.len() as u8);
        b.extend_from_slice(a);
    }
    b.extend_from_slice(payload);
    while b.len() < TS_PACKET_LENGTH {
        b.push(0xff);
    }
    b
}

#[test]
fn decode_waits_for_a_whole_packet() {
    let mut src = BytesMut::from(&[0x47u8; 187][..]);
    let r = TSPacketDecoder::new().decode(&mut src).unwrap();
    assert!(r.is_none());
    assert_eq!(src.len(), 187);
}

#[test]
fn decode_rejects_a_missing_sync_byte() {
    let mut bytes = frame(false, false, 0, 1, 0, None, &[]);
    bytes[0] = 0x48;
    let mut src = BytesMut::from(&bytes[..]);
    let r = TSPacketDecoder::new().decode(&mut src);
    assert_eq!(r.err(), Some(ParseError::MissingSyncByte));
    assert_eq!(src.len(), 188);
}

#[test]
fn decode_reads_the_header() {
    let bytes = frame(false, true, 0x1abc, 1, 9, None, &[1, 2, 3]);
    let mut src = BytesMut::from(&bytes[..]);
    let p = TSPacketDecoder::new().decode(&mut src).unwrap().unwrap();
    assert_eq!(src.len(), 0);
    assert!(!p.transport_error_indicator);
    assert!(p.payload_unit_start_indicator);
    assert!(!p.transport_priority);
    assert_eq!(p.pid, 0x1abc);
    assert_eq!(p.transport_scrambling_control, 0);
    assert_eq!(p.adaptation_field_control, 1);
    assert_eq!(p.continuity_counter, 9);
    assert!(p.adaptation_field.is_none());
    let data = p.data.clone().unwrap();
    assert_eq!(data.len(), 184);
    assert_eq!(&data[..4], &[1, 2, 3, 0xff]);
    assert_eq!(&p.clone().into_raw()[..], &bytes[..]);
}

#[test]
fn decode_reads_priority_and_scrambling() {
    let mut bytes = frame(false, false, 0x100, 1, 0, None, &[]);
    bytes[1] |= 0x20;
    bytes[3] |= 0xc0;
    let mut src = BytesMut::from(&bytes[..]);
    let p = TSPacketDecoder::new().decode(&mut src).unwrap().unwrap();
    assert!(p.transport_priority);
    assert_eq!(p.transport_scrambling_control, 3);
    assert_eq!(p.pid, 0x100);
}

#[test]
fn decode_splits_adaptation_field_and_payload() {
    let bytes = frame(false, false, 0x100, 3, 1, Some(&[0x10, 1, 2, 3, 4, 5, 6]), &[0xaa, 0xbb]);
    let mut src = BytesMut::from(&bytes[..]);
    let p = TSPacketDecoder::new().decode(&mut src).unwrap().unwrap();
    let af = p.adaptation_field.unwrap();
    assert_eq!(&af.raw[..], &[7, 0x10, 1, 2, 3, 4, 5, 6]);
    let data = p.data.unwrap();
    assert_eq!(data.len(), 188 - 4 - 8);
    assert_eq!(&data[..3], &[0xaa, 0xbb, 0xff]);
}

#[test]
fn decode_adaptation_field_only() {
    let bytes = frame(false, false, 0x100, 2, 1, Some(&[0u8; 183]), &[]);
    let mut src = BytesMut::from(&bytes[..]);
    let p = TSPacketDecoder::new().decode(&mut src).unwrap().unwrap();
    assert_eq!(p.adaptation_field.unwrap().raw.len(), 184);
    assert!(p.data.is_none());
}

#[test]
fn decode_adaptation_field_that_fills_the_packet_leaves_an_empty_payload() {
    let bytes = frame(false, false, 0x100, 3, 1, Some(&[0u8; 183]), &[]);
    let mut src = BytesMut::from(&bytes[..]);
    let p = TSPacketDecoder::new().decode(&mut src).unwrap().unwrap();
    assert_eq!(p.data.unwrap().len(), 0);
}

#[test]
fn decode_rejects_an_adaptation_field_longer_than_the_packet() {
    let mut bytes = frame(false, false, 0x100, 3, 1, None, &[]);
    bytes[4] = 184;
    let mut src = BytesMut::from(&bytes[..]);
    src.extend_from_slice(&[0x47, 0x00]);
    let r = TSPacketDecoder::new().decode(&mut src);
    assert_eq!(r.err(), Some(ParseError::TooShort));
    // the packet is taken all the same
    assert_eq!(&src[..], &[0x47, 0x00]);
}

#[test]
fn decode_gives_a_packet_in_error_without_payload() {
    let bytes = frame(true, true, 0x100, 3, 1, Some(&[0u8; 4]), &[1, 2]);
    let mut src = BytesMut::from(&bytes[..]);
    let p = TSPacketDecoder::new().decode(&mut src).unwrap().unwrap();
    assert!(p.transport_error_indicator);
    assert!(p.adaptation_field.is_none());
    assert!(p.data.is_none());
    assert_eq!(p.pid, 0x100);
    assert_eq!(p.raw.len(), 188);
}

#[test]
fn decode_reserved_control_has_neither_field_nor_payload() {
    let bytes = frame(false, false, 0x100, 0, 1, None, &[]);
    let mut src = BytesMut::from(&bytes[..]);
    let p = TSPacketDecoder::new().decode(&mut src).unwrap().unwrap();
    assert!(p.adaptation_field.is_none());
    assert!(p.data.is_none());
}

#[test]
fn decode_takes_packets_one_after_the_other() {
    let mut src = BytesMut::new();
    src.extend_from_slice(&frame(false, false, 0x11, 1, 0, None, &[1]));
    src.extend_from_slice(&frame(false, false, 0x12, 1, 0, None, &[2]));
    src.extend_from_slice(&[0x47]);
    let mut d = TSPacketDecoder::new();
    assert_eq!(d.decode(&mut src).unwrap().unwrap().pid, 0x11);
    assert_eq!(d.decode(&mut src).unwrap().unwrap().pid, 0x12);
    assert!(d.decode(&mut src).unwrap().is_none());
    assert_eq!(src.len(), 1);
}

#[test]
fn adaptation_field_is_taken_off_the_front() {
    let mut src = Bytes::from(vec![2u8, 0xaa, 0xbb, 0xcc]);
    let (af, n) = AdaptationField::decode(&mut src).unwrap();
    assert_eq!(n, 3);
    assert_eq!(&af.raw[..], &[2, 0xaa, 0xbb]);
    assert_eq!(&src[..], &[0xcc]);
    let mut short = Bytes::from(vec![4u8, 0xaa]);
    assert_eq!(AdaptationField::decode(&mut short).err(), Some(ParseError::TooShort));
    assert_eq!(short.len(), 2);
    let mut empty = Bytes::new();
    assert_eq!(AdaptationField::decode(&mut empty).err(), Some(ParseError::TooShort));
}
