use arib_ts::pes::buffer::{Buffer, BufferError};
use arib_ts::ts::packet::TSPacket;
use bytes::Bytes;

fn pes_ts_packet(start: bool, counter: u8, payload: Option<&[u8]>) -> TSPacket {
    TSPacket {
        transport_error_indicator: false,
        payload_unit_start_indicator: start,
        transport_priority: false,
        pid: 0x100,
        transport_scrambling_control: 0,
        adaptation_field_control: 1,
        continuity_counter: counter,
        adaptation_field: None,
        data: payload.map(|p| Bytes::copy_from_slice(p)),
        raw: Bytes::new(),
    }
}

const PES_A: [u8; 10] = [0, 0, 1, 0xe0, 0, 4, 1, 2, 3, 4];
const PES_OPEN: [u8; 9] = [0, 0, 1, 0xe0, 0, 0, 7, 8, 9];

#[test]
fn pes_packet_with_a_length_is_given_out_once_it_is_whole() {
    let mut b = Buffer::new();
    assert!(b.next_pes().is_none());
    assert!(b.push(pes_ts_packet(true, 1, Some(&PES_A[..6]))).is_none());
    assert!(b.next_pes().is_none());
    assert!(b.push(pes_ts_packet(false, 2, Some(&PES_A[6..9]))).is_none());
    assert!(b.next_pes().is_none());
    assert!(b.push(pes_ts_packet(false, 3, Some(&[4, 0xff, 0xff]))).is_none());
    let out = b.next_pes().unwrap();
    assert_eq!(&out[..], &PES_A[..]);
    assert_eq!(out.len() - 6, ((out[4] as usize) << 8) | out[5] as usize);
    // what follows it is not part of any packet
    assert!(b.next_pes().is_none());
    assert!(b.push(pes_ts_packet(false, 4, Some(&[0xff; 8]))).is_none());
    assert!(b.next_pes().is_none());
    assert!(b.finish().is_none());
}

#[test]
fn open_ended_pes_packet_is_not_given_out_before_the_next_start() {
    let mut b = Buffer::new();
    assert!(b.push(pes_ts_packet(true, 1, Some(&PES_OPEN))).is_none());
    assert!(b.next_pes().is_none());
    // a packet that is whole in one transport packet
    let out = b.push(pes_ts_packet(true, 2, Some(&PES_A))).unwrap().unwrap();
    assert_eq!(&out[..], &PES_OPEN[..]);
    assert_eq!(&b.next_pes().unwrap()[..], &PES_A[..]);
    assert!(b.finish().is_none());
}

#[test]
fn pes_packet_is_given_out_at_the_next_start() {
    let mut b = Buffer::new();
    assert!(b.push(pes_ts_packet(false, 0, Some(&[9, 9]))).is_none());
    assert!(b.push(pes_ts_packet(true, 1, Some(&PES_A[..6]))).is_none());
    assert!(b.push(pes_ts_packet(false, 2, Some(&PES_A[6..]))).is_none());
    let out = b.push(pes_ts_packet(true, 3, Some(&PES_OPEN))).unwrap().unwrap();
    assert_eq!(&out[..], &PES_A[..]);
    // the open-ended one goes out whole at the end of the stream
    let last = b.finish().unwrap().unwrap();
    assert_eq!(&last[..], &PES_OPEN[..]);
    assert!(b.finish().is_none());
    assert!(b.push(pes_ts_packet(true, 4, Some(&PES_A))).is_none());
    assert!(b.finish().is_none());
}

#[test]
fn pes_packet_is_cut_to_its_length() {
    let mut b = Buffer::new();
    let mut long = PES_A.to_vec();
    long.extend_from_slice(&[0xff, 0xff]);
    assert!(b.push(pes_ts_packet(true, 0, Some(&long))).is_none());
    let out = b.push(pes_ts_packet(true, 1, Some(&PES_A))).unwrap().unwrap();
    assert_eq!(&out[..], &PES_A[..]);
}

#[test]
fn open_ended_pes_packet_takes_all_that_is_buffered() {
    let mut b = Buffer::new();
    assert!(b.push(pes_ts_packet(true, 14, Some(&PES_OPEN))).is_none());
    assert!(b.push(pes_ts_packet(false, 15, Some(&[10, 11]))).is_none());
    assert!(b.push(pes_ts_packet(false, 0, Some(&[12]))).is_none());
    let out = b.push(pes_ts_packet(true, 1, Some(&PES_A))).unwrap().unwrap();
    assert_eq!(&out[..], &[0, 0, 1, 0xe0, 0, 0, 7, 8, 9, 10, 11, 12]);
}

#[test]
fn pes_packet_that_is_not_whole_is_dropped_at_the_next_start() {
    let mut b = Buffer::new();
    assert!(b.push(pes_ts_packet(true, 0, Some(&PES_A[..8]))).is_none());
    assert!(b.push(pes_ts_packet(true, 1, Some(&PES_A))).is_none());
    assert_eq!(&b.finish().unwrap().unwrap()[..], &PES_A[..]);
}

#[test]
fn pes_packet_that_is_not_whole_at_the_end_is_an_error() {
    let mut b = Buffer::new();
    assert!(b.push(pes_ts_packet(true, 0, Some(&PES_A[..8]))).is_none());
    assert_eq!(b.finish().unwrap().err(), Some(BufferError::NotEnoughData));
    let mut c = Buffer::new();
    assert!(c.push(pes_ts_packet(true, 0, Some(&PES_A[..3]))).is_none());
    assert_eq!(c.finish().unwrap().err(), Some(BufferError::NotEnoughData));
    let mut d = Buffer::new();
    assert!(d.finish().is_none());
}

#[test]
fn pes_gap_in_the_counters_is_an_error() {
    let mut b = Buffer::new();
    assert!(b.push(pes_ts_packet(true, 0, Some(&PES_A[..6]))).is_none());
    // the same counter again is a repeated packet
    assert!(b.push(pes_ts_packet(false, 0, Some(&[0xee]))).is_none());
    assert_eq!(
        b.push(pes_ts_packet(false, 2, Some(&PES_A[6..]))).unwrap().err(),
        Some(BufferError::Discontinued)
    );
    // what follows is passed over until the next start, and nothing is left to give out
    assert!(b.push(pes_ts_packet(false, 3, Some(&PES_A[6..]))).is_none());
    assert!(b.push(pes_ts_packet(true, 4, Some(&PES_A))).is_none());
    assert_eq!(&b.finish().unwrap().unwrap()[..], &PES_A[..]);
}

#[test]
fn pes_packets_without_payload_and_in_error() {
    let mut b = Buffer::new();
    assert_eq!(b.push(pes_ts_packet(true, 0, None)).unwrap().err(), Some(BufferError::NoData));
    let mut bad = pes_ts_packet(true, 0, None);
    bad.transport_error_indicator = true;
    assert!(b.push(bad).is_none());
}

#[test]
fn get_bytes_takes_the_front_of_the_buffer() {
    let mut b = Buffer::new();
    assert_eq!(b.get_bytes().err(), Some(BufferError::NotEnoughData));
    let mut two = PES_A.to_vec();
    two.extend_from_slice(&PES_OPEN);
    assert!(b.push(pes_ts_packet(true, 0, Some(&two))).is_none());
    assert_eq!(&b.get_bytes().unwrap()[..], &PES_A[..]);
    assert_eq!(&b.get_bytes().unwrap()[..], &PES_OPEN[..]);
    assert_eq!(b.get_bytes().err(), Some(BufferError::NotEnoughData));
}
