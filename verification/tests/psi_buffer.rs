use arib_ts::psi::buffer::{Buffer, BufferError};
use arib_ts::ts::packet::TSPacket;
use bytes::Bytes;

fn psi_packet(start: bool, counter: u8, payload: Option<&[u8]>) -> TSPacket {
    TSPacket {
        transport_error_indicator: false,
        payload_unit_start_indicator: start,
        transport_priority: false,
        pid: 0,
        transport_scrambling_control: 0,
        adaptation_field_control: 1,
        continuity_counter: counter,
        adaptation_field: None,
        data: payload.map(|p| Bytes::copy_from_slice(p)),
        raw: Bytes::new(),
    }
}

const SECTION_A: [u8; 8] = [0x00, 0xb0, 0x05, 1, 2, 3, 4, 5];
const SECTION_B: [u8; 6] = [0x02, 0xb0, 0x03, 7, 8, 9];

fn joined(parts: &[&[u8]]) -> Vec<u8> {
    let mut v = Vec::new();
    for p in parts {
        v.extend_from_slice(p);
    }
    v
}

#[test]
fn section_in_one_packet() {
    let mut b = Buffer::new();
    assert!(b.next_section().is_none());
    b.push(psi_packet(true, 3, Some(&joined(&[&[0], &SECTION_A, &[0xff; 4]])))).unwrap();
    assert_eq!(&b.next_section().unwrap()[..], &SECTION_A[..]);
    assert!(b.next_section().is_none());
}

#[test]
fn section_has_the_length_of_its_header() {
    let mut b = Buffer::new();
    b.push(psi_packet(true, 3, Some(&joined(&[&[0], &SECTION_A, &SECTION_B, &[0xff; 9]])))).unwrap();
    let a = b.next_section().unwrap();
    assert_eq!(a.len() - 3, ((a[1] as usize & 0xf) << 8) | a[2] as usize);
    let c = b.next_section().unwrap();
    assert_eq!(c.len() - 3, ((c[1] as usize & 0xf) << 8) | c[2] as usize);
}

#[test]
fn pointer_field_is_skipped() {
    let mut b = Buffer::new();
    b.push(psi_packet(true, 0, Some(&joined(&[&[2, 0xaa, 0xbb], &SECTION_A])))).unwrap();
    assert_eq!(&b.next_section().unwrap()[..], &SECTION_A[..]);
}

#[test]
fn section_over_two_packets() {
    let mut b = Buffer::new();
    b.push(psi_packet(true, 15, Some(&joined(&[&[0], &SECTION_A[..5]])))).unwrap();
    assert!(b.next_section().is_none());
    // the counter wraps from 15 to 0
    b.push(psi_packet(false, 0, Some(&SECTION_A[5..]))).unwrap();
    assert_eq!(&b.next_section().unwrap()[..], &SECTION_A[..]);
    assert!(b.next_section().is_none());
}

#[test]
fn header_over_two_packets() {
    let mut b = Buffer::new();
    b.push(psi_packet(true, 1, Some(&joined(&[&[0], &SECTION_A[..2]])))).unwrap();
    assert!(b.next_section().is_none());
    b.push(psi_packet(false, 2, Some(&SECTION_A[2..]))).unwrap();
    assert_eq!(&b.next_section().unwrap()[..], &SECTION_A[..]);
}

#[test]
fn two_sections_in_one_payload() {
    let mut b = Buffer::new();
    b.push(psi_packet(true, 0, Some(&joined(&[&[0], &SECTION_A, &SECTION_B])))).unwrap();
    assert_eq!(&b.next_section().unwrap()[..], &SECTION_A[..]);
    assert_eq!(&b.next_section().unwrap()[..], &SECTION_B[..]);
    assert!(b.next_section().is_none());
}

#[test]
fn packets_before_the_first_start_are_passed_over() {
    let mut b = Buffer::new();
    assert_eq!(b.push(psi_packet(false, 5, Some(&SECTION_A))), Ok(()));
    assert_eq!(b.push(psi_packet(false, 9, None)), Ok(()));
    assert!(b.next_section().is_none());
}

#[test]
fn packets_in_error_are_passed_over() {
    let mut b = Buffer::new();
    b.push(psi_packet(true, 0, Some(&joined(&[&[0], &SECTION_A[..5]])))).unwrap();
    let mut bad = psi_packet(false, 9, None);
    bad.transport_error_indicator = true;
    assert_eq!(b.push(bad), Ok(()));
    b.push(psi_packet(false, 1, Some(&SECTION_A[5..]))).unwrap();
    assert_eq!(&b.next_section().unwrap()[..], &SECTION_A[..]);
}

#[test]
fn a_repeated_packet_is_passed_over() {
    let mut b = Buffer::new();
    b.push(psi_packet(true, 4, Some(&joined(&[&[0], &SECTION_A[..5]])))).unwrap();
    assert_eq!(b.push(psi_packet(false, 4, Some(&[0xee; 3]))), Ok(()));
    b.push(psi_packet(false, 5, Some(&SECTION_A[5..]))).unwrap();
    assert_eq!(&b.next_section().unwrap()[..], &SECTION_A[..]);
}

#[test]
fn a_gap_in_the_counters_ends_the_section() {
    let mut b = Buffer::new();
    b.push(psi_packet(true, 4, Some(&joined(&[&[0], &SECTION_A[..5]])))).unwrap();
    assert_eq!(b.push(psi_packet(false, 6, Some(&SECTION_A[5..]))), Err(BufferError::Discontinued));
    assert!(b.next_section().is_none());
    // nothing is taken until the next start
    assert_eq!(b.push(psi_packet(false, 7, Some(&SECTION_A[5..]))), Ok(()));
    assert!(b.next_section().is_none());
    b.push(psi_packet(true, 9, Some(&joined(&[&[0], &SECTION_B])))).unwrap();
    assert_eq!(&b.next_section().unwrap()[..], &SECTION_B[..]);
}

#[test]
fn a_new_start_drops_what_is_buffered() {
    let mut b = Buffer::new();
    b.push(psi_packet(true, 4, Some(&joined(&[&[0], &SECTION_A[..5]])))).unwrap();
    b.push(psi_packet(true, 5, Some(&joined(&[&[0], &SECTION_B])))).unwrap();
    assert_eq!(&b.next_section().unwrap()[..], &SECTION_B[..]);
    assert!(b.next_section().is_none());
}

#[test]
fn malformed_packets() {
    let mut b = Buffer::new();
    assert_eq!(b.push(psi_packet(true, 0, None)), Err(BufferError::MalformedNoData));
    assert_eq!(
        b.push(psi_packet(true, 0, Some(&[5, 1, 2]))),
        Err(BufferError::MalformedNoSectionHeader)
    );
    assert_eq!(b.push(psi_packet(true, 0, Some(&[]))), Err(BufferError::MalformedNoSectionHeader));
    assert_eq!(b.feed_packet(psi_packet(false, 1, None)), Err(BufferError::MalformedNoData));
    // a pointer field that points just behind the payload starts an empty section
    assert_eq!(b.push(psi_packet(true, 0, Some(&[2, 1, 2]))), Ok(()));
    assert!(b.next_section().is_none());
}
