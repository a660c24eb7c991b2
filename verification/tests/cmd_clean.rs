use arib_ts::cmd::clean::{
    dump_packets, find_keep_pids, find_keep_pids_from_pmt, find_pids_from_pat,
    keep_pids_from_pmt_section, pids_from_pat_section, retain_keep_pids,
};
use arib_ts::cmd::common::{
    find_first_picture_pts, find_main_pmt_pid, find_meta, main_pmt_pid_from_section,
    meta_from_section, strip_error_packets, Meta,
};
use arib_ts::cmd::jitter::{find_first_audio_pts, jitter, PTS_LIMIT};
use arib_ts::pes::PTS_HZ;
use arib_ts::crc32::crc32;
use arib_ts::psi::pat::ProgramAssociationSection;
use arib_ts::psi::pmt::TSProgramMapSection;
use arib_ts::ts::packet::{TSPacket, TSPacketDecoder};
use bytes::BytesMut;
use std::collections::HashSet;

fn clean_table(table_id: u8, id: u16, body: &[u8]) -> Vec<u8> {
    let length = 5 + body.len() + 4;
    let mut s = vec![
        table_id,
        0xb0 | (length >> 8) as u8,
        length as u8,
        (id >> 8) as u8,
        id as u8,
        0xc1,
        0x00,
        0x00,
    ];
    s.extend_from_slice(body);
    let crc = crc32(&s);
    s.extend_from_slice(&crc.to_be_bytes());
    s
}

fn clean_pat(programs: &[(u16, u16)]) -> Vec<u8> {
    let mut body = Vec::new();
    for (number, pid) in programs {
        body.extend_from_slice(&[(number >> 8) as u8, *number as u8, 0xe0 | (pid >> 8) as u8, *pid as u8]);
    }
    clean_table(0, 0x7fe1, &body)
}

fn clean_pmt(pcr_pid: u16, streams: &[(u8, u16, &[u8])]) -> Vec<u8> {
    let mut body = vec![0xe0 | (pcr_pid >> 8) as u8, pcr_pid as u8, 0xf0, 0x00];
    for (stream_type, pid, descriptors) in streams {
        body.extend_from_slice(&[
            *stream_type,
            0xe0 | (pid >> 8) as u8,
            *pid as u8,
            0xf0,
            descriptors.len() as u8,
        ]);
        body.extend_from_slice(descriptors);
    }
    clean_table(2, 0x0101, &body)
}

fn clean_packet(pid: u16, head: &[u8], payload: &[u8]) -> TSPacket {
    let mut b = vec![0x47, 0x40 | (pid >> 8) as u8, pid as u8];
    b.extend_from_slice(head);
    b.extend_from_slice(payload);
    while b.len() < 188 {
        b.push(0xff);
    }
    let mut src = BytesMut::from(&b[..]);
    TSPacketDecoder::new().decode(&mut src).unwrap().unwrap()
}

fn pids(list: &[u16]) -> HashSet<u16> {
    list.iter().copied().collect()
}

const PROGRAMS: [(u16, u16); 3] = [(0, 0x0010), (0x0101, 0x01f0), (0x0102, 0x02f0)];

#[test]
fn pat_gives_network_and_program_map_pids() {
    let bytes = clean_pat(&PROGRAMS);
    let pat = ProgramAssociationSection::parse(&bytes).unwrap();
    assert_eq!(find_pids_from_pat(&pat, None), (Some(0x10), pids(&[0x1f0, 0x2f0])));
    assert_eq!(find_pids_from_pat(&pat, Some(0)), (Some(0x10), pids(&[0x1f0])));
    assert_eq!(find_pids_from_pat(&pat, Some(1)), (Some(0x10), pids(&[0x2f0])));
    assert_eq!(find_pids_from_pat(&pat, Some(2)), (Some(0x10), pids(&[])));
    assert_eq!(find_main_pmt_pid(&pat), Some(0x1f0));
    let bytes = clean_pat(&[(5, 0x50), (0, 0x10), (0, 0x11)]);
    let pat = ProgramAssociationSection::parse(&bytes).unwrap();
    assert_eq!(find_pids_from_pat(&pat, Some(0)), (Some(0x11), pids(&[0x50])));
    assert_eq!(find_main_pmt_pid(&pat), Some(0x50));
    let bytes = clean_pat(&[(0, 0x10)]);
    let pat = ProgramAssociationSection::parse(&bytes).unwrap();
    assert_eq!(find_pids_from_pat(&pat, None), (Some(0x10), pids(&[])));
    assert_eq!(find_main_pmt_pid(&pat), None);
    let bytes = clean_pat(&[]);
    let pat = ProgramAssociationSection::parse(&bytes).unwrap();
    assert_eq!(find_pids_from_pat(&pat, None), (None, pids(&[])));
}

#[test]
fn pmt_gives_the_pids_of_its_program() {
    let bytes = clean_pmt(0x1ff, &[(0x02, 0x111, &[]), (0x0f, 0x112, &[]), (0x06, 0x130, &[])]);
    let pmt = TSProgramMapSection::parse(&bytes).unwrap();
    let mut keep = pids(&[0x999]);
    find_keep_pids_from_pmt(0x1f0, &pmt, &mut keep);
    assert_eq!(keep, pids(&[0x999, 0x1f0, 0x1ff, 0x111, 0x112, 0x130]));
    find_keep_pids(Some(0x10), &mut keep);
    assert_eq!(keep, pids(&[0x999, 0x1f0, 0x1ff, 0x111, 0x112, 0x130, 0x10]));
    find_keep_pids(None, &mut keep);
    assert_eq!(keep.len(), 7);
}

#[test]
fn program_with_h264_video_gives_no_pids() {
    let bytes = clean_pmt(0x1ff, &[(0x0f, 0x112, &[]), (0x1b, 0x111, &[])]);
    let pmt = TSProgramMapSection::parse(&bytes).unwrap();
    let mut keep = pids(&[0x999]);
    find_keep_pids_from_pmt(0x1f0, &pmt, &mut keep);
    assert_eq!(keep, pids(&[0x999]));
}

fn section_of(out: &[u8], at: usize) -> &[u8] {
    let length = ((out[at + 1] as usize & 0xf) << 8) | out[at + 2] as usize;
    &out[at..at + 3 + length]
}

#[test]
fn pat_packet_is_rewritten_for_the_first_service() {
    let bytes = clean_pat(&PROGRAMS);
    let pat = ProgramAssociationSection::parse(&bytes).unwrap();
    let (network_pid, pmt_pids) = find_pids_from_pat(&pat, Some(0));
    let pmt_bytes = clean_pmt(0x1ff, &[(0x02, 0x111, &[]), (0x0f, 0x112, &[])]);
    let mut keep = HashSet::new();
    for pid in pmt_pids {
        find_keep_pids_from_pmt(pid, &TSProgramMapSection::parse(&pmt_bytes).unwrap(), &mut keep);
    }
    find_keep_pids(network_pid, &mut keep);
    assert_eq!(keep, pids(&[0x10, 0x1f0, 0x1ff, 0x111, 0x112]));

    let packet = clean_packet(0, &[0x13, 0x00], &bytes);
    let raw = packet.raw.clone();
    let out = retain_keep_pids(packet, &keep).unwrap();
    assert_eq!(out.len(), 188);
    // the header, the pointer field and the table id stay
    assert_eq!(&out[..6], &raw[..6]);
    let section = section_of(&out, 5);
    let rewritten = ProgramAssociationSection::parse(section).unwrap();
    assert_eq!(rewritten.program_association, vec![(0, 0x0010), (0x0101, 0x01f0)]);
    assert_eq!(rewritten.transport_stream_id, 0x7fe1);
    assert_eq!(rewritten.version_number, 0);
    assert_eq!(rewritten.current_next_indicator, 1);
    assert_eq!(section.len(), 3 + 5 + 2 * 4 + 4);
    assert_eq!(section[1] & 0xf0, 0xb0);
    assert_eq!(crc32(&section[..section.len() - 4]).to_be_bytes(), section[section.len() - 4..]);
    assert_eq!(crc32(section), 0);
    assert!(out[5 + section.len()..].iter().all(|b| *b == 0));
    // the entries stay byte for byte
    assert_eq!(&section[8..16], &bytes[8..16]);

    // the other packets: kept PIDs pass as they are, others go
    let video = clean_packet(0x111, &[0x10], &[1, 2, 3]);
    let video_raw = video.raw.clone();
    assert_eq!(dump_packets(video, &keep), Some(video_raw));
    assert_eq!(dump_packets(clean_packet(0x2f0, &[0x10], &[1, 2, 3]), &keep), None);
    assert_eq!(dump_packets(clean_packet(0x211, &[0x10], &[1, 2, 3]), &keep), None);
    let pat_packet = clean_packet(0, &[0x13, 0x00], &bytes);
    assert_eq!(dump_packets(pat_packet, &keep), Some(out));
}

#[test]
fn pat_packet_rewriting_honours_adaptation_and_pointer_fields() {
    let bytes = clean_pat(&[(1, 0x100), (0, 0x10), (2, 0x200), (3, 0x300)]);
    // an adaptation field of three bytes and a pointer field that passes over two bytes
    let packet = clean_packet(0, &[0x35, 0x02, 0x00, 0xff, 0x02, 0xaa, 0xbb], &bytes);
    let raw = packet.raw.clone();
    let out = retain_keep_pids(packet, &pids(&[0x300, 0x100, 0x7])).unwrap();
    let at = 4 + 3 + 1 + 2;
    assert_eq!(&out[..at], &raw[..at]);
    let rewritten = ProgramAssociationSection::parse(section_of(&out, at)).unwrap();
    assert_eq!(rewritten.program_association, vec![(1, 0x100), (0, 0x10), (3, 0x300)]);
    assert!(out[at + 3 + 5 + 12 + 4..].iter().all(|b| *b == 0));
}

#[test]
fn pat_packet_rewriting_keeps_the_network_alone() {
    let bytes = clean_pat(&PROGRAMS);
    let out = retain_keep_pids(clean_packet(0, &[0x10, 0x00], &bytes), &HashSet::new()).unwrap();
    let rewritten = ProgramAssociationSection::parse(section_of(&out, 5)).unwrap();
    assert_eq!(rewritten.program_association, vec![(0, 0x0010)]);
    let all = retain_keep_pids(clean_packet(0, &[0x10, 0x00], &bytes), &pids(&[0x1f0, 0x2f0])).unwrap();
    assert_eq!(section_of(&all, 5), &bytes[..]);
}

#[test]
fn pat_packet_without_a_whole_section_is_not_rewritten() {
    let keep = pids(&[0x1f0]);
    // a section that goes on in the next packet
    let long: Vec<(u16, u16)> = (1..=50).map(|i| (i, 0x100 + i)).collect();
    assert_eq!(retain_keep_pids(clean_packet(0, &[0x10, 0x00], &clean_pat(&long)), &keep), None);
    // a pointer field that points beyond the packet
    assert_eq!(retain_keep_pids(clean_packet(0, &[0x10, 0xb7], &[]), &keep), None);
    // an adaptation field that fills the packet
    assert_eq!(retain_keep_pids(clean_packet(0, &[0x30, 183], &[0; 183]), &keep), None);
    // a body that is not made of whole entries
    let odd = clean_table(0, 1, &[1, 2, 3]);
    assert_eq!(retain_keep_pids(clean_packet(0, &[0x10, 0x00], &odd), &keep), None);
    // a packet in error is not written at all
    let mut bad = clean_packet(0, &[0x10, 0x00], &clean_pat(&PROGRAMS));
    bad.transport_error_indicator = true;
    assert!(!strip_error_packets(&bad));
    assert_eq!(dump_packets(bad, &keep), None);
}

#[test]
fn meta_names_the_first_stream_of_each_kind() {
    let caption: &[u8] = &[0x52, 0x01, 0x30];
    let bytes = clean_pmt(
        0x1ff,
        &[
            (0x06, 0x138, &[0x52, 0x01, 0x87]),
            (0x0f, 0x112, &[]),
            (0x02, 0x111, &[]),
            (0x06, 0x130, caption),
            (0x02, 0x121, &[]),
            (0x0f, 0x122, &[]),
            (0x06, 0x131, &[0x52, 0x01, 0x31]),
        ],
    );
    let pmt = TSProgramMapSection::parse(&bytes).unwrap();
    assert_eq!(find_meta(&pmt), Some(Meta { audio_pid: 0x112, video_pid: 0x111, caption_pid: 0x130 }));
    let bytes = clean_pmt(0x1ff, &[(0x0f, 0x112, &[]), (0x02, 0x111, &[])]);
    assert_eq!(find_meta(&TSProgramMapSection::parse(&bytes).unwrap()), None);
    let bytes = clean_pmt(0x1ff, &[(0x0f, 0x112, &[]), (0x06, 0x130, caption)]);
    assert_eq!(find_meta(&TSProgramMapSection::parse(&bytes).unwrap()), None);
    let bytes = clean_pmt(0x1ff, &[(0x02, 0x111, &[]), (0x06, 0x130, caption)]);
    assert_eq!(find_meta(&TSProgramMapSection::parse(&bytes).unwrap()), None);
}

fn timed_pes(stream_id: u8, pts: Option<u64>, payload: &[u8]) -> Vec<u8> {
    let mut b = vec![0, 0, 1, stream_id, 0, 0, 0x80];
    match pts {
        Some(v) => {
            b.extend_from_slice(&[0x80, 5]);
            b.extend_from_slice(&[
                0x21 | ((v >> 29) & 0x0e) as u8,
                (v >> 22) as u8,
                ((v >> 14) & 0xfe) as u8 | 1,
                (v >> 7) as u8,
                ((v << 1) & 0xfe) as u8 | 1,
            ]);
        }
        None => b.extend_from_slice(&[0x00, 0]),
    }
    b.extend_from_slice(payload);
    b
}

#[test]
fn first_picture_is_an_i_picture_with_a_time_stamp() {
    let i_picture = [0, 0, 1, 0xb3, 0, 0, 1, 0, 0x00, 0x08, 0xff];
    let p_picture = [0, 0, 1, 0, 0x00, 0x10, 0xff];
    assert_eq!(find_first_picture_pts(&timed_pes(0xe0, Some(180000), &i_picture)), Some(180000));
    assert_eq!(find_first_picture_pts(&timed_pes(0xe0, Some(180000), &p_picture)), None);
    assert_eq!(find_first_picture_pts(&timed_pes(0xe0, None, &i_picture)), None);
    assert_eq!(find_first_picture_pts(&timed_pes(0xbf, Some(180000), &i_picture)), None);
    assert_eq!(find_first_picture_pts(&[0, 0, 1]), None);
}

#[test]
fn jitter_is_video_minus_audio() {
    let video = find_first_picture_pts(&timed_pes(0xe0, Some(180000), &[0, 0, 1, 0, 0, 8])).unwrap();
    let audio = find_first_audio_pts(&timed_pes(0xc0, Some(90000), &[0xff, 0xf1])).unwrap();
    assert_eq!(jitter(video, audio), 90000);
    assert_eq!(jitter(video, audio) as f64 / PTS_HZ as f64, 1.0);
    assert_eq!(jitter(90000, 90000), 0);
    // below zero where the audio is the later one
    assert_eq!(jitter(0, 1), -1);
    assert_eq!(jitter(90000, 135000) as f64 / PTS_HZ as f64, -0.5);
    // all 33 bits count
    assert_eq!(jitter(0x1_ffff_ffff, 0), 0x1_ffff_ffff);
    assert_eq!(jitter(0, 0x1_ffff_ffff), -0x1_ffff_ffff);
    assert_eq!(jitter(0x1_0000_0005, 5), 0x1_0000_0000);
    assert_eq!(PTS_LIMIT, 1 << 33);
    assert_eq!(find_first_audio_pts(&timed_pes(0xc0, None, &[])), None);
    assert_eq!(find_first_audio_pts(&[0, 0]), None);
}

#[test]
fn sections_are_looked_into_by_their_table_id() {
    let caption: &[u8] = &[0x52, 0x01, 0x30];
    let pmt = clean_pmt(0x1ff, &[(0x02, 0x111, &[]), (0x0f, 0x112, &[]), (0x06, 0x130, caption)]);
    let pat = clean_pat(&PROGRAMS);
    let meta = Meta { audio_pid: 0x112, video_pid: 0x111, caption_pid: 0x130 };
    assert_eq!(meta_from_section(&pmt), Some(meta));
    assert_eq!(meta_from_section(&pat), None);
    assert_eq!(meta_from_section(&[]), None);
    assert_eq!(meta_from_section(&pmt[..pmt.len() - 1]), None);
    assert_eq!(meta_from_section(&clean_pmt(0x1ff, &[(0x02, 0x111, &[])])), None);
    assert_eq!(main_pmt_pid_from_section(&pat), Some(0x1f0));
    assert_eq!(main_pmt_pid_from_section(&pmt), None);
    assert_eq!(main_pmt_pid_from_section(&[]), None);
    assert_eq!(main_pmt_pid_from_section(&clean_pat(&[(0, 0x10)])), None);
    let mut broken = pat.clone();
    broken[9] ^= 1;
    assert_eq!(main_pmt_pid_from_section(&broken), None);

    assert_eq!(pids_from_pat_section(&pat, Some(1)), Some((Some(0x10), pids(&[0x2f0]))));
    assert_eq!(pids_from_pat_section(&pat, None), Some((Some(0x10), pids(&[0x1f0, 0x2f0]))));
    assert_eq!(pids_from_pat_section(&pmt, None), None);
    assert_eq!(pids_from_pat_section(&broken, None), None);
    assert_eq!(pids_from_pat_section(&[], None), None);

    let mut keep = pids(&[0x10]);
    assert!(!keep_pids_from_pmt_section(0x1f0, &pat, &mut keep));
    assert!(!keep_pids_from_pmt_section(0x1f0, &pmt[..5], &mut keep));
    assert!(!keep_pids_from_pmt_section(0x1f0, &[], &mut keep));
    assert_eq!(keep, pids(&[0x10]));
    assert!(keep_pids_from_pmt_section(0x1f0, &pmt, &mut keep));
    assert_eq!(keep, pids(&[0x10, 0x1f0, 0x1ff, 0x111, 0x112, 0x130]));
    // a program with H.264 video is found, and adds nothing
    let h264 = clean_pmt(0x2ff, &[(0x1b, 0x211, &[])]);
    assert!(keep_pids_from_pmt_section(0x2f0, &h264, &mut keep));
    assert_eq!(keep.len(), 6);
}

#[test]
fn pat_entries_make_a_map() {
    let bytes = clean_pat(&[(1, 0x100), (0, 0x10), (1, 0x101), (2, 0x200)]);
    let pat = ProgramAssociationSection::parse(&bytes).unwrap();
    let map = pat.program_map();
    assert_eq!(map.len(), 3);
    assert_eq!(map[&0], 0x10);
    // of two entries with one program number the later counts
    assert_eq!(map[&1], 0x101);
    assert_eq!(map[&2], 0x200);
    let empty = clean_pat(&[]);
    assert!(ProgramAssociationSection::parse(&empty).unwrap().program_map().is_empty());
}
