use crate::buf::{bytes_contents, bytes_mut_contents};
use crate::crc32::{crc32, spec_crc32};
use crate::psi::buffer::spec_section_length;
use crate::psi::pat::{
    spec_crc_holds, spec_pat, spec_program, spec_programs, ProgramAssociationSection,
};
use crate::psi::pmt::{
    spec_pmt, StreamInfoView, TSProgramMapSection, TSProgramMapSectionView, STREAM_TYPE_H264,
};
use crate::psi::{PROGRAM_ASSOCIATION_SECTION, TS_PROGRAM_MAP_SECTION};
use crate::ts::{TSPacket, PAT_PID, TS_PACKET_LENGTH};
use crate::util::{be16, be_bytes, bits, length12, pid, spec_be_bytes, spec_bits, spec_length12};
use bytes::{Bytes, BytesMut};
use std::collections::HashSet;
use vstd::prelude::*;

verus! {

broadcast use {vstd::std_specs::hash::group_hash_axioms, vstd::array::group_array_axioms};

/// The network PID that a program association table names: that of its last
/// entry with the program number zero.
pub open spec fn spec_network_pid(programs: Seq<(u16, u16)>) -> Option<u16>
    decreases programs.len(),
{
    if programs.len() == 0 {
        None
    } else if programs.last().0 == 0 {
        Some(programs.last().1)
    } else {
        spec_network_pid(programs.drop_last())
    }
}

/// The number of entries of a program association table that stand for a
/// program, not for the network.
pub open spec fn spec_program_count(programs: Seq<(u16, u16)>) -> nat
    decreases programs.len(),
{
    if programs.len() == 0 {
        0
    } else if programs.last().0 != 0 {
        spec_program_count(programs.drop_last()) + 1
    } else {
        spec_program_count(programs.drop_last())
    }
}

/// The PIDs of the program map tables that are kept: all of them, or with a
/// service index only that of the program at that place among the programs
/// of the table, counted from zero.
pub open spec fn spec_pmt_pids(programs: Seq<(u16, u16)>, service_index: Option<usize>) -> Set<u16>
    decreases programs.len(),
{
    if programs.len() == 0 {
        Set::empty()
    } else {
        let before = spec_pmt_pids(programs.drop_last(), service_index);
        if programs.last().0 != 0 && (service_index is None || service_index
            == Some(spec_program_count(programs.drop_last()) as usize)) {
            before.insert(programs.last().1)
        } else {
            before
        }
    }
}

/// Tells whether one of the streams is an H.264 stream.
pub open spec fn spec_has_h264(streams: Seq<StreamInfoView>) -> bool {
    exists|i: int| 0 <= i < streams.len() && (#[trigger] streams[i]).stream_type == STREAM_TYPE_H264
}

/// The PIDs of the first `n` streams.
pub open spec fn spec_elementary_pids(streams: Seq<StreamInfoView>, n: int) -> Set<u16> {
    Set::new(|pid: u16| exists|i: int| 0 <= i < n && (#[trigger] streams[i]).elementary_pid == pid)
}

/// The PIDs that a program needs: that of its program map table, that of its
/// clock reference, and those of its streams. A program with an H.264 stream
/// needs none.
pub open spec fn spec_keep_pids(pmt_pid: u16, pms: TSProgramMapSectionView) -> Set<u16> {
    if spec_has_h264(pms.stream_info) {
        Set::empty()
    } else {
        spec_elementary_pids(pms.stream_info, pms.stream_info.len() as int).insert(pmt_pid).insert(
            pms.pcr_pid,
        )
    }
}

/// Tells whether an entry of a program association table stays when only
/// the PIDs of `pids` are kept: the network's entry always, a program's if
/// the PID of its program map table is kept.
pub open spec fn spec_keeps(pids: Set<u16>, program: (u16, u16)) -> bool {
    program.0 == 0 || pids.contains(program.1)
}

/// The bytes of those of the first `n` entries of four bytes from `start`
/// on that stay.
pub open spec fn spec_kept_bytes(b: Seq<u8>, start: int, n: nat, pids: Set<u16>) -> Seq<u8>
    decreases n,
{
    if n == 0 {
        Seq::empty()
    } else {
        let before = spec_kept_bytes(b, start, (n - 1) as nat, pids);
        let at = start + 4 * (n - 1);
        if spec_keeps(pids, spec_program(b, at)) {
            before + b.subrange(at, at + 4)
        } else {
            before
        }
    }
}

/// Where the program association section starts in the packet `raw`: after
/// the header of four bytes, the adaptation field if there is one, the
/// pointer field and the bytes that it passes over. Nothing where the packet
/// does not hold a whole section with a well-formed length.
pub open spec fn spec_pat_offset(raw: Seq<u8>) -> Option<int> {
    if raw.len() != TS_PACKET_LENGTH {
        None
    } else {
        let data = if spec_bits(raw[3], 4, 2) >= 2 {
            5 + raw[4]
        } else {
            4
        };
        if data >= TS_PACKET_LENGTH {
            None
        } else {
            let at = data + 1 + raw[data];
            if at + 8 > TS_PACKET_LENGTH {
                None
            } else {
                let length = spec_length12(raw[at + 1], raw[at + 2]);
                if length < 9 || (length - 9) % 4 != 0 || at + 3 + length > TS_PACKET_LENGTH {
                    None
                } else {
                    Some(at)
                }
            }
        }
    }
}

/// The section that replaces the one at `at` in `raw`: its header with the
/// new length in the low twelve bits of the bytes 1 and 2, the entries that
/// stay, and the CRC-32 of all that.
pub open spec fn spec_new_section(raw: Seq<u8>, at: int, pids: Set<u16>) -> Seq<u8> {
    let entries = ((spec_length12(raw[at + 1], raw[at + 2]) - 9) / 4) as nat;
    let kept = spec_kept_bytes(raw, at + 8, entries, pids);
    let length = 5 + kept.len() + 4;
    let body = seq![
        raw[at],
        (spec_bits(raw[at + 1], 4, 4) * 16 + length / 0x100) as u8,
        (length % 0x100) as u8,
    ] + raw.subrange(at + 3, at + 8) + kept;
    body + spec_be_bytes(spec_crc32(body))
}

/// The packet that replaces the program association packet `raw` when only
/// the PIDs of `pids` are kept: what comes before the section is left as it
/// is, the section is rewritten, and zeros fill the rest.
pub open spec fn spec_retain_keep_pids(raw: Seq<u8>, pids: Set<u16>) -> Option<Seq<u8>> {
    match spec_pat_offset(raw) {
        None => None,
        Some(at) => {
            let head = raw.take(at) + spec_new_section(raw, at, pids);
            Some(head + Seq::new((TS_PACKET_LENGTH - head.len()) as nat, |i: int| 0u8))
        },
    }
}

/// The kept bytes are whole entries, no more than there were.
pub proof fn lemma_kept_bytes_len(b: Seq<u8>, start: int, n: nat, pids: Set<u16>)
    requires
        0 <= start,
        start + 4 * n <= b.len(),
    ensures
        spec_kept_bytes(b, start, n, pids).len() % 4 == 0,
        spec_kept_bytes(b, start, n, pids).len() <= 4 * n,
    decreases n,
{
    if n > 0 {
        lemma_kept_bytes_len(b, start, (n - 1) as nat, pids);
    }
}

/// The entries in the kept bytes are the entries that stay, in their order.
pub proof fn lemma_kept_programs(b: Seq<u8>, start: int, n: nat, pids: Set<u16>)
    requires
        0 <= start,
        start + 4 * n <= b.len(),
    ensures
        ({
            let kept = spec_kept_bytes(b, start, n, pids);
            spec_programs(kept, 0, kept.len() as int) == spec_programs(b, start, start + 4 * n).filter(
                |p: (u16, u16)| spec_keeps(pids, p),
            )
        }),
    decreases n,
{
    let keeps = |p: (u16, u16)| spec_keeps(pids, p);
    let kept = spec_kept_bytes(b, start, n, pids);
    let all = spec_programs(b, start, start + 4 * n);
    reveal(Seq::filter);
    if n == 0 {
        assert(spec_programs(kept, 0, kept.len() as int) =~= all.filter(keeps));
    } else {
        let m = (n - 1) as nat;
        let before = spec_kept_bytes(b, start, m, pids);
        let at = start + 4 * m;
        lemma_kept_programs(b, start, m, pids);
        lemma_kept_bytes_len(b, start, m, pids);
        assert(all.drop_last() =~= spec_programs(b, start, start + 4 * m));
        assert(all.last() == spec_program(b, at));
        if spec_keeps(pids, spec_program(b, at)) {
            let k = before.len() as int;
            assert(kept.len() == k + 4);
            assert(spec_program(kept, k) == spec_program(b, at));
            assert(kept.take(k) =~= before);
            assert(spec_programs(kept, 0, kept.len() as int) =~= spec_programs(
                before,
                0,
                before.len() as int,
            ).push(spec_program(b, at)));
        }
    }
}

/// The rewritten packet of a program association table has 188 bytes and is
/// the old one up to the table id of the section. Its section lists the
/// entries of the old one that stay, and no others, in their order; the
/// length in its header is that of what follows the header; its last four
/// bytes are the CRC-32 of the bytes of the section before them; the bytes
/// of its header other than the length are the old ones; and zeros fill the
/// packet after it.
pub proof fn lemma_retain_keep_pids(raw: Seq<u8>, pids: Set<u16>)
    requires
        spec_retain_keep_pids(raw, pids) is Some,
    ensures
        ({
            let out = spec_retain_keep_pids(raw, pids)->0;
            let at = spec_pat_offset(raw)->0;
            let old_section = raw.skip(at);
            let section = out.skip(at);
            let programs = spec_programs(raw, at + 8, at + 3 + spec_section_length(old_section) - 4);
            let kept = programs.filter(|p: (u16, u16)| spec_keeps(pids, p));
            let length = spec_section_length(section);
            &&& out.len() == TS_PACKET_LENGTH
            &&& 0 <= at
            &&& at + 3 + length <= TS_PACKET_LENGTH
            &&& out.take(at + 1) == raw.take(at + 1)
            &&& spec_bits(out[at + 1], 4, 4) == spec_bits(raw[at + 1], 4, 4)
            &&& out.subrange(at + 3, at + 8) == raw.subrange(at + 3, at + 8)
            &&& length == 5 + 4 * kept.len() + 4
            &&& spec_programs(out, at + 8, at + 3 + length - 4) == kept
            &&& spec_crc_holds(section, 3 + length)
            &&& forall|i: int| at + 3 + length <= i < TS_PACKET_LENGTH ==> out[i] == 0
        }),
{
    let out = spec_retain_keep_pids(raw, pids)->0;
    let at = spec_pat_offset(raw)->0;
    let old_length = spec_length12(raw[at + 1], raw[at + 2]);
    let entries = ((old_length - 9) / 4) as nat;
    let kept_bytes = spec_kept_bytes(raw, at + 8, entries, pids);
    let new_length: int = 5 + kept_bytes.len() as int + 4;
    let body = seq![
        raw[at],
        (spec_bits(raw[at + 1], 4, 4) * 16 + new_length / 0x100) as u8,
        (new_length % 0x100) as u8,
    ] + raw.subrange(at + 3, at + 8) + kept_bytes;
    let crc = spec_crc32(body);
    let new = spec_new_section(raw, at, pids);
    let section = out.skip(at);
    lemma_kept_bytes_len(raw, at + 8, entries, pids);
    lemma_kept_programs(raw, at + 8, entries, pids);
    assert(at + 8 + 4 * entries == at + 3 + old_length - 4);
    assert(raw.skip(at)[1] == raw[at + 1] && raw.skip(at)[2] == raw[at + 2]);
    assert(new == body + spec_be_bytes(crc));
    assert(new.len() == 3 + new_length);
    assert(out.len() == TS_PACKET_LENGTH);
    assert(out.take(at + 1) =~= raw.take(at + 1));
    assert(out[at + 1] == body[1]);
    assert(out[at + 2] == body[2]);
    assert(section[1] == out[at + 1] && section[2] == out[at + 2]);
    assert(spec_bits(body[1], 4, 4) == spec_bits(raw[at + 1], 4, 4) && spec_bits(body[1], 0, 4)
        == new_length / 0x100);
    assert(spec_section_length(section) == new_length);
    assert(out.subrange(at + 3, at + 8) =~= raw.subrange(at + 3, at + 8));
    assert(out.subrange(at + 8, at + 8 + kept_bytes.len()) =~= kept_bytes);
    assert(spec_programs(out, at + 8, at + 3 + new_length - 4) =~= spec_programs(
        kept_bytes,
        0,
        kept_bytes.len() as int,
    ));
    let kept = spec_programs(raw, at + 8, at + 3 + old_length - 4).filter(
        |p: (u16, u16)| spec_keeps(pids, p),
    );
    assert(kept.len() * 4 == kept_bytes.len());
    assert(section.take(3 + new_length - 4) =~= body);
    assert(section.subrange(3 + new_length - 4, 3 + new_length) =~= spec_be_bytes(crc));
    assert(spec_crc_holds(section, 3 + new_length));
}

/// Picks the network PID and the PIDs of the program map tables out of a
/// program association table, as [`spec_network_pid`] and [`spec_pmt_pids`]
/// say.
pub fn find_pids_from_pat(pas: &ProgramAssociationSection, service_index: Option<usize>) -> (r: (
    Option<u16>,
    HashSet<u16>,
))
    ensures
        r.0 == spec_network_pid(pas@.program_association),
        r.1@ == spec_pmt_pids(pas@.program_association, service_index),
{
    let mut network_pid: Option<u16> = None;
    let mut pmt_pids: HashSet<u16> = HashSet::new();
    let mut idx: usize = 0;
    let mut i: usize = 0;
    let ghost programs = pas@.program_association;
    proof {
        assert(programs.take(0) =~= Seq::<(u16, u16)>::empty());
    }
    while i < pas.program_association.len()
        invariant
            i <= programs.len(),
            programs == pas.program_association@,
            idx == spec_program_count(programs.take(i as int)),
            idx <= i,
            network_pid == spec_network_pid(programs.take(i as int)),
            pmt_pids@ == spec_pmt_pids(programs.take(i as int), service_index),
        decreases programs.len() - i,
    {
        let (program_number, pid) = pas.program_association[i];
        proof {
            assert(programs.take(i + 1).drop_last() =~= programs.take(i as int));
            assert(programs.take(i + 1).last() == programs[i as int]);
        }
        if program_number == 0 {
            network_pid = Some(pid);
        } else {
            let selected = match service_index {
                None => true,
                Some(index) => idx == index,
            };
            if selected {
                pmt_pids.insert(pid);
            }
            idx += 1;
        }
        i += 1;
    }
    proof {
        assert(programs.take(i as int) =~= programs);
    }
    (network_pid, pmt_pids)
}

/// Adds to `pids` the PIDs that the program of the program map table `pms`
/// needs, as [`spec_keep_pids`] says.
pub fn find_keep_pids_from_pmt(pmt_pid: u16, pms: &TSProgramMapSection, pids: &mut HashSet<u16>)
    ensures
        final(pids)@ == old(pids)@.union(spec_keep_pids(pmt_pid, pms@)),
{
    let ghost streams = pms@.stream_info;
    let mut i: usize = 0;
    while i < pms.stream_info.len()
        invariant
            i <= pms.stream_info@.len(),
            streams == pms@.stream_info,
            streams.len() == pms.stream_info@.len(),
            forall|k: int| 0 <= k < i ==> (#[trigger] streams[k]).stream_type != STREAM_TYPE_H264,
        decreases pms.stream_info@.len() - i,
    {
        proof {
            assert(streams[i as int] == pms.stream_info@[i as int]@);
        }
        if pms.stream_info[i].stream_type == STREAM_TYPE_H264 {
            // a program with H.264 video is left out as a whole
            proof {
                assert(pids@.union(Set::<u16>::empty()) =~= pids@);
            }
            return ;
        }
        i += 1;
    }
    pids.insert(pmt_pid);
    pids.insert(pms.pcr_pid);
    let mut i: usize = 0;
    while i < pms.stream_info.len()
        invariant
            i <= pms.stream_info@.len(),
            streams == pms@.stream_info,
            streams.len() == pms.stream_info@.len(),
            pids@ == old(pids)@.union(
                spec_elementary_pids(streams, i as int).insert(pmt_pid).insert(pms.pcr_pid),
            ),
        decreases pms.stream_info@.len() - i,
    {
        proof {
            assert(streams[i as int] == pms.stream_info@[i as int]@);
        }
        pids.insert(pms.stream_info[i].elementary_pid);
        i += 1;
        proof {
            assert(spec_elementary_pids(streams, i as int) =~= spec_elementary_pids(
                streams,
                i - 1,
            ).insert(streams[i - 1].elementary_pid));
            assert(pids@ =~= old(pids)@.union(
                spec_elementary_pids(streams, i as int).insert(pmt_pid).insert(pms.pcr_pid),
            ));
        }
    }
}

/// Tells whether a section holds a program association table that can be read.
pub open spec fn spec_is_pat_section(b: Seq<u8>) -> bool {
    b.len() >= 1 && b[0] == PROGRAM_ASSOCIATION_SECTION && spec_pat(b) is Ok
}

/// Tells whether a section holds a program map table that can be read.
pub open spec fn spec_is_pmt_section(b: Seq<u8>) -> bool {
    b.len() >= 1 && b[0] == TS_PROGRAM_MAP_SECTION && spec_pmt(b) is Ok
}

/// Looks in a reassembled section of the PID of the program association
/// table for the network PID and the PIDs of the program map tables: those
/// of the table that it holds, if it holds one that can be read.
pub fn pids_from_pat_section(bytes: &[u8], service_index: Option<usize>) -> (r: Option<
    (Option<u16>, HashSet<u16>),
>)
    ensures
        match r {
            Some((network_pid, pmt_pids)) => {
                &&& spec_is_pat_section(bytes@)
                &&& network_pid == spec_network_pid(spec_pat(bytes@)->Ok_0.program_association)
                &&& pmt_pids@ == spec_pmt_pids(
                    spec_pat(bytes@)->Ok_0.program_association,
                    service_index,
                )
            },
            None => !spec_is_pat_section(bytes@),
        },
{
    if bytes.len() < 1 || bytes[0] != PROGRAM_ASSOCIATION_SECTION {
        return None;
    }
    match ProgramAssociationSection::parse(bytes) {
        Ok(pas) => Some(find_pids_from_pat(&pas, service_index)),
        Err(_) => None,
    }
}

/// Looks in a reassembled section of the PID `pmt_pid` for the program map
/// table: if the section holds one that can be read, the PIDs that its
/// program needs are added to `pids`; if not, `pids` stays as it is. Tells
/// whether the table was there.
pub fn keep_pids_from_pmt_section(pmt_pid: u16, bytes: &[u8], pids: &mut HashSet<u16>) -> (found:
    bool)
    ensures
        found == spec_is_pmt_section(bytes@),
        found ==> final(pids)@ == old(pids)@.union(spec_keep_pids(pmt_pid, spec_pmt(bytes@)->Ok_0)),
        !found ==> final(pids)@ == old(pids)@,
{
    if bytes.len() < 1 || bytes[0] != TS_PROGRAM_MAP_SECTION {
        return false;
    }
    match TSProgramMapSection::parse(bytes) {
        Ok(pms) => {
            find_keep_pids_from_pmt(pmt_pid, &pms, pids);
            true
        },
        Err(_) => false,
    }
}

/// Adds the network PID, if there is one, to the PIDs to keep.
pub fn find_keep_pids(network_pid: Option<u16>, pids: &mut HashSet<u16>)
    ensures
        final(pids)@ == match network_pid {
            Some(pid) => old(pids)@.insert(pid),
            None => old(pids)@,
        },
{
    if let Some(network_pid) = network_pid {
        pids.insert(network_pid);
    }
}

/// Copies those of the `n` entries of four bytes from `start` on that stay.
fn kept_entries(bytes: &[u8], start: usize, n: usize, pids: &HashSet<u16>) -> (kept: Vec<u8>)
    requires
        start + 4 * n <= bytes@.len(),
    ensures
        kept@ == spec_kept_bytes(bytes@, start as int, n as nat, pids@),
{
    proof {
        assert(bytes@.len() == bytes.len());
    }
    let mut kept: Vec<u8> = Vec::new();
    let mut i: usize = 0;
    while i < n
        invariant
            i <= n,
            start + 4 * n <= bytes@.len() <= usize::MAX,
            kept@ == spec_kept_bytes(bytes@, start as int, i as nat, pids@),
        decreases n - i,
    {
        let at = start + 4 * i;
        let program_number = be16(bytes[at], bytes[at + 1]);
        let pid = pid(bytes[at + 2], bytes[at + 3]);
        if program_number == 0 || pids.contains(&pid) {
            kept.extend_from_slice(&bytes[at..at + 4]);
        }
        i += 1;
    }
    kept
}

/// Finds where the program association section starts in a packet, as
/// [`spec_pat_offset`] says, and reads its length.
fn pat_offset(bytes: &[u8]) -> (r: Option<(usize, usize)>)
    ensures
        match spec_pat_offset(bytes@) {
            Some(at) => r == Some(
                (at as usize, spec_length12(bytes@[at + 1], bytes@[at + 2]) as usize),
            ) && 0 <= at,
            None => r is None,
        },
{
    if bytes.len() != TS_PACKET_LENGTH {
        return None;
    }
    let adaptation_field_control = bits(bytes[3], 4, 2);
    let data_offset = match adaptation_field_control {
        2 | 3 => 4 + 1 + bytes[4] as usize,
        _ => 4,
    };
    if data_offset >= TS_PACKET_LENGTH {
        return None;
    }
    let pat_offset = data_offset + 1 + bytes[data_offset] as usize;
    if pat_offset + 8 > TS_PACKET_LENGTH {
        return None;
    }
    let section_length = length12(bytes[pat_offset + 1], bytes[pat_offset + 2]);
    if section_length < 9 || (section_length - 9) % 4 != 0 || pat_offset + 3 + section_length
        > TS_PACKET_LENGTH {
        return None;
    }
    Some((pat_offset, section_length))
}

/// Writes the section that replaces the one at `at`, as
/// [`spec_new_section`] says.
fn new_section(bytes: &[u8], at: usize, section_length: usize, pids: &HashSet<u16>) -> (section: Vec<
    u8,
>)
    requires
        section_length == spec_length12(bytes@[at + 1], bytes@[at + 2]),
        section_length >= 9,
        (section_length - 9) % 4 == 0,
        at + 3 + section_length <= bytes@.len(),
    ensures
        section@ == spec_new_section(bytes@, at as int, pids@),
        section@.len() <= 3 + section_length,
{
    proof {
        assert(bytes@.len() == bytes.len());
    }
    let kept = kept_entries(bytes, at + 8, (section_length - 9) / 4, pids);
    proof {
        lemma_kept_bytes_len(bytes@, at + 8, ((section_length - 9) / 4) as nat, pids@);
    }
    let new_section_length = 5 + kept.len() + 4;
    let mut section: Vec<u8> = Vec::new();
    section.push(bytes[at]);
    // the new length, below the four bits that share its first byte
    section.push(bits(bytes[at + 1], 4, 4) * 16 + (new_section_length / 0x100) as u8);
    section.push((new_section_length % 0x100) as u8);
    section.extend_from_slice(&bytes[at + 3..at + 8]);
    section.extend_from_slice(kept.as_slice());
    let crc = crc32(section.as_slice());
    proof {
        assert(section@ =~= seq![
            bytes@[at as int],
            (spec_bits(bytes@[at + 1], 4, 4) * 16 + new_section_length / 0x100) as u8,
            (new_section_length % 0x100) as u8,
        ] + bytes@.subrange(at + 3, at + 8) + kept@);
    }
    section.extend_from_slice(be_bytes(crc).as_slice());
    section
}

/// Rewrites a packet of the program association table so that it lists only
/// the network and the programs whose program map table is kept, as
/// [`spec_retain_keep_pids`] says. Nothing comes back for a packet that does
/// not hold a whole section.
pub fn retain_keep_pids(packet: TSPacket, pids: &HashSet<u16>) -> (r: Option<Bytes>)
    ensures
        match spec_retain_keep_pids(packet@.raw, pids@) {
            Some(out) => r matches Some(bytes) && bytes_contents(bytes) == out,
            None => r is None,
        },
{
    let raw = packet.into_raw();
    let bytes: &[u8] = &raw;
    let (pat_offset, section_length) = match pat_offset(bytes) {
        Some(found) => found,
        None => return None,
    };
    let section = new_section(bytes, pat_offset, section_length, pids);
    let mut out = BytesMut::with_capacity(TS_PACKET_LENGTH);
    out.extend_from_slice(&bytes[0..pat_offset]);
    out.extend_from_slice(section.as_slice());
    let ghost head = bytes_mut_contents(out);
    proof {
        assert(bytes@.subrange(0, pat_offset as int) =~= bytes@.take(pat_offset as int));
    }
    // zeros up to the end of the packet
    out.resize(TS_PACKET_LENGTH, 0);
    proof {
        assert(bytes_mut_contents(out) =~= head + Seq::new(
            (TS_PACKET_LENGTH - head.len()) as nat,
            |i: int| 0u8,
        ));
    }
    Some(out.freeze())
}

/// What becomes of a packet when only the PIDs of `pids` are kept: a packet
/// of the program association table is rewritten, a packet of a kept PID
/// stays as it is, and any other packet goes.
pub open spec fn spec_dump_packet(raw: Seq<u8>, pid: u16, error: bool, pids: Set<u16>) -> Option<
    Seq<u8>,
> {
    if pid == PAT_PID {
        if error {
            None
        } else {
            spec_retain_keep_pids(raw, pids)
        }
    } else if pids.contains(pid) {
        Some(raw)
    } else {
        None
    }
}

/// Gives the bytes that go out for a packet, as [`spec_dump_packet`] says.
pub fn dump_packets(packet: TSPacket, pids: &HashSet<u16>) -> (r: Option<Bytes>)
    ensures
        match spec_dump_packet(packet@.raw, packet@.pid, packet@.transport_error_indicator, pids@) {
            Some(out) => r matches Some(bytes) && bytes_contents(bytes) == out,
            None => r is None,
        },
{
    if packet.pid == PAT_PID {
        if !packet.transport_error_indicator {
            retain_keep_pids(packet, pids)
        } else {
            None
        }
    } else if pids.contains(&packet.pid) {
        Some(packet.into_raw())
    } else {
        None
    }
}

} // verus!
