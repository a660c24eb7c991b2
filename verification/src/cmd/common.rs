use crate::arib::caption::{is_caption, spec_is_caption};
use crate::h262::{is_i_picture, spec_is_i_picture};
use crate::pes::{spec_pes_packet, PESPacket, PESPacketBody, PESPacketBodyView};
use crate::psi::pat::{spec_pat, ProgramAssociationSection};
use crate::psi::pmt::{
    spec_pmt, StreamInfoView, TSProgramMapSection, TSProgramMapSectionView, STREAM_TYPE_ADTS,
    STREAM_TYPE_VIDEO,
};
use crate::psi::{PROGRAM_ASSOCIATION_SECTION, TS_PROGRAM_MAP_SECTION};
use crate::ts::packet::TSPacket;
use vstd::prelude::*;

verus! {

/// The streams of the main program that the commands work on.
#[derive(Debug, Clone, Copy, PartialEq, Eq, Structural)]
pub struct Meta {
    pub audio_pid: u16,
    pub video_pid: u16,
    pub caption_pid: u16,
}

/// The PID of the first stream from `from` on for which `wanted` holds.
pub open spec fn spec_first_pid(
    streams: Seq<StreamInfoView>,
    wanted: spec_fn(StreamInfoView) -> bool,
    from: int,
) -> Option<u16>
    decreases streams.len() - from,
{
    if from < 0 || from >= streams.len() {
        None
    } else if wanted(streams[from]) {
        Some(streams[from].elementary_pid)
    } else {
        spec_first_pid(streams, wanted, from + 1)
    }
}

/// The first caption stream, the first MPEG-2 video stream and the first
/// ADTS audio stream of a program map table, if it has all three.
pub open spec fn spec_find_meta(pms: TSProgramMapSectionView) -> Option<Meta> {
    match (
        spec_first_pid(pms.stream_info, |si: StreamInfoView| si.stream_type == STREAM_TYPE_VIDEO, 0),
        spec_first_pid(pms.stream_info, |si: StreamInfoView| si.stream_type == STREAM_TYPE_ADTS, 0),
        spec_first_pid(pms.stream_info, |si: StreamInfoView| spec_is_caption(si), 0),
    ) {
        (Some(video_pid), Some(audio_pid), Some(caption_pid)) => Some(
            Meta { audio_pid, video_pid, caption_pid },
        ),
        _ => None,
    }
}

/// The PID of the first entry from `from` on whose program number is not zero.
pub open spec fn spec_first_program(programs: Seq<(u16, u16)>, from: int) -> Option<u16>
    decreases programs.len() - from,
{
    if from < 0 || from >= programs.len() {
        None
    } else if programs[from].0 != 0 {
        Some(programs[from].1)
    } else {
        spec_first_program(programs, from + 1)
    }
}

/// The presentation time stamp of the PES packet `b` if it holds the start
/// of an I-picture.
pub open spec fn spec_picture_pts(b: Seq<u8>) -> Option<u64> {
    match spec_pes_packet(b) {
        Ok(pes) => match pes.body {
            PESPacketBodyView::NormalPESPacketBody(body) => if spec_is_i_picture(
                body.pes_packet_data_byte,
            ) {
                body.fields.pts
            } else {
                None
            },
            _ => None,
        },
        Err(_) => None,
    }
}

/// Finds the streams that the caption and jitter commands need in a
/// program map table, as [`spec_find_meta`] says.
pub fn find_meta(pms: &TSProgramMapSection) -> (r: Option<Meta>)
    ensures
        r == spec_find_meta(pms@),
{
    let mut video_pid: Option<u16> = None;
    let mut audio_pid: Option<u16> = None;
    let mut caption_pid: Option<u16> = None;
    let ghost video = |si: StreamInfoView| si.stream_type == STREAM_TYPE_VIDEO;
    let ghost audio = |si: StreamInfoView| si.stream_type == STREAM_TYPE_ADTS;
    let ghost caption = |si: StreamInfoView| spec_is_caption(si);
    let mut i: usize = 0;
    while i < pms.stream_info.len()
        invariant
            i <= pms.stream_info@.len(),
            pms@.stream_info.len() == pms.stream_info@.len(),
            video == (|si: StreamInfoView| si.stream_type == STREAM_TYPE_VIDEO),
            audio == (|si: StreamInfoView| si.stream_type == STREAM_TYPE_ADTS),
            caption == (|si: StreamInfoView| spec_is_caption(si)),
            spec_first_pid(pms@.stream_info, video, 0) == match video_pid {
                Some(pid) => Some(pid),
                None => spec_first_pid(pms@.stream_info, video, i as int),
            },
            spec_first_pid(pms@.stream_info, audio, 0) == match audio_pid {
                Some(pid) => Some(pid),
                None => spec_first_pid(pms@.stream_info, audio, i as int),
            },
            spec_first_pid(pms@.stream_info, caption, 0) == match caption_pid {
                Some(pid) => Some(pid),
                None => spec_first_pid(pms@.stream_info, caption, i as int),
            },
        decreases pms.stream_info@.len() - i,
    {
        let si = &pms.stream_info[i];
        proof {
            assert(pms@.stream_info[i as int] == si@);
        }
        if caption_pid.is_none() && is_caption(si) {
            caption_pid = Some(si.elementary_pid);
        }
        if video_pid.is_none() && si.stream_type == STREAM_TYPE_VIDEO {
            video_pid = Some(si.elementary_pid);
        }
        if audio_pid.is_none() && si.stream_type == STREAM_TYPE_ADTS {
            audio_pid = Some(si.elementary_pid);
        }
        i += 1;
    }
    match (video_pid, audio_pid, caption_pid) {
        (Some(video_pid), Some(audio_pid), Some(caption_pid)) => Some(
            Meta { audio_pid, video_pid, caption_pid },
        ),
        _ => None,
    }
}

/// Finds the PID of the program map table of the main program: that of the
/// first entry of the program association table that is not the network's.
pub fn find_main_pmt_pid(pas: &ProgramAssociationSection) -> (r: Option<u16>)
    ensures
        r == spec_first_program(pas@.program_association, 0),
{
    let mut i: usize = 0;
    while i < pas.program_association.len()
        invariant
            i <= pas.program_association@.len(),
            spec_first_program(pas@.program_association, 0) == spec_first_program(
                pas@.program_association,
                i as int,
            ),
        decreases pas.program_association@.len() - i,
    {
        let (program_number, pid) = pas.program_association[i];
        if program_number != 0 {
            return Some(pid);
        }
        i += 1;
    }
    None
}

/// The streams that a section gives: those of the program map table that it
/// holds, if it holds one that can be read and that has all three.
pub open spec fn spec_meta_from_section(b: Seq<u8>) -> Option<Meta> {
    if b.len() >= 1 && b[0] == TS_PROGRAM_MAP_SECTION {
        match spec_pmt(b) {
            Ok(pms) => spec_find_meta(pms),
            Err(_) => None,
        }
    } else {
        None
    }
}

/// The PID of the program map table of the main program that a section
/// gives: that of the program association table that it holds, if it holds
/// one that can be read and that names a program.
pub open spec fn spec_main_pmt_pid_from_section(b: Seq<u8>) -> Option<u16> {
    if b.len() >= 1 && b[0] == PROGRAM_ASSOCIATION_SECTION {
        match spec_pat(b) {
            Ok(pas) => spec_first_program(pas.program_association, 0),
            Err(_) => None,
        }
    } else {
        None
    }
}

/// Looks in a reassembled section of the PID of the program map table for
/// the streams that the caption and jitter commands need, as
/// [`spec_meta_from_section`] says.
pub fn meta_from_section(bytes: &[u8]) -> (r: Option<Meta>)
    ensures
        r == spec_meta_from_section(bytes@),
{
    if bytes.len() < 1 || bytes[0] != TS_PROGRAM_MAP_SECTION {
        return None;
    }
    match TSProgramMapSection::parse(bytes) {
        Ok(pms) => find_meta(&pms),
        Err(_) => None,
    }
}

/// Looks in a reassembled section of the PID of the program association
/// table for the PID of the program map table of the main program, as
/// [`spec_main_pmt_pid_from_section`] says.
pub fn main_pmt_pid_from_section(bytes: &[u8]) -> (r: Option<u16>)
    ensures
        r == spec_main_pmt_pid_from_section(bytes@),
{
    if bytes.len() < 1 || bytes[0] != PROGRAM_ASSOCIATION_SECTION {
        return None;
    }
    match ProgramAssociationSection::parse(bytes) {
        Ok(pas) => find_main_pmt_pid(&pas),
        Err(_) => None,
    }
}

/// Gives the presentation time stamp of a reassembled PES packet of the
/// video stream if the packet holds the start of an I-picture.
pub fn find_first_picture_pts(bytes: &[u8]) -> (r: Option<u64>)
    ensures
        r == spec_picture_pts(bytes@),
{
    let pes = match PESPacket::parse(bytes) {
        Ok(pes) => pes,
        Err(_) => return None,
    };
    if let PESPacketBody::NormalPESPacketBody(ref body) = pes.body {
        if is_i_picture(body.pes_packet_data_byte) {
            return pes.get_pts();
        }
    }
    None
}

/// Tells whether a packet goes on to the stages after the framing: packets
/// marked as in error do not.
pub fn strip_error_packets(packet: &TSPacket) -> (keep: bool)
    ensures
        keep == !packet@.transport_error_indicator,
{
    !packet.transport_error_indicator
}

} // verus!
