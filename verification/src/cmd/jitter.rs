use crate::pes::{spec_pes_packet, PESPacket, PESPacketBodyView, PTS_HZ};
use vstd::prelude::*;

verus! {

/// The presentation time stamp of the PES packet `b`, if it can be read and
/// has one.
pub open spec fn spec_audio_pts(b: Seq<u8>) -> Option<u64> {
    match spec_pes_packet(b) {
        Ok(pes) => match pes.body {
            PESPacketBodyView::NormalPESPacketBody(body) => body.fields.pts,
            _ => None,
        },
        Err(_) => None,
    }
}

/// Gives the presentation time stamp of a reassembled PES packet of the
/// audio stream.
pub fn find_first_audio_pts(bytes: &[u8]) -> (r: Option<u64>)
    ensures
        r == spec_audio_pts(bytes@),
{
    match PESPacket::parse(bytes) {
        Ok(pes) => pes.get_pts(),
        Err(_) => None,
    }
}

/// A presentation time stamp has 33 bits: it is below this.
pub const PTS_LIMIT: u64 = 0x2_0000_0000;

/// The ticks by which the first picture is due after the first audio: the
/// time stamp of the picture less that of the audio, below zero where the
/// audio is the later one.
pub open spec fn spec_jitter(video_pts: u64, audio_pts: u64) -> int {
    video_pts as int - audio_pts as int
}

/// Gives the ticks of [`PTS_HZ`] to a second by which the first picture is
/// due after the first audio.
pub fn jitter(video_pts: u64, audio_pts: u64) -> (ticks: i64)
    requires
        video_pts < PTS_LIMIT,
        audio_pts < PTS_LIMIT,
    ensures
        ticks == spec_jitter(video_pts, audio_pts),
{
    video_pts as i64 - audio_pts as i64
}

} // verus!
