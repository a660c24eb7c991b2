pub mod demuxer;
pub mod packet;

pub use self::packet::{AdaptationField, TSPacket, TSPacketDecoder, TS_PACKET_LENGTH};
use vstd::prelude::*;

verus! {

/// The PID of the program association table.
pub const PAT_PID: u16 = 0;

/// The PIDs that carry event information tables.
pub const EIT_PIDS: [u16; 3] = [0x0012, 0x0026, 0x0027];

/// The PID of the conditional access table.
pub const CAT_PID: u16 = 1;

/// The PID of the transport stream description table.
pub const TSDT_PID: u16 = 2;

} // verus!
