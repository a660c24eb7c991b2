pub mod buffer;
pub mod descriptor;
pub mod eit;
pub mod pat;
pub mod pmt;
pub mod sdt;

pub use self::buffer::{Buffer, BufferError};
pub use self::descriptor::Descriptor;
pub use self::eit::{Event, EventInformationSection, ScheduleType};
pub use self::pat::ProgramAssociationSection;
pub use self::pmt::{
    StreamInfo, TSProgramMapSection, STREAM_TYPE_ADTS, STREAM_TYPE_H264,
    STREAM_TYPE_PES_PRIVATE_DATA, STREAM_TYPE_VIDEO,
};
pub use self::sdt::{
    Service, ServiceDescriptionSection, OTHER_STREAM_TABLE_ID, SDT_PID, SELF_STREAM_TABLE_ID,
};
use vstd::prelude::*;

verus! {

/// The table id of a program association section.
pub const PROGRAM_ASSOCIATION_SECTION: u8 = 0;

/// The table id of a conditional access section.
pub const CONDITIONAL_ACCESS_SECTION: u8 = 1;

/// The table id of a program map section.
pub const TS_PROGRAM_MAP_SECTION: u8 = 2;

} // verus!
