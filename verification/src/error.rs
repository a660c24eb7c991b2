use vstd::prelude::*;

verus! {

/// Why a table, a descriptor or a packet could not be read from its bytes.
#[derive(Debug, Clone, Copy, PartialEq, Eq, Structural)]
pub enum ParseError {
    /// The input ends before the field that is being read.
    TooShort,
    /// The first byte is not the table id of the table that is being read.
    InvalidTableId,
    /// A length field contradicts the layout that holds it.
    InvalidLength,
    /// The first byte is not the tag of the descriptor that is being read.
    InvalidTag,
    /// A language code is not valid UTF-8.
    InvalidLanguageCode,
    /// An hour, minute or second of a start time is out of range.
    InvalidTime,
    /// A DRCS font uses a mode other than 1.
    InvalidDrcsMode,
    /// A DRCS font uses a depth other than 2.
    InvalidDrcsDepth,
    /// The CRC-32 at the end of a section is not the one of its bytes.
    CrcMismatch,
    /// A packet does not start with the sync byte.
    MissingSyncByte,
    /// A value of a closed code list is not one of its members.
    InvalidCode,
}

} // verus!
