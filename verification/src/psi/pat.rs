use crate::crc32::{crc32, spec_crc32};
use crate::error::ParseError;
use crate::psi::buffer::spec_section_length;
use crate::psi::PROGRAM_ASSOCIATION_SECTION;
use crate::util::{
    be16, bits, length12, pid, read_u32, spec_be16, spec_be32, spec_bits, spec_pid,
};
use std::collections::HashMap;
use vstd::prelude::*;

verus! {

broadcast use vstd::std_specs::hash::group_hash_axioms;

/// The longest that the header of a section may say the section is.
pub const MAX_SECTION_LENGTH: usize = 1021;

/// A program association table: for each program number the PID of its
/// program map table, in the order of the section. Program number zero
/// stands for the network PID. The order is kept because a service is
/// chosen by its place among the entries; `program_map` gives them as a
/// map, which has no such order.
#[derive(Debug)]
pub struct ProgramAssociationSection<'a> {
    pub table_id: u8,
    pub section_syntax_indicator: u8,
    pub transport_stream_id: u16,
    pub version_number: u8,
    pub current_next_indicator: u8,
    pub section_number: u8,
    pub last_section_number: u8,
    pub program_association: Vec<(u16, u16)>,
    pub crc_32: u32,
    pub raw_bytes: &'a [u8],
}

/// What a [`ProgramAssociationSection`] holds.
pub struct ProgramAssociationSectionView {
    pub table_id: u8,
    pub section_syntax_indicator: u8,
    pub transport_stream_id: u16,
    pub version_number: u8,
    pub current_next_indicator: u8,
    pub section_number: u8,
    pub last_section_number: u8,
    pub program_association: Seq<(u16, u16)>,
    pub crc_32: u32,
    pub raw_bytes: Seq<u8>,
}

impl<'a> View for ProgramAssociationSection<'a> {
    type V = ProgramAssociationSectionView;

    open spec fn view(&self) -> ProgramAssociationSectionView {
        ProgramAssociationSectionView {
            table_id: self.table_id,
            section_syntax_indicator: self.section_syntax_indicator,
            transport_stream_id: self.transport_stream_id,
            version_number: self.version_number,
            current_next_indicator: self.current_next_indicator,
            section_number: self.section_number,
            last_section_number: self.last_section_number,
            program_association: self.program_association@,
            crc_32: self.crc_32,
            raw_bytes: self.raw_bytes@,
        }
    }
}

/// The entry of four bytes at `at`: a program number and a PID.
pub open spec fn spec_program(b: Seq<u8>, at: int) -> (u16, u16) {
    (spec_be16(b[at], b[at + 1]) as u16, spec_pid(b[at + 2], b[at + 3]) as u16)
}

/// The entries of four bytes that fill `b` from `start` up to `end`.
pub open spec fn spec_programs(b: Seq<u8>, start: int, end: int) -> Seq<(u16, u16)> {
    Seq::new(((end - start) / 4) as nat, |i: int| spec_program(b, start + 4 * i))
}

/// The map from program numbers to PIDs that the entries make: of two
/// entries with one program number the later counts.
pub open spec fn spec_program_map(programs: Seq<(u16, u16)>) -> Map<u16, u16>
    decreases programs.len(),
{
    if programs.len() == 0 {
        Map::empty()
    } else {
        spec_program_map(programs.drop_last()).insert(programs.last().0, programs.last().1)
    }
}

/// The CRC-32 that the last four bytes of the section of `n` bytes at the
/// start of `b` hold.
pub open spec fn spec_trailer(b: Seq<u8>, n: int) -> u32 {
    spec_be32(b[n - 4], b[n - 3], b[n - 2], b[n - 1]) as u32
}

/// Tells whether the last four bytes of the section of `n` bytes at the
/// start of `b` hold the CRC-32 of the bytes before them.
pub open spec fn spec_crc_holds(b: Seq<u8>, n: int) -> bool {
    spec_crc32(b.take(n - 4)) == spec_trailer(b, n)
}

/// The program association table that the section `b` holds: eight bytes of
/// header, the entries, and the CRC-32 of all that comes before it.
pub open spec fn spec_pat(b: Seq<u8>) -> Result<ProgramAssociationSectionView, ParseError> {
    if b.len() < 1 {
        Err(ParseError::TooShort)
    } else if b[0] != PROGRAM_ASSOCIATION_SECTION {
        Err(ParseError::InvalidTableId)
    } else if b.len() < 8 {
        Err(ParseError::TooShort)
    } else if spec_section_length(b) > MAX_SECTION_LENGTH {
        Err(ParseError::InvalidLength)
    } else if b.len() < 3 + spec_section_length(b) {
        Err(ParseError::TooShort)
    } else if spec_section_length(b) < 9 || (spec_section_length(b) - 9) % 4 != 0 {
        Err(ParseError::InvalidLength)
    } else if !spec_crc_holds(b, 3 + spec_section_length(b)) {
        Err(ParseError::CrcMismatch)
    } else {
        let n = 3 + spec_section_length(b);
        Ok(
            ProgramAssociationSectionView {
                table_id: b[0],
                section_syntax_indicator: spec_bits(b[1], 7, 1) as u8,
                transport_stream_id: spec_be16(b[3], b[4]) as u16,
                version_number: spec_bits(b[5], 1, 5) as u8,
                current_next_indicator: spec_bits(b[5], 0, 1) as u8,
                section_number: b[6],
                last_section_number: b[7],
                program_association: spec_programs(b, 8, n - 4),
                crc_32: spec_trailer(b, n),
                raw_bytes: b.take(n),
            },
        )
    }
}

/// Reads the entries of four bytes that fill `bytes` from `start` up to `end`.
pub fn read_programs(bytes: &[u8], start: usize, end: usize) -> (r: Vec<(u16, u16)>)
    requires
        start <= end <= bytes@.len(),
        (end - start) % 4 == 0,
    ensures
        r@ == spec_programs(bytes@, start as int, end as int),
{
    let mut programs: Vec<(u16, u16)> = Vec::new();
    let mut at = start;
    while at < end
        invariant
            start <= at <= end <= bytes@.len(),
            (at - start) % 4 == 0,
            (end - start) % 4 == 0,
            programs@ == spec_programs(bytes@, start as int, at as int),
        decreases end - at,
    {
        let program_number = be16(bytes[at], bytes[at + 1]);
        let pid = pid(bytes[at + 2], bytes[at + 3]);
        programs.push((program_number, pid));
        at += 4;
        proof {
            assert(programs@ =~= spec_programs(bytes@, start as int, at as int));
        }
    }
    programs
}

/// Tells whether the section of `n` bytes at the start of `bytes` ends with
/// the CRC-32 of the bytes before it, and reads that trailer.
pub fn check_crc(bytes: &[u8], n: usize) -> (r: (bool, u32))
    requires
        4 <= n <= bytes@.len(),
    ensures
        r.0 == spec_crc_holds(bytes@, n as int),
        r.1 == spec_trailer(bytes@, n as int),
{
    let trailer = match read_u32(&bytes[n - 4..n]) {
        Ok(trailer) => trailer,
        Err(_) => 0,
    };
    proof {
        assert(bytes@.subrange(0, n - 4) =~= bytes@.take(n - 4));
    }
    (crc32(&bytes[0..n - 4]) == trailer, trailer)
}

impl<'a> ProgramAssociationSection<'a> {
    /// Reads a program association table from a section.
    pub fn parse(bytes: &'a [u8]) -> (r: Result<ProgramAssociationSection<'a>, ParseError>)
        ensures
            match spec_pat(bytes@) {
                Ok(v) => r matches Ok(s) && s@ == v,
                Err(e) => r matches Err(x) && x == e,
            },
    {
        if bytes.len() < 1 {
            return Err(ParseError::TooShort);
        }
        let table_id = bytes[0];
        if table_id != PROGRAM_ASSOCIATION_SECTION {
            return Err(ParseError::InvalidTableId);
        }
        if bytes.len() < 8 {
            return Err(ParseError::TooShort);
        }
        let section_syntax_indicator = bits(bytes[1], 7, 1);
        let section_length = length12(bytes[1], bytes[2]);
        if section_length > MAX_SECTION_LENGTH {
            return Err(ParseError::InvalidLength);
        }
        let transport_stream_id = be16(bytes[3], bytes[4]);
        let version_number = bits(bytes[5], 1, 5);
        let current_next_indicator = bits(bytes[5], 0, 1);
        let section_number = bytes[6];
        let last_section_number = bytes[7];
        if bytes.len() < 3 + section_length {
            return Err(ParseError::TooShort);
        }
        if section_length < 9 || (section_length - 9) % 4 != 0 {
            return Err(ParseError::InvalidLength);
        }
        let (crc_holds, crc_32) = check_crc(bytes, 3 + section_length);
        if !crc_holds {
            return Err(ParseError::CrcMismatch);
        }
        let program_association = read_programs(bytes, 8, 3 + section_length - 4);
        proof {
            assert(bytes@.subrange(0, 3 + section_length) =~= bytes@.take(3 + section_length));
        }
        Ok(
            ProgramAssociationSection {
                table_id,
                section_syntax_indicator,
                transport_stream_id,
                version_number,
                current_next_indicator,
                section_number,
                last_section_number,
                program_association,
                crc_32,
                raw_bytes: &bytes[0..3 + section_length],
            },
        )
    }

    /// The entries as a map from program numbers to PIDs, as
    /// [`spec_program_map`] says.
    pub fn program_map(&self) -> (m: HashMap<u16, u16>)
        ensures
            m@ == spec_program_map(self@.program_association),
    {
        let mut m: HashMap<u16, u16> = HashMap::new();
        let mut i: usize = 0;
        let ghost programs = self@.program_association;
        proof {
            assert(programs.take(0) =~= Seq::<(u16, u16)>::empty());
        }
        while i < self.program_association.len()
            invariant
                i <= programs.len(),
                programs == self.program_association@,
                m@ == spec_program_map(programs.take(i as int)),
            decreases programs.len() - i,
        {
            let (program_number, pid) = self.program_association[i];
            proof {
                assert(programs.take(i + 1).drop_last() =~= programs.take(i as int));
                assert(programs.take(i + 1).last() == programs[i as int]);
            }
            m.insert(program_number, pid);
            i += 1;
        }
        proof {
            assert(programs.take(i as int) =~= programs);
        }
        m
    }

    /// The CRC-32 of the whole section, trailer included.
    pub fn calculate_crc32(&self) -> (crc: u32)
        ensures
            crc == spec_crc32(self@.raw_bytes),
    {
        crc32(self.raw_bytes)
    }
}

} // verus!
