use crate::error::ParseError;
use crate::psi::buffer::spec_section_length;
use crate::psi::descriptor::{spec_descriptors, Descriptor, DescriptorView};
use crate::psi::pat::spec_trailer;
use crate::util::{
    be16, be32, bits, lemma_list_done, lemma_list_step, length12, list_so_far, spec_be16,
    spec_bits, spec_length12, spec_list, views,
};
use vstd::prelude::*;

verus! {

/// The PID of the service description table.
pub const SDT_PID: u16 = 0x0011;

/// The table id of the service description of the stream itself.
pub const SELF_STREAM_TABLE_ID: u8 = 0x42;

/// The table id of the service description of another stream.
pub const OTHER_STREAM_TABLE_ID: u8 = 0x46;

/// One service of a transport stream.
#[derive(Debug)]
pub struct Service<'a> {
    pub service_id: u16,
    pub eit_user_defined_flags: u8,
    pub eit_schedule_flag: u8,
    pub eit_present_following_flag: u8,
    pub running_status: u8,
    pub free_ca_mode: u8,
    pub descriptors: Vec<Descriptor<'a>>,
}

/// A service description table: the services of a transport stream.
#[derive(Debug)]
pub struct ServiceDescriptionSection<'a> {
    pub table_id: u8,
    pub section_syntax_indicator: u8,
    pub transport_stream_id: u16,
    pub version_number: u8,
    pub current_next_indicator: u8,
    pub section_number: u8,
    pub last_section_number: u8,
    pub original_network_id: u16,
    pub services: Vec<Service<'a>>,
    pub crc32: u32,
    pub raw_bytes: &'a [u8],
}

/// What a [`Service`] holds.
pub struct ServiceView {
    pub service_id: u16,
    pub eit_user_defined_flags: u8,
    pub eit_schedule_flag: u8,
    pub eit_present_following_flag: u8,
    pub running_status: u8,
    pub free_ca_mode: u8,
    pub descriptors: Seq<DescriptorView>,
}

/// What a [`ServiceDescriptionSection`] holds.
pub struct ServiceDescriptionSectionView {
    pub table_id: u8,
    pub section_syntax_indicator: u8,
    pub transport_stream_id: u16,
    pub version_number: u8,
    pub current_next_indicator: u8,
    pub section_number: u8,
    pub last_section_number: u8,
    pub original_network_id: u16,
    pub services: Seq<ServiceView>,
    pub crc32: u32,
    pub raw_bytes: Seq<u8>,
}

impl<'a> View for Service<'a> {
    type V = ServiceView;

    open spec fn view(&self) -> ServiceView {
        ServiceView {
            service_id: self.service_id,
            eit_user_defined_flags: self.eit_user_defined_flags,
            eit_schedule_flag: self.eit_schedule_flag,
            eit_present_following_flag: self.eit_present_following_flag,
            running_status: self.running_status,
            free_ca_mode: self.free_ca_mode,
            descriptors: views(self.descriptors@),
        }
    }
}

impl<'a> View for ServiceDescriptionSection<'a> {
    type V = ServiceDescriptionSectionView;

    open spec fn view(&self) -> ServiceDescriptionSectionView {
        ServiceDescriptionSectionView {
            table_id: self.table_id,
            section_syntax_indicator: self.section_syntax_indicator,
            transport_stream_id: self.transport_stream_id,
            version_number: self.version_number,
            current_next_indicator: self.current_next_indicator,
            section_number: self.section_number,
            last_section_number: self.last_section_number,
            original_network_id: self.original_network_id,
            services: views(self.services@),
            crc32: self.crc32,
            raw_bytes: self.raw_bytes@,
        }
    }
}

/// The service entry at the start of `b`: its id, its flags, and its
/// descriptors behind their total length; and the bytes that it takes.
pub open spec fn spec_service(b: Seq<u8>) -> Result<(ServiceView, int), ParseError> {
    if b.len() < 5 || b.len() < 5 + spec_length12(b[3], b[4]) {
        Err(ParseError::TooShort)
    } else {
        let end = 5 + spec_length12(b[3], b[4]);
        match spec_descriptors(b.subrange(5, end)) {
            Err(e) => Err(e),
            Ok(descriptors) => Ok(
                (
                    ServiceView {
                        service_id: spec_be16(b[0], b[1]) as u16,
                        eit_user_defined_flags: spec_bits(b[2], 2, 3) as u8,
                        eit_schedule_flag: spec_bits(b[2], 1, 1) as u8,
                        eit_present_following_flag: spec_bits(b[2], 0, 1) as u8,
                        running_status: spec_bits(b[3], 5, 3) as u8,
                        free_ca_mode: spec_bits(b[3], 4, 1) as u8,
                        descriptors,
                    },
                    end,
                ),
            ),
        }
    }
}

/// The service description table that the section `b` holds: eleven bytes of
/// header, the service entries, and four bytes of CRC-32.
pub open spec fn spec_sdt(b: Seq<u8>) -> Result<ServiceDescriptionSectionView, ParseError> {
    if b.len() < 11 || b.len() < 3 + spec_section_length(b) {
        Err(ParseError::TooShort)
    } else if spec_section_length(b) < 12 {
        Err(ParseError::InvalidLength)
    } else {
        let n = 3 + spec_section_length(b);
        match spec_list(b.subrange(11, n - 4), |s: Seq<u8>| spec_service(s)) {
            Err(e) => Err(e),
            Ok(services) => Ok(
                ServiceDescriptionSectionView {
                    table_id: b[0],
                    section_syntax_indicator: spec_bits(b[1], 7, 1) as u8,
                    transport_stream_id: spec_be16(b[3], b[4]) as u16,
                    version_number: spec_bits(b[5], 1, 5) as u8,
                    current_next_indicator: spec_bits(b[5], 0, 1) as u8,
                    section_number: b[6],
                    last_section_number: b[7],
                    original_network_id: spec_be16(b[8], b[9]) as u16,
                    services,
                    crc32: spec_trailer(b, n),
                    raw_bytes: b,
                },
            ),
        }
    }
}

impl<'a> Service<'a> {
    /// Reads the service entry at the start of `bytes` and tells how many
    /// bytes it takes.
    pub fn parse(bytes: &'a [u8]) -> (r: Result<(Service<'a>, usize), ParseError>)
        ensures
            match spec_service(bytes@) {
                Ok((v, n)) => r matches Ok((s, m)) && s@ == v && m == n,
                Err(e) => r matches Err(x) && x == e,
            },
    {
        if bytes.len() < 5 {
            return Err(ParseError::TooShort);
        }
        let service_id = be16(bytes[0], bytes[1]);
        let eit_user_defined_flags = bits(bytes[2], 2, 3);
        let eit_schedule_flag = bits(bytes[2], 1, 1);
        let eit_present_following_flag = bits(bytes[2], 0, 1);
        let running_status = bits(bytes[3], 5, 3);
        let free_ca_mode = bits(bytes[3], 4, 1);
        let descriptors_loop_length = length12(bytes[3], bytes[4]);
        if bytes.len() < 5 + descriptors_loop_length {
            return Err(ParseError::TooShort);
        }
        let descriptors = Descriptor::parse_all(&bytes[5..5 + descriptors_loop_length])?;
        Ok(
            (
                Service {
                    service_id,
                    eit_user_defined_flags,
                    eit_schedule_flag,
                    eit_present_following_flag,
                    running_status,
                    free_ca_mode,
                    descriptors,
                },
                5 + descriptors_loop_length,
            ),
        )
    }

    /// Reads the service entries that fill `bytes`.
    pub fn parse_all(bytes: &'a [u8]) -> (r: Result<Vec<Service<'a>>, ParseError>)
        ensures
            match spec_list(bytes@, |b: Seq<u8>| spec_service(b)) {
                Ok(v) => r matches Ok(d) && views(d@) == v,
                Err(e) => r matches Err(x) && x == e,
            },
    {
        let mut items: Vec<Service<'a>> = Vec::new();
        let mut rest = bytes;
        let ghost item = |b: Seq<u8>| spec_service(b);
        proof {
            assert(Seq::<ServiceView>::empty() + spec_list(bytes@, item)->Ok_0 =~= spec_list(
                bytes@,
                item,
            )->Ok_0);
            assert(views(items@) =~= Seq::<ServiceView>::empty());
        }
        while rest.len() > 0
            invariant
                list_so_far(bytes@, item, views(items@), rest@),
                item == (|b: Seq<u8>| spec_service(b)),
            decreases rest@.len(),
        {
            proof {
                lemma_list_step(bytes@, item, views(items@), rest@);
            }
            let (one, n) = Service::parse(rest)?;
            if n > rest.len() {
                return Err(ParseError::TooShort);
            }
            proof {
                assert(views(items@.push(one)) =~= views(items@).push(one@));
                assert(rest@.subrange(n as int, rest@.len() as int) =~= rest@.skip(n as int));
            }
            items.push(one);
            rest = &rest[n..rest.len()];
        }
        proof {
            lemma_list_done(bytes@, item, views(items@), rest@);
        }
        Ok(items)
    }
}

impl<'a> ServiceDescriptionSection<'a> {
    /// Reads a service description table from a section.
    pub fn parse(bytes: &'a [u8]) -> (r: Result<ServiceDescriptionSection<'a>, ParseError>)
        ensures
            match spec_sdt(bytes@) {
                Ok(v) => r matches Ok(s) && s@ == v,
                Err(e) => r matches Err(x) && x == e,
            },
    {
        if bytes.len() < 11 {
            return Err(ParseError::TooShort);
        }
        let table_id = bytes[0];
        let section_syntax_indicator = bits(bytes[1], 7, 1);
        let section_length = length12(bytes[1], bytes[2]);
        let transport_stream_id = be16(bytes[3], bytes[4]);
        let version_number = bits(bytes[5], 1, 5);
        let current_next_indicator = bits(bytes[5], 0, 1);
        let section_number = bytes[6];
        let last_section_number = bytes[7];
        let original_network_id = be16(bytes[8], bytes[9]);
        if bytes.len() < 3 + section_length {
            return Err(ParseError::TooShort);
        }
        if section_length < 12 {
            return Err(ParseError::InvalidLength);
        }
        let end = 3 + section_length;
        let services = Service::parse_all(&bytes[11..end - 4])?;
        let crc32 = be32(bytes[end - 4], bytes[end - 3], bytes[end - 2], bytes[end - 1]);
        Ok(
            ServiceDescriptionSection {
                table_id,
                section_syntax_indicator,
                transport_stream_id,
                version_number,
                current_next_indicator,
                section_number,
                last_section_number,
                original_network_id,
                services,
                crc32,
                raw_bytes: bytes,
            },
        )
    }
}

} // verus!
