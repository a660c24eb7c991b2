use crate::error::ParseError;
use crate::psi::buffer::spec_section_length;
use crate::psi::descriptor::{spec_descriptors, Descriptor, DescriptorView};
use crate::psi::pat::spec_trailer;
use crate::util::{
    bcd, be16, be32, bits, flag, lemma_list_done, lemma_list_step, length12, list_so_far,
    spec_bcd, spec_be16, spec_bits, spec_length12, spec_list, views,
};
use vstd::prelude::*;

verus! {

/// The seconds by which the clock of the start times is ahead of UTC: nine hours.
pub const UTC_OFFSET_SECONDS: i32 = 9 * 3600;

/// The Julian day number of the first day that a 16-bit modified Julian date
/// can name, counted in the time zone of the start times.
pub const FIRST_JULIAN_DAY: u32 = 2400001;

/// A date and a time of day on the clock that is nine hours ahead of UTC.
#[derive(Debug, Clone, Copy, PartialEq, Eq, Structural)]
pub struct DateTime {
    pub year: u32,
    pub month: u32,
    pub day: u32,
    pub hour: u32,
    pub minute: u32,
    pub second: u32,
}

/// A length of time in whole seconds.
#[derive(Debug, Clone, Copy, PartialEq, Eq, Structural)]
pub struct Duration {
    pub seconds: u32,
}

/// One event of an event information table.
#[derive(Debug)]
pub struct Event<'a> {
    pub event_id: u16,
    pub start_time: Option<DateTime>,
    pub duration: Option<Duration>,
    pub running_status: u8,
    pub free_ca_mode: bool,
    pub descriptors: Vec<Descriptor<'a>>,
}

/// Whether a table tells of this stream or another, and of the events now and next or of the schedule.
#[derive(Debug, Clone, Copy, PartialEq, Eq, Structural)]
pub enum ScheduleType {
    SelfNow,
    OtherNow,
    SelfFuture,
    OtherFuture,
}

/// An event information table: the events of one service.
#[derive(Debug)]
pub struct EventInformationSection<'a> {
    pub table_id: u8,
    pub section_syntax_indicator: u8,
    pub service_id: u16,
    pub version_number: u8,
    pub current_next_indicator: u8,
    pub section_number: u8,
    pub last_section_number: u8,
    pub transport_stream_id: u16,
    pub original_network_id: u16,
    pub segment_last_section_number: u8,
    pub last_table_id: u8,
    pub events: Vec<Event<'a>>,
    pub crc_32: u32,
    pub raw_bytes: &'a [u8],
    pub schedule_type: ScheduleType,
}

/// What an [`Event`] holds.
pub struct EventView {
    pub event_id: u16,
    pub start_time: Option<DateTime>,
    pub duration: Option<Duration>,
    pub running_status: u8,
    pub free_ca_mode: bool,
    pub descriptors: Seq<DescriptorView>,
}

/// What an [`EventInformationSection`] holds.
pub struct EventInformationSectionView {
    pub table_id: u8,
    pub section_syntax_indicator: u8,
    pub service_id: u16,
    pub version_number: u8,
    pub current_next_indicator: u8,
    pub section_number: u8,
    pub last_section_number: u8,
    pub transport_stream_id: u16,
    pub original_network_id: u16,
    pub segment_last_section_number: u8,
    pub last_table_id: u8,
    pub events: Seq<EventView>,
    pub crc_32: u32,
    pub raw_bytes: Seq<u8>,
    pub schedule_type: ScheduleType,
}

impl<'a> View for Event<'a> {
    type V = EventView;

    open spec fn view(&self) -> EventView {
        EventView {
            event_id: self.event_id,
            start_time: self.start_time,
            duration: self.duration,
            running_status: self.running_status,
            free_ca_mode: self.free_ca_mode,
            descriptors: views(self.descriptors@),
        }
    }
}

impl<'a> View for EventInformationSection<'a> {
    type V = EventInformationSectionView;

    open spec fn view(&self) -> EventInformationSectionView {
        EventInformationSectionView {
            table_id: self.table_id,
            section_syntax_indicator: self.section_syntax_indicator,
            service_id: self.service_id,
            version_number: self.version_number,
            current_next_indicator: self.current_next_indicator,
            section_number: self.section_number,
            last_section_number: self.last_section_number,
            transport_stream_id: self.transport_stream_id,
            original_network_id: self.original_network_id,
            segment_last_section_number: self.segment_last_section_number,
            last_table_id: self.last_table_id,
            events: views(self.events@),
            crc_32: self.crc_32,
            raw_bytes: self.raw_bytes@,
            schedule_type: self.schedule_type,
        }
    }
}

/// The year, the month and the day of the Gregorian calendar on which the
/// Julian day `jd` falls.
pub open spec fn spec_jd_to_gregorian(jd: int) -> (int, int, int) {
    let f = jd + 1401 + (4 * jd + 274277) / 146097 * 3 / 4 - 38;
    let e = 4 * f + 3;
    let g = (e % 1461) / 4;
    let h = 5 * g + 2;
    let day = (h % 153) / 5 + 1;
    let month = (h / 153 + 2) % 12 + 1;
    let year = e / 1461 - 4716 + (14 - month) / 12;
    (year, month, day)
}

/// The number of the Julian day that the day `day` of the month `month` of
/// the year `year` of the Gregorian calendar is.
pub open spec fn spec_gregorian_to_jd(year: int, month: int, day: int) -> int {
    let a = (14 - month) / 12;
    let y = year + 4800 - a;
    let m = month + 12 * a - 3;
    day + (153 * m + 2) / 5 + 365 * y + y / 4 - y / 100 + y / 400 - 32045
}

/// Tells whether a year of the Gregorian calendar has a 29th of February.
pub open spec fn spec_is_leap_year(year: int) -> bool {
    year % 4 == 0 && (year % 100 != 0 || year % 400 == 0)
}

/// The number of days of a month of the Gregorian calendar.
pub open spec fn spec_days_in_month(year: int, month: int) -> int {
    if month == 2 {
        if spec_is_leap_year(year) {
            29
        } else {
            28
        }
    } else if month == 4 || month == 6 || month == 9 || month == 11 {
        30
    } else {
        31
    }
}

/// The Gregorian date of a Julian day names that same day: for every day
/// that a 16-bit modified Julian date can name, the date that
/// [`spec_jd_to_gregorian`] gives is a date of the calendar, with a month
/// from 1 to 12 and a day that the month has in that year, and its day
/// number is the day number that was given.
pub proof fn lemma_date_round_trip(mjd: int)
    requires
        0 <= mjd <= 0xffff,
    ensures
        ({
            let date = spec_jd_to_gregorian(mjd + FIRST_JULIAN_DAY);
            &&& 1 <= date.1 <= 12
            &&& 1 <= date.2 <= spec_days_in_month(date.0, date.1)
            &&& spec_gregorian_to_jd(date.0, date.1, date.2) == mjd + FIRST_JULIAN_DAY
        }),
{
    let jd = mjd + FIRST_JULIAN_DAY;
    // the centuries passed, for the days that the Gregorian calendar leaves out
    let c = (4 * jd + 274277) / 146097;
    assert(67 <= c <= 69);
    assert(c == 67 <==> jd <= 2415079);
    let k = c * 3 / 4;
    assert(k == if c == 67 {
        50int
    } else {
        51int
    });
    let f = jd + 1401 + k - 38;
    let e = 4 * f + 3;
    // the year that starts in March, counted from 4716 BC, and the day in it
    let yp = e / 1461;
    let g = (e % 1461) / 4;
    let s = (e % 1461) % 4;
    assert(e == 1461 * yp + 4 * g + s);
    assert(0 <= g <= 365 && 0 <= s <= 3);
    let h = 5 * g + 2;
    let mi = h / 153;
    assert(0 <= mi <= 11);
    let day = (h % 153) / 5 + 1;
    let month = (mi + 2) % 12 + 1;
    let a = (14 - month) / 12;
    assert(month == if mi <= 9 {
        mi + 3
    } else {
        mi - 9
    });
    assert(a == if mi <= 9 {
        0int
    } else {
        1int
    });
    let year = yp - 4716 + a;
    assert(spec_jd_to_gregorian(jd) == (year, month, day));
    let y = year + 4800 - a;
    let m = month + 12 * a - 3;
    assert(m == mi);
    // the days before the month and the day in the month make the day in the year
    assert((153 * mi + 2) / 5 + (h % 153) / 5 == g);
    // four years have 1461 days
    assert(4 * f + 3 == 1461 * yp + 4 * g + s);
    assert(f == 365 * yp + g + yp / 4);
    assert(y == yp + 84);
    assert(365 * y + y / 4 == f - g + 30681);
    // the leap days that the centuries leave out
    assert(jd <= 2415079 ==> yp <= 6615);
    assert(jd > 2415079 ==> yp >= 6616);
    assert(6657 <= y <= 6838);
    assert(y / 100 - y / 400 == k);
    // the months from March on have 31, 30, 31, 30, 31, 31, 30, 31, 30, 31, 31 days
    assert(153 * mi <= h < 153 * mi + 153);
    assert(day == (h - 153 * mi) / 5 + 1);
    if mi == 11 {
        // February has a 29th day only at the end of four years, and 1900 has none
        assert(day <= 29);
        if day == 29 {
            assert(g == 365);
            assert(e % 1461 == 1460);
            assert(yp % 4 == 3);
            assert(year == yp - 4715);
            assert(year % 4 == 0);
            assert(1858 <= year <= 2038);
            assert(yp != 6615);
            assert(year != 1900);
            assert(spec_is_leap_year(year));
        }
    } else {
        assert(month != 2);
        assert(day <= spec_days_in_month(year, month));
    }
}

/// The hours, minutes and seconds in the three bytes at `at`, each two
/// decimal digits; nothing where all bits are set.
pub open spec fn spec_hms(b: Seq<u8>, at: int) -> Option<(u8, u8, u8)> {
    if b[at] == 0xff && b[at + 1] == 0xff && b[at + 2] == 0xff {
        None
    } else {
        Some((spec_bcd(b[at]) as u8, spec_bcd(b[at + 1]) as u8, spec_bcd(b[at + 2]) as u8))
    }
}

/// Tells whether all bits of the five bytes at `at` are set.
pub open spec fn spec_undefined_time(b: Seq<u8>, at: int) -> bool {
    b[at] == 0xff && b[at + 1] == 0xff && b[at + 2] == 0xff && b[at + 3] == 0xff && b[at + 4]
        == 0xff
}

/// The start time in the five bytes at `at`: a modified Julian date in two
/// bytes, and the time of day. Nothing where all bits are set.
pub open spec fn spec_datetime(b: Seq<u8>, at: int) -> Result<Option<DateTime>, ParseError> {
    if spec_undefined_time(b, at) {
        Ok(None)
    } else {
        let date = spec_jd_to_gregorian(spec_be16(b[at], b[at + 1]) + FIRST_JULIAN_DAY);
        match spec_hms(b, at + 2) {
            None => Err(ParseError::InvalidTime),
            Some((hour, minute, second)) => if hour >= 24 || minute >= 60 || second >= 60 {
                Err(ParseError::InvalidTime)
            } else {
                Ok(
                    Some(
                        DateTime {
                            year: date.0 as u32,
                            month: date.1 as u32,
                            day: date.2 as u32,
                            hour: hour as u32,
                            minute: minute as u32,
                            second: second as u32,
                        },
                    ),
                )
            },
        }
    }
}

/// The duration in the three bytes at `at`; nothing where all bits are set.
pub open spec fn spec_duration(b: Seq<u8>, at: int) -> Option<Duration> {
    match spec_hms(b, at) {
        None => None,
        Some((h, m, s)) => Some(Duration { seconds: (h * 3600 + m * 60 + s) as u32 }),
    }
}

/// The event at the start of `b`: its id, start time and duration, its
/// status, and its descriptors behind their total length; and the bytes that
/// it takes.
pub open spec fn spec_event(b: Seq<u8>) -> Result<(EventView, int), ParseError> {
    if b.len() < 12 {
        Err(ParseError::TooShort)
    } else {
        match spec_datetime(b, 2) {
            Err(e) => Err(e),
            Ok(start_time) => if b.len() < 12 + spec_length12(b[10], b[11]) {
                Err(ParseError::TooShort)
            } else {
                let end = 12 + spec_length12(b[10], b[11]);
                match spec_descriptors(b.subrange(12, end)) {
                    Err(e) => Err(e),
                    Ok(descriptors) => Ok(
                        (
                            EventView {
                                event_id: spec_be16(b[0], b[1]) as u16,
                                start_time,
                                duration: spec_duration(b, 7),
                                running_status: spec_bits(b[10], 5, 3) as u8,
                                free_ca_mode: spec_bits(b[10], 4, 1) == 1,
                                descriptors,
                            },
                            end,
                        ),
                    ),
                }
            },
        }
    }
}

/// The kind of schedule that a table id stands for.
pub open spec fn spec_schedule_type(table_id: u8) -> Option<ScheduleType> {
    if table_id == 0x4e {
        Some(ScheduleType::SelfNow)
    } else if table_id == 0x4f {
        Some(ScheduleType::OtherNow)
    } else if 0x50 <= table_id <= 0x5f {
        Some(ScheduleType::SelfFuture)
    } else if 0x60 <= table_id <= 0x6f {
        Some(ScheduleType::OtherFuture)
    } else {
        None
    }
}

/// The event information table that the section `b` holds: fourteen bytes of
/// header, the events, and four bytes of CRC-32.
pub open spec fn spec_eit(b: Seq<u8>) -> Result<EventInformationSectionView, ParseError> {
    if b.len() < 14 {
        Err(ParseError::TooShort)
    } else if spec_schedule_type(b[0]) is None {
        Err(ParseError::InvalidTableId)
    } else if b.len() < 3 + spec_section_length(b) {
        Err(ParseError::TooShort)
    } else if spec_section_length(b) < 15 {
        Err(ParseError::InvalidLength)
    } else {
        let n = 3 + spec_section_length(b);
        match spec_list(b.subrange(14, n - 4), |e: Seq<u8>| spec_event(e)) {
            Err(e) => Err(e),
            Ok(events) => Ok(
                EventInformationSectionView {
                    table_id: b[0],
                    section_syntax_indicator: spec_bits(b[1], 7, 1) as u8,
                    service_id: spec_be16(b[3], b[4]) as u16,
                    version_number: spec_bits(b[5], 1, 5) as u8,
                    current_next_indicator: spec_bits(b[5], 0, 1) as u8,
                    section_number: b[6],
                    last_section_number: b[7],
                    transport_stream_id: spec_be16(b[8], b[9]) as u16,
                    original_network_id: spec_be16(b[10], b[11]) as u16,
                    segment_last_section_number: b[12],
                    last_table_id: b[13],
                    events,
                    crc_32: spec_trailer(b, n),
                    raw_bytes: b,
                    schedule_type: spec_schedule_type(b[0])->0,
                },
            ),
        }
    }
}

impl<'a> Event<'a> {
    /// Reads the event at the start of `bytes` and tells how many bytes it takes.
    pub fn parse(bytes: &'a [u8]) -> (r: Result<(Event<'a>, usize), ParseError>)
        ensures
            match spec_event(bytes@) {
                Ok((v, n)) => r matches Ok((s, m)) && s@ == v && m == n,
                Err(e) => r matches Err(x) && x == e,
            },
    {
        if bytes.len() < 12 {
            return Err(ParseError::TooShort);
        }
        let event_id = be16(bytes[0], bytes[1]);
        let start_time = Event::parse_datetime(bytes, 2)?;
        let duration = match Event::parse_hms(bytes, 7) {
            Some((h, m, s)) => Some(Duration { seconds: h as u32 * 3600 + m as u32 * 60 + s as u32 }),
            None => None,
        };
        let running_status = bits(bytes[10], 5, 3);
        let free_ca_mode = flag(bytes[10], 4);
        let descriptors_loop_length = length12(bytes[10], bytes[11]);
        if bytes.len() - 12 < descriptors_loop_length {
            return Err(ParseError::TooShort);
        }
        let descriptors = Descriptor::parse_all(&bytes[12..descriptors_loop_length + 12])?;
        Ok(
            (
                Event { event_id, start_time, duration, running_status, free_ca_mode, descriptors },
                descriptors_loop_length + 12,
            ),
        )
    }

    /// Reads the events that fill `bytes`.
    pub fn parse_all(bytes: &'a [u8]) -> (r: Result<Vec<Event<'a>>, ParseError>)
        ensures
            match spec_list(bytes@, |b: Seq<u8>| spec_event(b)) {
                Ok(v) => r matches Ok(d) && views(d@) == v,
                Err(e) => r matches Err(x) && x == e,
            },
    {
        let mut items: Vec<Event<'a>> = Vec::new();
        let mut rest = bytes;
        let ghost item = |b: Seq<u8>| spec_event(b);
        proof {
            assert(Seq::<EventView>::empty() + spec_list(bytes@, item)->Ok_0 =~= spec_list(
                bytes@,
                item,
            )->Ok_0);
            assert(views(items@) =~= Seq::<EventView>::empty());
        }
        while rest.len() > 0
            invariant
                list_so_far(bytes@, item, views(items@), rest@),
                item == (|b: Seq<u8>| spec_event(b)),
            decreases rest@.len(),
        {
            proof {
                lemma_list_step(bytes@, item, views(items@), rest@);
            }
            let (one, n) = Event::parse(rest)?;
            if n > rest.len() {
                return Err(ParseError::TooShort);
            }
            proof {
                assert(views(items@.push(one)) =~= views(items@).push(one@));
                assert(rest@.subrange(n as int, rest@.len() as int) =~= rest@.skip(n as int));
            }
            items.push(one);
            rest = &rest[n..rest.len()];
        }
        proof {
            lemma_list_done(bytes@, item, views(items@), rest@);
        }
        Ok(items)
    }

    /// Reads the start time in the five bytes at `at`.
    pub fn parse_datetime(bytes: &[u8], at: usize) -> (r: Result<Option<DateTime>, ParseError>)
        requires
            at + 5 <= bytes@.len(),
        ensures
            r == spec_datetime(bytes@, at as int),
    {
        proof {
            assert(bytes@.len() == bytes.len());
        }
        if bytes[at] == 0xff && bytes[at + 1] == 0xff && bytes[at + 2] == 0xff && bytes[at + 3]
            == 0xff && bytes[at + 4] == 0xff {
            return Ok(None);
        }
        // The date is the low 16 bits of the modified Julian date.
        let mjd = be16(bytes[at], bytes[at + 1]) as u32;
        // One day more: half a day from Julian days starting at noon, the
        // rest from the clock being nine hours ahead of UTC.
        let jd = mjd + FIRST_JULIAN_DAY;
        let (year, month, day) = Event::jd_to_gregorian(jd);
        // The time of day is on the same clock.
        match Event::parse_hms(bytes, at + 2) {
            Some((hour, minute, second)) => {
                if hour >= 24 || minute >= 60 || second >= 60 {
                    return Err(ParseError::InvalidTime);
                }
                Ok(
                    Some(
                        DateTime {
                            year,
                            month,
                            day,
                            hour: hour as u32,
                            minute: minute as u32,
                            second: second as u32,
                        },
                    ),
                )
            },
            None => Err(ParseError::InvalidTime),
        }
    }

    /// The date of the Gregorian calendar on which the Julian day `jd` falls,
    /// for the days that a 16-bit modified Julian date can name.
    pub fn jd_to_gregorian(jd: u32) -> (r: (u32, u32, u32))
        requires
            FIRST_JULIAN_DAY <= jd <= FIRST_JULIAN_DAY + 0xffff,
        ensures
            r.0 == spec_jd_to_gregorian(jd as int).0,
            r.1 == spec_jd_to_gregorian(jd as int).1,
            r.2 == spec_jd_to_gregorian(jd as int).2,
    {
        let y: u32 = 4716;
        let j: u32 = 1401;
        let m: u32 = 2;
        let n: u32 = 12;
        let r: u32 = 4;
        let p: u32 = 1461;
        let v: u32 = 3;
        let u: u32 = 5;
        let s: u32 = 153;
        let w: u32 = 2;
        let b: u32 = 274277;
        let c: u32 = 38;
        let f = jd + j + (4 * jd + b) / 146097 * 3 / 4 - c;
        let e = r * f + v;
        let g = (e % p) / r;
        let h = u * g + w;
        let day = (h % s) / u + 1;
        let month = (h / s + m) % n + 1;
        let year = e / p - y + (n + m - month) / n;
        (year, month, day)
    }

    /// Reads the hours, minutes and seconds in the three bytes at `at`.
    pub fn parse_hms(bytes: &[u8], at: usize) -> (r: Option<(u8, u8, u8)>)
        requires
            at + 3 <= bytes@.len(),
        ensures
            r == spec_hms(bytes@, at as int),
    {
        proof {
            assert(bytes@.len() == bytes.len());
        }
        // where the time is not given, all bits are set
        if bytes[at] == 0xff && bytes[at + 1] == 0xff && bytes[at + 2] == 0xff {
            return None;
        }
        Some((bcd(bytes[at]), bcd(bytes[at + 1]), bcd(bytes[at + 2])))
    }
}

impl<'a> EventInformationSection<'a> {
    /// Reads an event information table from a section.
    pub fn parse(bytes: &'a [u8]) -> (r: Result<EventInformationSection<'a>, ParseError>)
        ensures
            match spec_eit(bytes@) {
                Ok(v) => r matches Ok(s) && s@ == v,
                Err(e) => r matches Err(x) && x == e,
            },
    {
        if bytes.len() < 14 {
            return Err(ParseError::TooShort);
        }
        let table_id = bytes[0];
        let schedule_type = match EventInformationSection::schedule_type(table_id) {
            Some(schedule_type) => schedule_type,
            None => return Err(ParseError::InvalidTableId),
        };
        let section_syntax_indicator = bits(bytes[1], 7, 1);
        let section_length = length12(bytes[1], bytes[2]);
        let service_id = be16(bytes[3], bytes[4]);
        let version_number = bits(bytes[5], 1, 5);
        let current_next_indicator = bits(bytes[5], 0, 1);
        let section_number = bytes[6];
        let last_section_number = bytes[7];
        let transport_stream_id = be16(bytes[8], bytes[9]);
        let original_network_id = be16(bytes[10], bytes[11]);
        let segment_last_section_number = bytes[12];
        let last_table_id = bytes[13];
        if bytes.len() < 3 + section_length {
            return Err(ParseError::TooShort);
        }
        if section_length < 15 {
            return Err(ParseError::InvalidLength);
        }
        let end = 3 + section_length;
        let events = Event::parse_all(&bytes[14..end - 4])?;
        let crc_32 = be32(bytes[end - 4], bytes[end - 3], bytes[end - 2], bytes[end - 1]);
        Ok(
            EventInformationSection {
                table_id,
                section_syntax_indicator,
                service_id,
                version_number,
                current_next_indicator,
                section_number,
                last_section_number,
                transport_stream_id,
                original_network_id,
                segment_last_section_number,
                last_table_id,
                events,
                crc_32,
                raw_bytes: bytes,
                schedule_type,
            },
        )
    }

    /// The kind of schedule that the table id stands for, if it is one of an
    /// event information table.
    pub fn schedule_type(table_id: u8) -> (r: Option<ScheduleType>)
        ensures
            r == spec_schedule_type(table_id),
    {
        match table_id {
            0x4e => Some(ScheduleType::SelfNow),
            0x4f => Some(ScheduleType::OtherNow),
            0x50..=0x5f => Some(ScheduleType::SelfFuture),
            0x60..=0x6f => Some(ScheduleType::OtherFuture),
            _ => None,
        }
    }
}

} // verus!
