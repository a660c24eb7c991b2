use arib_ts::arib::string::{CodeTables, Error};
use arib_ts::cmd::event_map::into_event_map;
use arib_ts::cmd::events::{
    decode_to_utf8, event_record, find_service_ids, packets_to_events, service_ids_from_section,
    stringify_genre, try_into_event, Draft, Event,
};
use arib_ts::ts::EIT_PIDS;
use arib_ts::crc32::crc32;
use arib_ts::psi::descriptor::{ExtendedEventDescriptorItem, Genre};
use arib_ts::psi::eit::{DateTime, Duration, EventInformationSection};
use arib_ts::psi::sdt::ServiceDescriptionSection;
use std::collections::BTreeMap;

fn events_section(table_id: u8, id: u16, body: &[u8]) -> Vec<u8> {
    let length = 5 + body.len() + 4;
    let mut s = vec![table_id, 0xb0 | (length >> 8) as u8, length as u8, (id >> 8) as u8, id as u8, 0xc1, 0, 0];
    s.extend_from_slice(body);
    let crc = crc32(&s);
    s.extend_from_slice(&crc.to_be_bytes());
    s
}

fn guide_event(id: u16, start: [u8; 5], duration: [u8; 3], descriptors: &[u8]) -> Vec<u8> {
    let mut b = vec![(id >> 8) as u8, id as u8];
    b.extend_from_slice(&start);
    b.extend_from_slice(&duration);
    b.push((descriptors.len() >> 8) as u8);
    b.push(descriptors.len() as u8);
    b.extend_from_slice(descriptors);
    b
}

fn guide(service_id: u16, events: &[Vec<u8>]) -> Vec<u8> {
    let mut body = vec![0x7f, 0xe1, 0x7f, 0xe0, 0x00, 0x4e];
    for e in events {
        body.extend_from_slice(e);
    }
    events_section(0x4e, service_id, &body)
}

fn short_event(name: &[u8], text: &[u8]) -> Vec<u8> {
    let mut d = vec![0x4d, (5 + name.len() + text.len()) as u8, b'j', b'p', b'n', name.len() as u8];
    d.extend_from_slice(name);
    d.push(text.len() as u8);
    d.extend_from_slice(text);
    d
}

fn extended_event(items: &[(&[u8], &[u8])]) -> Vec<u8> {
    let mut list = Vec::new();
    for (heading, text) in items {
        list.push(heading.len() as u8);
        list.extend_from_slice(heading);
        list.push(text.len() as u8);
        list.extend_from_slice(text);
    }
    let mut d = vec![0x4e, (6 + list.len()) as u8, 0x00, b'j', b'p', b'n', list.len() as u8];
    d.extend_from_slice(&list);
    d.push(0);
    d
}

const START: [u8; 5] = [0xc0, 0x79, 0x12, 0x45, 0x00];
const AT: DateTime = DateTime { year: 1993, month: 10, day: 13, hour: 12, minute: 45, second: 0 };

fn details(e: &Event) -> Vec<(&str, &str)> {
    e.detail.iter().map(|(h, t)| (h.as_str(), t.as_str())).collect()
}

#[test]
fn guide_texts_are_decoded_with_the_registers_of_the_guide() {
    let t = CodeTables::new();
    assert_eq!(decode_to_utf8(&[0xa4, 0x0e, 0x41, 0x1b, 0x7c, 0xa1], &t).unwrap(), "\u{3044}A\u{30a1}");
    assert_eq!(
        decode_to_utf8(&[0x30, 0x21], &t),
        Err(Error::UnknownCodepoint(0x13021, arib_ts::arib::string::Charset::JISGokanKanji1))
    );
}

#[test]
fn events_get_title_summary_category_and_details() {
    let mut descriptors = short_event(&[0xa4, 0xa6], &[0x0e, 0x41, 0x42]);
    descriptors.extend_from_slice(&[0x54, 0x04, 0x70, 0xff, 0x10, 0xff]);
    descriptors.extend_from_slice(&[0x54, 0x02, 0x20, 0xff]);
    descriptors.extend_from_slice(&extended_event(&[
        (&[0xa2], &[0xab]),
        (&[], &[0xac]),
        (&[0xa4], &[0xad]),
    ]));
    // the text of the last heading goes on in the next descriptor
    descriptors.extend_from_slice(&extended_event(&[(&[], &[0xaf]), (&[0xa6], &[])]));
    let bytes = guide(0x0400, &[
        guide_event(0x1234, START, [0x01, 0x30, 0x00], &descriptors),
        guide_event(0x1235, [0xff; 5], [0x01, 0x30, 0x00], &[]),
        guide_event(0x1236, START, [0xff; 3], &[]),
        guide_event(0x1237, START, [0x00, 0x00, 0x59], &[]),
    ]);
    let eit = EventInformationSection::parse(&bytes).unwrap();
    let events = try_into_event(&eit, &CodeTables::new()).unwrap();
    assert_eq!(events.len(), 2);
    let e = &events[0];
    assert_eq!(e.id, 0x1234);
    assert_eq!(e.start, AT);
    assert_eq!(e.duration, Duration { seconds: 5400 });
    assert_eq!(e.title, "\u{3044}\u{3046}");
    assert_eq!(e.summary, "AB");
    assert_eq!(e.category, "animation");
    assert_eq!(details(e), vec![("\u{3042}", "\u{304b}\u{304c}"), ("\u{3044}", "\u{304d}\u{304f}")]);
    let bare = &events[1];
    assert_eq!(bare.id, 0x1237);
    assert_eq!(bare.duration, Duration { seconds: 59 });
    assert_eq!(bare.title, "");
    assert_eq!(bare.category, "");
    assert!(bare.detail.is_empty());
    assert!(event_record(&eit.events[1], &CodeTables::new()).unwrap().is_none());
    assert!(event_record(&eit.events[2], &CodeTables::new()).unwrap().is_none());
}

#[test]
fn a_text_that_cannot_be_decoded_fails_the_table() {
    let bytes = guide(0x0400, &[
        guide_event(1, START, [0; 3], &[]),
        guide_event(2, START, [0; 3], &short_event(&[0x30, 0x21], &[])),
    ]);
    let eit = EventInformationSection::parse(&bytes).unwrap();
    assert!(matches!(try_into_event(&eit, &CodeTables::new()), Err(Error::UnknownCodepoint(0x13021, _))));
    assert_eq!(packets_to_events(&vec![0x0400], &bytes, &CodeTables::new()).map(|e| e.len()), None);
    let bytes = guide(0x0400, &[guide_event(2, START, [0; 3], &extended_event(&[(&[0xa2], &[0x30])]))]);
    let eit = EventInformationSection::parse(&bytes).unwrap();
    assert!(matches!(try_into_event(&eit, &CodeTables::new()), Err(Error::MalformedShortBytes)));
}

#[test]
fn drafts_close_a_pair_at_the_next_heading() {
    let t = CodeTables::new();
    let mut d = Draft {
        event: Event::new(7, AT, Duration { seconds: 1 }),
        item_descs: Vec::new(),
        items: Vec::new(),
    };
    let item = |heading: &'static [u8], text: &'static [u8]| ExtendedEventDescriptorItem {
        item_description: heading,
        item: text,
    };
    // a text without a heading gives no pair
    d.add_item(&item(&[], &[0xa2]), &t).unwrap();
    d.add_item(&item(&[0xa4], &[0xa6]), &t).unwrap();
    assert!(d.event.detail.is_empty());
    assert_eq!(d.item_descs, vec![0xa4]);
    assert_eq!(d.items, vec![0xa6]);
    // a heading without a text gives no pair either
    d.add_item(&item(&[0xa8], &[]), &t).unwrap();
    assert_eq!(details(&d.event), vec![("\u{3044}", "\u{3046}")]);
    d.flush(&t).unwrap();
    assert_eq!(d.event.detail.len(), 1);
    assert!(d.item_descs.is_empty() && d.items.is_empty());
}

#[test]
fn genres_have_names() {
    let names: Vec<&str> = (0..16u8).map(|n| stringify_genre(&Genre::from_nibble(n))).collect();
    assert_eq!(names, vec![
        "news", "sports", "information", "drama", "music", "variety", "movies", "animation",
        "documentary", "theatre", "hobby", "welfare", "reserved", "reserved", "extention",
        "others",
    ]);
}

#[test]
fn service_ids_filter_the_tables() {
    let mut body = vec![0x7f, 0xe1, 0xff];
    for id in [0x0400u16, 0x0401, 0x0588] {
        body.extend_from_slice(&[(id >> 8) as u8, id as u8, 0xff, 0x00, 0x00]);
    }
    let sdt_bytes = events_section(0x42, 0x7fe1, &body);
    let sids = find_service_ids(&ServiceDescriptionSection::parse(&sdt_bytes).unwrap());
    assert_eq!(sids, vec![0x0400, 0x0401, 0x0588]);
    assert_eq!(service_ids_from_section(&sdt_bytes), Some(vec![0x0400, 0x0401, 0x0588]));
    // the description of another stream, and sections that cannot be read
    let mut other = sdt_bytes.clone();
    other[0] = 0x46;
    assert_eq!(service_ids_from_section(&other), None);
    assert_eq!(service_ids_from_section(&sdt_bytes[..12]), None);
    assert_eq!(service_ids_from_section(&[]), None);
    let t = CodeTables::new();
    let of = |id: u16| guide(id, &[guide_event(9, START, [0; 3], &short_event(&[0xa4], &[]))]);
    let events = packets_to_events(&sids, &of(0x0401), &t).unwrap();
    assert_eq!(events.len(), 1);
    assert_eq!(events[0].title, "\u{3044}");
    assert!(packets_to_events(&sids, &of(0x0402), &t).is_none());
    assert!(packets_to_events(&vec![], &of(0x0401), &t).is_none());
    // other tables on the same PIDs, and sections that cannot be read
    assert!(packets_to_events(&sids, &sdt_bytes, &t).is_none());
    assert!(packets_to_events(&sids, &of(0x0401)[..20], &t).is_none());
    assert!(packets_to_events(&sids, &[], &t).is_none());
    let mut schedule = of(0x0401);
    schedule[0] = 0x6f;
    assert_eq!(packets_to_events(&sids, &schedule, &t).unwrap().len(), 1);
    schedule[0] = 0x70;
    assert!(packets_to_events(&sids, &schedule, &t).is_none());
    assert_eq!(EIT_PIDS, [0x0012, 0x0026, 0x0027]);
}

#[test]
fn of_two_events_with_one_id_the_later_stays() {
    let named = |id: u16, title: &str| {
        let mut e = Event::new(id, AT, Duration { seconds: 1 });
        e.title = String::from(title);
        e
    };
    let mut map = BTreeMap::new();
    into_event_map(&mut map, vec![named(3, "c"), named(1, "a"), named(3, "c2")]);
    into_event_map(&mut map, vec![]);
    into_event_map(&mut map, vec![named(2, "b"), named(1, "a2")]);
    let titles: Vec<(u16, &str)> = map.iter().map(|(id, e)| (*id, e.title.as_str())).collect();
    assert_eq!(titles, vec![(1, "a2"), (2, "b"), (3, "c2")]);
}
