use crate::arib::string::{spec_decode, AribDecoder, CodeTables, CodeTablesView, Error, GraphicSets};
use crate::psi::descriptor::{
    ContentDescriptor, Descriptor, DescriptorView, ExtendedEventDescriptorItem,
    ExtendedEventDescriptorItemView, Genre,
};
use crate::psi::eit::{
    spec_eit, DateTime, Duration, EventInformationSection, EventInformationSectionView, EventView,
};
use crate::psi::sdt::{
    spec_sdt, ServiceDescriptionSection, ServiceDescriptionSectionView, ServiceView,
    SELF_STREAM_TABLE_ID,
};
use crate::util::views;
use vstd::prelude::*;

verus! {

/// An event of the programme guide as it is given out.
#[derive(Debug)]
pub struct Event {
    pub id: u16,
    pub start: DateTime,
    pub duration: Duration,
    pub title: String,
    pub summary: String,
    /// Headings with their texts, in the order in which they were closed. In
    /// a map from headings to texts, a later pair replaces an earlier one
    /// with the same heading.
    pub detail: Vec<(String, String)>,
    pub category: String,
}

/// What an [`Event`] holds.
pub struct EventRecordView {
    pub id: u16,
    pub start: DateTime,
    pub duration: Duration,
    pub title: Seq<char>,
    pub summary: Seq<char>,
    pub detail: Seq<(Seq<char>, Seq<char>)>,
    pub category: Seq<char>,
}

/// The characters of a pair of strings.
pub open spec fn pair_view(p: (String, String)) -> (Seq<char>, Seq<char>) {
    (p.0@, p.1@)
}

impl View for Event {
    type V = EventRecordView;

    open spec fn view(&self) -> EventRecordView {
        EventRecordView {
            id: self.id,
            start: self.start,
            duration: self.duration,
            title: self.title@,
            summary: self.summary@,
            detail: self.detail@.map_values(|p: (String, String)| pair_view(p)),
            category: self.category@,
        }
    }
}

/// An event under way: the record so far, and the headings and the texts of
/// the items read since the last pair was closed, each run together.
pub struct Draft {
    pub event: Event,
    pub item_descs: Vec<u8>,
    pub items: Vec<u8>,
}

/// What a [`Draft`] holds.
pub struct DraftView {
    pub event: EventRecordView,
    pub item_descs: Seq<u8>,
    pub items: Seq<u8>,
}

impl View for Draft {
    type V = DraftView;

    open spec fn view(&self) -> DraftView {
        DraftView { event: self.event@, item_descs: self.item_descs@, items: self.items@ }
    }
}

/// The name under which a genre is given out.
pub open spec fn spec_stringify_genre(genre: Genre) -> Seq<char> {
    match genre {
        Genre::News => "news"@,
        Genre::Sports => "sports"@,
        Genre::Information => "information"@,
        Genre::Drama => "drama"@,
        Genre::Music => "music"@,
        Genre::Variety => "variety"@,
        Genre::Movies => "movies"@,
        Genre::Animation => "animation"@,
        Genre::Documentary => "documentary"@,
        Genre::Theatre => "theatre"@,
        Genre::Hobby => "hobby"@,
        Genre::Welfare => "welfare"@,
        Genre::Reserved => "reserved"@,
        Genre::Extention => "extention"@,
        Genre::Others => "others"@,
    }
}

/// The text that `bytes` stand for in the programme guide: decoded with the
/// registers of such a text set afresh, and without DRCS replacements.
pub open spec fn spec_decode_to_utf8(tables: CodeTablesView, bytes: Seq<u8>) -> Result<
    Seq<char>,
    Error,
> {
    spec_decode(GraphicSets::event_initial(), tables, Map::empty(), bytes, 0)
}

/// The draft after the pair under way has been closed: the heading and the
/// text are decoded, and go into the record if neither is empty.
pub open spec fn spec_flush(tables: CodeTablesView, d: DraftView) -> Result<DraftView, Error> {
    match spec_decode_to_utf8(tables, d.item_descs) {
        Err(e) => Err(e),
        Ok(heading) => match spec_decode_to_utf8(tables, d.items) {
            Err(e) => Err(e),
            Ok(text) => Ok(
                DraftView {
                    event: EventRecordView {
                        detail: if heading.len() > 0 && text.len() > 0 {
                            d.event.detail.push((heading, text))
                        } else {
                            d.event.detail
                        },
                        ..d.event
                    },
                    item_descs: Seq::empty(),
                    items: Seq::empty(),
                },
            ),
        },
    }
}

/// The draft after one more item of an extended event descriptor. An item
/// with a heading closes the pair under way and starts the next; an item
/// without one carries on the text of the pair under way.
pub open spec fn spec_add_item(
    tables: CodeTablesView,
    d: DraftView,
    item: ExtendedEventDescriptorItemView,
) -> Result<DraftView, Error> {
    let flushed = if item.item_description.len() > 0 {
        spec_flush(tables, d)
    } else {
        Ok(d)
    };
    match flushed {
        Err(e) => Err(e),
        Ok(d) => Ok(
            DraftView {
                item_descs: d.item_descs + item.item_description,
                items: d.items + item.item,
                ..d
            },
        ),
    }
}

/// The draft after the first `n` of the items `items`.
pub open spec fn spec_add_items(
    tables: CodeTablesView,
    d: DraftView,
    items: Seq<ExtendedEventDescriptorItemView>,
    n: int,
) -> Result<DraftView, Error>
    decreases n,
{
    if n <= 0 {
        Ok(d)
    } else {
        match spec_add_items(tables, d, items, n - 1) {
            Err(e) => Err(e),
            Ok(d) => spec_add_item(tables, d, items[n - 1]),
        }
    }
}

/// The draft after one more descriptor of the event. An extended event
/// descriptor adds its items; a short event descriptor gives the title and
/// the summary; the first genre of the first content descriptor that has
/// one gives the category.
pub open spec fn spec_add_descriptor(
    tables: CodeTablesView,
    d: DraftView,
    descriptor: DescriptorView,
) -> Result<DraftView, Error> {
    match descriptor {
        DescriptorView::ExtendedEventDescriptor(e) => spec_add_items(
            tables,
            d,
            e.items,
            e.items.len() as int,
        ),
        DescriptorView::ShortEventDescriptor(e) => match spec_decode_to_utf8(tables, e.event_name) {
            Err(e) => Err(e),
            Ok(title) => match spec_decode_to_utf8(tables, e.text) {
                Err(e) => Err(e),
                Ok(summary) => Ok(
                    DraftView { event: EventRecordView { title, summary, ..d.event }, ..d },
                ),
            },
        },
        DescriptorView::ContentDescriptor(genres) => if d.event.category.len() == 0 && genres.len()
            > 0 {
            Ok(
                DraftView {
                    event: EventRecordView {
                        category: spec_stringify_genre(genres[0]),
                        ..d.event
                    },
                    ..d
                },
            )
        } else {
            Ok(d)
        },
        _ => Ok(d),
    }
}

/// The draft after the first `n` of the descriptors `descriptors`.
pub open spec fn spec_add_descriptors(
    tables: CodeTablesView,
    d: DraftView,
    descriptors: Seq<DescriptorView>,
    n: int,
) -> Result<DraftView, Error>
    decreases n,
{
    if n <= 0 {
        Ok(d)
    } else {
        match spec_add_descriptors(tables, d, descriptors, n - 1) {
            Err(e) => Err(e),
            Ok(d) => spec_add_descriptor(tables, d, descriptors[n - 1]),
        }
    }
}

/// The record with which the draft of an event starts.
pub open spec fn spec_new_event(id: u16, start: DateTime, duration: Duration) -> EventRecordView {
    EventRecordView {
        id,
        start,
        duration,
        title: Seq::empty(),
        summary: Seq::empty(),
        detail: Seq::empty(),
        category: Seq::empty(),
    }
}

/// The record of an event of a table, if the event has a start time and a
/// duration: what its descriptors make of the draft, with the last pair
/// closed.
pub open spec fn spec_event_record(tables: CodeTablesView, e: EventView) -> Result<
    Option<EventRecordView>,
    Error,
> {
    if e.start_time is None || e.duration is None {
        Ok(None)
    } else {
        let draft = DraftView {
            event: spec_new_event(e.event_id, e.start_time->0, e.duration->0),
            item_descs: Seq::empty(),
            items: Seq::empty(),
        };
        match spec_add_descriptors(tables, draft, e.descriptors, e.descriptors.len() as int) {
            Err(e) => Err(e),
            Ok(d) => match spec_flush(tables, d) {
                Err(e) => Err(e),
                Ok(d) => Ok(Some(d.event)),
            },
        }
    }
}

/// The records of the first `n` events of a table.
pub open spec fn spec_event_records(tables: CodeTablesView, events: Seq<EventView>, n: int) -> Result<
    Seq<EventRecordView>,
    Error,
>
    decreases n,
{
    if n <= 0 {
        Ok(Seq::empty())
    } else {
        match spec_event_records(tables, events, n - 1) {
            Err(e) => Err(e),
            Ok(records) => match spec_event_record(tables, events[n - 1]) {
                Err(e) => Err(e),
                Ok(Some(record)) => Ok(records.push(record)),
                Ok(None) => Ok(records),
            },
        }
    }
}

/// The records of the events of a table.
pub open spec fn spec_try_into_event(tables: CodeTablesView, eit: EventInformationSectionView) -> Result<
    Seq<EventRecordView>,
    Error,
> {
    spec_event_records(tables, eit.events, eit.events.len() as int)
}

/// The ids of the services of a service description table.
pub open spec fn spec_service_ids(sdt: ServiceDescriptionSectionView) -> Seq<u16> {
    sdt.services.map_values(|s: ServiceView| s.service_id)
}

/// The records that a section gives: those of its events if it is an event
/// information table of one of the services `sids` and all its texts can be
/// decoded.
pub open spec fn spec_packets_to_events(tables: CodeTablesView, sids: Seq<u16>, b: Seq<u8>) -> Option<
    Seq<EventRecordView>,
> {
    if b.len() < 1 || !(0x4e <= b[0] <= 0x6f) {
        None
    } else {
        match spec_eit(b) {
            Err(_) => None,
            Ok(eit) => if sids.contains(eit.service_id) {
                match spec_try_into_event(tables, eit) {
                    Ok(records) => Some(records),
                    Err(_) => None,
                }
            } else {
                None
            },
        }
    }
}

impl Event {
    /// The record of an event of which only the id and the times are known yet.
    pub fn new(id: u16, start: DateTime, duration: Duration) -> (e: Event)
        ensures
            e@ == spec_new_event(id, start, duration),
    {
        let e = Event {
            id,
            start,
            duration,
            title: String::new(),
            summary: String::new(),
            detail: Vec::new(),
            category: String::new(),
        };
        proof {
            assert(e@.detail =~= Seq::<(Seq<char>, Seq<char>)>::empty());
        }
        e
    }
}

/// Gives the name under which a genre is given out.
pub fn stringify_genre(genre: &Genre) -> (name: &'static str)
    ensures
        name@ == spec_stringify_genre(*genre),
{
    match genre {
        Genre::News => "news",
        Genre::Sports => "sports",
        Genre::Information => "information",
        Genre::Drama => "drama",
        Genre::Music => "music",
        Genre::Variety => "variety",
        Genre::Movies => "movies",
        Genre::Animation => "animation",
        Genre::Documentary => "documentary",
        Genre::Theatre => "theatre",
        Genre::Hobby => "hobby",
        Genre::Welfare => "welfare",
        Genre::Reserved => "reserved",
        Genre::Extention => "extention",
        Genre::Others => "others",
    }
}

/// Decodes a text of the programme guide, as [`spec_decode_to_utf8`] says.
pub fn decode_to_utf8(bytes: &[u8], tables: &CodeTables) -> (r: Result<String, Error>)
    ensures
        match spec_decode_to_utf8(tables@, bytes@) {
            Ok(text) => r matches Ok(s) && s@ == text,
            Err(e) => r matches Err(x) && x == e,
        },
{
    let decoder = AribDecoder::with_event_initialization();
    decoder.decode(bytes, tables)
}

impl Draft {
    /// Closes the pair under way, as [`spec_flush`] says.
    pub fn flush(&mut self, tables: &CodeTables) -> (r: Result<(), Error>)
        ensures
            match spec_flush(tables@, old(self)@) {
                Ok(d) => r is Ok && final(self)@ == d,
                Err(e) => r == Err::<(), Error>(e),
            },
    {
        let d = decode_to_utf8(self.item_descs.as_slice(), tables)?;
        let i = decode_to_utf8(self.items.as_slice(), tables)?;
        if !d.as_str().is_empty() && !i.as_str().is_empty() {
            proof {
                assert(self.event.detail@.push((d, i)).map_values(|p: (String, String)| pair_view(p))
                    =~= self.event@.detail.push((d@, i@)));
            }
            self.event.detail.push((d, i));
        }
        self.item_descs.clear();
        self.items.clear();
        Ok(())
    }

    /// Takes in one more item, as [`spec_add_item`] says.
    pub fn add_item(&mut self, item: &ExtendedEventDescriptorItem, tables: &CodeTables) -> (r: Result<
        (),
        Error,
    >)
        ensures
            match spec_add_item(tables@, old(self)@, item@) {
                Ok(d) => r is Ok && final(self)@ == d,
                Err(e) => r == Err::<(), Error>(e),
            },
    {
        if item.item_description.len() > 0 {
            self.flush(tables)?;
        }
        let ghost flushed = self@;
        self.item_descs.extend_from_slice(item.item_description);
        self.items.extend_from_slice(item.item);
        proof {
            assert(self@.event == flushed.event);
            assert(self@.item_descs == flushed.item_descs + item@.item_description);
            assert(self@.items == flushed.items + item@.item);
        }
        Ok(())
    }

    /// Takes in one more descriptor, as [`spec_add_descriptor`] says.
    pub fn add_descriptor(&mut self, desc: &Descriptor, tables: &CodeTables) -> (r: Result<(), Error>)
        ensures
            match spec_add_descriptor(tables@, old(self)@, desc@) {
                Ok(d) => r is Ok && final(self)@ == d,
                Err(e) => r == Err::<(), Error>(e),
            },
    {
        match desc {
            Descriptor::ExtendedEventDescriptor(e) => {
                let ghost items = e@.items;
                let mut i: usize = 0;
                while i < e.items.len()
                    invariant
                        i <= e.items@.len(),
                        items == e@.items,
                        items.len() == e.items@.len(),
                        desc@ == DescriptorView::ExtendedEventDescriptor(e@),
                        spec_add_items(tables@, old(self)@, items, i as int) == Ok::<
                            DraftView,
                            Error,
                        >(self@),
                    decreases e.items@.len() - i,
                {
                    proof {
                        assert(items[i as int] == e.items@[i as int]@);
                    }
                    match self.add_item(&e.items[i], tables) {
                        Ok(()) => {},
                        Err(x) => {
                            proof {
                                lemma_add_items_failed(
                                    tables@,
                                    old(self)@,
                                    items,
                                    i + 1,
                                    items.len() as int,
                                );
                            }
                            return Err(x);
                        },
                    }
                    i += 1;
                }
            },
            Descriptor::ShortEventDescriptor(e) => {
                let title = decode_to_utf8(e.event_name, tables)?;
                let summary = decode_to_utf8(e.text, tables)?;
                self.event.title = title;
                self.event.summary = summary;
            },
            Descriptor::ContentDescriptor(c) => {
                if self.event.category.as_str().is_empty() && c.items.len() > 0 {
                    self.event.category = String::from_str(stringify_genre(&c.items[0]));
                }
            },
            _ => {},
        }
        Ok(())
    }
}

/// Once an item has failed, those after it are not looked at.
pub proof fn lemma_add_items_failed(
    tables: CodeTablesView,
    d: DraftView,
    items: Seq<ExtendedEventDescriptorItemView>,
    i: int,
    n: int,
)
    requires
        0 <= i <= n,
        spec_add_items(tables, d, items, i) is Err,
    ensures
        spec_add_items(tables, d, items, n) == spec_add_items(tables, d, items, i),
    decreases n,
{
    if i < n {
        lemma_add_items_failed(tables, d, items, i, n - 1);
    }
}

/// Once a descriptor has failed, those after it are not looked at.
pub proof fn lemma_add_descriptors_failed(
    tables: CodeTablesView,
    d: DraftView,
    descriptors: Seq<DescriptorView>,
    i: int,
    n: int,
)
    requires
        0 <= i <= n,
        spec_add_descriptors(tables, d, descriptors, i) is Err,
    ensures
        spec_add_descriptors(tables, d, descriptors, n) == spec_add_descriptors(
            tables,
            d,
            descriptors,
            i,
        ),
    decreases n,
{
    if i < n {
        lemma_add_descriptors_failed(tables, d, descriptors, i, n - 1);
    }
}

/// Once an event has failed, those after it are not looked at.
pub proof fn lemma_event_records_failed(
    tables: CodeTablesView,
    events: Seq<EventView>,
    i: int,
    n: int,
)
    requires
        0 <= i <= n,
        spec_event_records(tables, events, i) is Err,
    ensures
        spec_event_records(tables, events, n) == spec_event_records(tables, events, i),
    decreases n,
{
    if i < n {
        lemma_event_records_failed(tables, events, i, n - 1);
    }
}

/// Makes the record of one event of a table, as [`spec_event_record`] says.
pub fn event_record(eit_event: &crate::psi::eit::Event, tables: &CodeTables) -> (r: Result<
    Option<Event>,
    Error,
>)
    ensures
        match spec_event_record(tables@, eit_event@) {
            Ok(Some(v)) => r matches Ok(Some(e)) && e@ == v,
            Ok(None) => r matches Ok(None),
            Err(e) => r matches Err(x) && x == e,
        },
{
    let (start, duration) = match (eit_event.start_time, eit_event.duration) {
        (Some(start), Some(duration)) => (start, duration),
        _ => return Ok(None),
    };
    let mut draft = Draft {
        event: Event::new(eit_event.event_id, start, duration),
        item_descs: Vec::new(),
        items: Vec::new(),
    };
    let ghost first = draft@;
    let ghost descriptors = eit_event@.descriptors;
    let mut i: usize = 0;
    while i < eit_event.descriptors.len()
        invariant
            i <= eit_event.descriptors@.len(),
            descriptors == eit_event@.descriptors,
            descriptors.len() == eit_event.descriptors@.len(),
            eit_event@.start_time == Some(start),
            eit_event@.duration == Some(duration),
            first == (DraftView {
                event: spec_new_event(eit_event@.event_id, start, duration),
                item_descs: Seq::empty(),
                items: Seq::empty(),
            }),
            spec_add_descriptors(tables@, first, descriptors, i as int) == Ok::<DraftView, Error>(
                draft@,
            ),
        decreases eit_event.descriptors@.len() - i,
    {
        proof {
            assert(descriptors[i as int] == eit_event.descriptors@[i as int]@);
        }
        match draft.add_descriptor(&eit_event.descriptors[i], tables) {
            Ok(()) => {},
            Err(e) => {
                proof {
                    lemma_add_descriptors_failed(
                        tables@,
                        first,
                        descriptors,
                        i + 1,
                        descriptors.len() as int,
                    );
                }
                return Err(e);
            },
        }
        i += 1;
    }
    draft.flush(tables)?;
    Ok(Some(draft.event))
}

/// Makes the records of the events of a table, as [`spec_try_into_event`]
/// says.
pub fn try_into_event(eit: &EventInformationSection, tables: &CodeTables) -> (r: Result<
    Vec<Event>,
    Error,
>)
    ensures
        match spec_try_into_event(tables@, eit@) {
            Ok(v) => r matches Ok(events) && views(events@) == v,
            Err(e) => r matches Err(x) && x == e,
        },
{
    let mut events: Vec<Event> = Vec::new();
    let ghost all = eit@.events;
    let mut i: usize = 0;
    proof {
        assert(views(events@) =~= Seq::<EventRecordView>::empty());
    }
    while i < eit.events.len()
        invariant
            i <= eit.events@.len(),
            all == eit@.events,
            all.len() == eit.events@.len(),
            spec_event_records(tables@, all, i as int) == Ok::<Seq<EventRecordView>, Error>(
                views(events@),
            ),
        decreases eit.events@.len() - i,
    {
        proof {
            assert(all[i as int] == eit.events@[i as int]@);
        }
        match event_record(&eit.events[i], tables) {
            Ok(Some(event)) => {
                proof {
                    assert(views(events@.push(event)) =~= views(events@).push(event@));
                }
                events.push(event);
            },
            Ok(None) => {},
            Err(e) => {
                proof {
                    lemma_event_records_failed(tables@, all, i + 1, all.len() as int);
                }
                return Err(e);
            },
        }
        i += 1;
    }
    Ok(events)
}

/// Lists the ids of the services of a service description table.
pub fn find_service_ids(sdt: &ServiceDescriptionSection) -> (sids: Vec<u16>)
    ensures
        sids@ == spec_service_ids(sdt@),
{
    let mut sids: Vec<u16> = Vec::new();
    let mut i: usize = 0;
    while i < sdt.services.len()
        invariant
            i <= sdt.services@.len(),
            sdt@.services.len() == sdt.services@.len(),
            sids@ == spec_service_ids(sdt@).take(i as int),
        decreases sdt.services@.len() - i,
    {
        proof {
            assert(sdt@.services[i as int] == sdt.services@[i as int]@);
            assert(spec_service_ids(sdt@).take(i + 1) =~= spec_service_ids(sdt@).take(i as int).push(
                sdt.services@[i as int].service_id,
            ));
        }
        sids.push(sdt.services[i].service_id);
        i += 1;
    }
    proof {
        assert(spec_service_ids(sdt@).take(i as int) =~= spec_service_ids(sdt@));
    }
    sids
}

/// The ids of the services that a section gives: those of the service
/// description table of the stream itself that it holds, if it holds one
/// that can be read.
pub open spec fn spec_service_ids_from_section(b: Seq<u8>) -> Option<Seq<u16>> {
    if b.len() >= 1 && b[0] == SELF_STREAM_TABLE_ID {
        match spec_sdt(b) {
            Ok(sdt) => Some(spec_service_ids(sdt)),
            Err(_) => None,
        }
    } else {
        None
    }
}

/// Looks in a reassembled section of the PID of the service description
/// table for the ids of the services, as [`spec_service_ids_from_section`]
/// says.
pub fn service_ids_from_section(bytes: &[u8]) -> (r: Option<Vec<u16>>)
    ensures
        match spec_service_ids_from_section(bytes@) {
            Some(sids) => r matches Some(v) && v@ == sids,
            None => r is None,
        },
{
    if bytes.len() < 1 || bytes[0] != SELF_STREAM_TABLE_ID {
        return None;
    }
    match ServiceDescriptionSection::parse(bytes) {
        Ok(sdt) => Some(find_service_ids(&sdt)),
        Err(_) => None,
    }
}

/// Tells whether `sid` is one of `sids`.
fn contains(sids: &Vec<u16>, sid: u16) -> (r: bool)
    ensures
        r == sids@.contains(sid),
{
    let mut i: usize = 0;
    while i < sids.len()
        invariant
            i <= sids@.len(),
            forall|k: int| 0 <= k < i ==> sids@[k] != sid,
        decreases sids@.len() - i,
    {
        if sids[i] == sid {
            return true;
        }
        i += 1;
    }
    false
}

/// Gives the records of the events of a reassembled section, as
/// [`spec_packets_to_events`] says.
pub fn packets_to_events(sids: &Vec<u16>, bytes: &[u8], tables: &CodeTables) -> (r: Option<
    Vec<Event>,
>)
    ensures
        match spec_packets_to_events(tables@, sids@, bytes@) {
            Some(v) => r matches Some(events) && views(events@) == v,
            None => r is None,
        },
{
    if bytes.len() < 1 {
        return None;
    }
    let table_id = bytes[0];
    if 0x4e <= table_id && table_id <= 0x6f {
        if let Ok(eit) = EventInformationSection::parse(bytes) {
            if contains(sids, eit.service_id) {
                if let Ok(events) = try_into_event(&eit, tables) {
                    return Some(events);
                }
            }
        }
    }
    None
}

} // verus!
