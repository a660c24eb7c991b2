use crate::error::ParseError;
use crate::text::{language_code, spec_language_code};
use crate::util::{bits, lemma_list_done, lemma_list_step, list_so_far, spec_bits, spec_list, views};
use vstd::prelude::*;

verus! {

/// The tag of a short event descriptor.
pub const SHORT_EVENT_DESCRIPTOR: u8 = 0x4d;

/// The tag of an extended event descriptor.
pub const EXTENDED_EVENT_DESCRIPTOR: u8 = 0x4e;

/// The tag of a stream identifier descriptor.
pub const STREAM_IDENTIFIER_DESCRIPTOR: u8 = 0x52;

/// The tag of a content descriptor.
pub const CONTENT_DESCRIPTOR: u8 = 0x54;

/// A descriptor of a table, read by its tag.
#[derive(Debug)]
pub enum Descriptor<'a> {
    ShortEventDescriptor(ShortEventDescriptor<'a>),
    ExtendedEventDescriptor(ExtendedEventDescriptor<'a>),
    ContentDescriptor(ContentDescriptor),
    StreamIdentifierDescriptor(StreamIdentifierDescriptor),
    Unsupported(UnsupportedDescriptor<'a>),
}

/// The name and the summary of an event; both are ARIB-encoded text.
#[derive(Debug)]
pub struct ShortEventDescriptor<'a> {
    pub iso_639_language_code: String,
    pub event_name: &'a [u8],
    pub text: &'a [u8],
}

/// One item of the detailed description of an event: a heading and a body,
/// both ARIB-encoded text.
#[derive(Debug)]
pub struct ExtendedEventDescriptorItem<'a> {
    pub item_description: &'a [u8],
    pub item: &'a [u8],
}

/// A part of the detailed description of an event.
#[derive(Debug)]
pub struct ExtendedEventDescriptor<'a> {
    pub descriptor_number: u8,
    pub last_descriptor_number: u8,
    pub iso_639_language_code: String,
    pub items: Vec<ExtendedEventDescriptorItem<'a>>,
    pub text: &'a [u8],
}

/// The genres of an event.
#[derive(Debug)]
pub struct ContentDescriptor {
    pub items: Vec<Genre>,
}

/// A genre of the first level.
#[derive(Debug, Clone, Copy, PartialEq, Eq, Structural)]
pub enum Genre {
    News,
    Sports,
    Information,
    Drama,
    Music,
    Variety,
    Movies,
    Animation,
    Documentary,
    Theatre,
    Hobby,
    Welfare,
    Reserved,
    Extention,
    Others,
}

/// The component tag of an elementary stream.
#[derive(Debug, Clone, Copy, PartialEq, Eq, Structural)]
pub struct StreamIdentifierDescriptor {
    pub component_tag: u8,
}

/// A descriptor that is kept as its tag and its bytes.
#[derive(Debug)]
pub struct UnsupportedDescriptor<'a> {
    pub descriptor_tag: u8,
    pub data: &'a [u8],
}

/// What a [`ShortEventDescriptor`] holds.
pub struct ShortEventDescriptorView {
    pub iso_639_language_code: Seq<char>,
    pub event_name: Seq<u8>,
    pub text: Seq<u8>,
}

/// What an [`ExtendedEventDescriptorItem`] holds.
pub struct ExtendedEventDescriptorItemView {
    pub item_description: Seq<u8>,
    pub item: Seq<u8>,
}

/// What an [`ExtendedEventDescriptor`] holds.
pub struct ExtendedEventDescriptorView {
    pub descriptor_number: u8,
    pub last_descriptor_number: u8,
    pub iso_639_language_code: Seq<char>,
    pub items: Seq<ExtendedEventDescriptorItemView>,
    pub text: Seq<u8>,
}

/// What an [`UnsupportedDescriptor`] holds.
pub struct UnsupportedDescriptorView {
    pub descriptor_tag: u8,
    pub data: Seq<u8>,
}

/// What a [`Descriptor`] holds.
pub enum DescriptorView {
    ShortEventDescriptor(ShortEventDescriptorView),
    ExtendedEventDescriptor(ExtendedEventDescriptorView),
    ContentDescriptor(Seq<Genre>),
    StreamIdentifierDescriptor(StreamIdentifierDescriptor),
    Unsupported(UnsupportedDescriptorView),
}

impl<'a> View for ShortEventDescriptor<'a> {
    type V = ShortEventDescriptorView;

    open spec fn view(&self) -> ShortEventDescriptorView {
        ShortEventDescriptorView {
            iso_639_language_code: self.iso_639_language_code@,
            event_name: self.event_name@,
            text: self.text@,
        }
    }
}

impl<'a> View for ExtendedEventDescriptorItem<'a> {
    type V = ExtendedEventDescriptorItemView;

    open spec fn view(&self) -> ExtendedEventDescriptorItemView {
        ExtendedEventDescriptorItemView {
            item_description: self.item_description@,
            item: self.item@,
        }
    }
}

impl<'a> View for ExtendedEventDescriptor<'a> {
    type V = ExtendedEventDescriptorView;

    open spec fn view(&self) -> ExtendedEventDescriptorView {
        ExtendedEventDescriptorView {
            descriptor_number: self.descriptor_number,
            last_descriptor_number: self.last_descriptor_number,
            iso_639_language_code: self.iso_639_language_code@,
            items: views(self.items@),
            text: self.text@,
        }
    }
}

impl<'a> View for UnsupportedDescriptor<'a> {
    type V = UnsupportedDescriptorView;

    open spec fn view(&self) -> UnsupportedDescriptorView {
        UnsupportedDescriptorView { descriptor_tag: self.descriptor_tag, data: self.data@ }
    }
}

impl<'a> View for Descriptor<'a> {
    type V = DescriptorView;

    open spec fn view(&self) -> DescriptorView {
        match self {
            Descriptor::ShortEventDescriptor(d) => DescriptorView::ShortEventDescriptor(d@),
            Descriptor::ExtendedEventDescriptor(d) => DescriptorView::ExtendedEventDescriptor(d@),
            Descriptor::ContentDescriptor(d) => DescriptorView::ContentDescriptor(d.items@),
            Descriptor::StreamIdentifierDescriptor(d) => DescriptorView::StreamIdentifierDescriptor(
                *d,
            ),
            Descriptor::Unsupported(d) => DescriptorView::Unsupported(d@),
        }
    }
}

/// The field of `b` that starts at `at` with a byte that counts the bytes
/// after it, and the position after the field.
pub open spec fn spec_counted(b: Seq<u8>, at: int) -> Option<(Seq<u8>, int)> {
    if at < 0 || b.len() < at + 1 || b.len() < at + 1 + b[at] {
        None
    } else {
        Some((b.subrange(at + 1, at + 1 + b[at]), at + 1 + b[at]))
    }
}

/// The short event descriptor in `b`: tag, length, language code, then the
/// name and the summary, each behind its length.
pub open spec fn spec_short_event(b: Seq<u8>) -> Result<ShortEventDescriptorView, ParseError> {
    if b.len() < 1 {
        Err(ParseError::TooShort)
    } else if b[0] != SHORT_EVENT_DESCRIPTOR {
        Err(ParseError::InvalidTag)
    } else if b.len() < 5 {
        Err(ParseError::TooShort)
    } else {
        match spec_language_code(b.subrange(2, 5)) {
            None => Err(ParseError::InvalidLanguageCode),
            Some(code) => match spec_counted(b, 5) {
                None => Err(ParseError::TooShort),
                Some((event_name, at)) => match spec_counted(b, at) {
                    None => Err(ParseError::TooShort),
                    Some((text, _)) => Ok(
                        ShortEventDescriptorView { iso_639_language_code: code, event_name, text },
                    ),
                },
            },
        }
    }
}

/// The item at the start of `b`, heading and body each behind its length,
/// and the number of bytes that it takes.
pub open spec fn spec_item(b: Seq<u8>) -> Result<(ExtendedEventDescriptorItemView, int), ParseError> {
    match spec_counted(b, 0) {
        None => Err(ParseError::TooShort),
        Some((item_description, at)) => match spec_counted(b, at) {
            None => Err(ParseError::TooShort),
            Some((item, end)) => Ok((ExtendedEventDescriptorItemView { item_description, item }, end)),
        },
    }
}

/// The extended event descriptor in `b`: tag, length, the number of the
/// descriptor and of the last one in a byte, language code, the items behind
/// their total length, and a text behind its length.
pub open spec fn spec_extended_event(b: Seq<u8>) -> Result<ExtendedEventDescriptorView, ParseError> {
    if b.len() < 1 {
        Err(ParseError::TooShort)
    } else if b[0] != EXTENDED_EVENT_DESCRIPTOR {
        Err(ParseError::InvalidTag)
    } else if b.len() < 6 {
        Err(ParseError::TooShort)
    } else {
        match spec_language_code(b.subrange(3, 6)) {
            None => Err(ParseError::InvalidLanguageCode),
            Some(code) => match spec_counted(b, 6) {
                None => Err(ParseError::TooShort),
                Some((items, at)) => match spec_list(items, |i: Seq<u8>| spec_item(i)) {
                    Err(e) => Err(e),
                    Ok(items) => match spec_counted(b, at) {
                        None => Err(ParseError::TooShort),
                        Some((text, _)) => Ok(
                            ExtendedEventDescriptorView {
                                descriptor_number: spec_bits(b[2], 4, 4) as u8,
                                last_descriptor_number: spec_bits(b[2], 0, 4) as u8,
                                iso_639_language_code: code,
                                items,
                                text,
                            },
                        ),
                    },
                },
            },
        }
    }
}

/// The genre that the first nibble of a content entry names.
pub open spec fn spec_genre(nibble: int) -> Genre {
    if nibble == 0x0 {
        Genre::News
    } else if nibble == 0x1 {
        Genre::Sports
    } else if nibble == 0x2 {
        Genre::Information
    } else if nibble == 0x3 {
        Genre::Drama
    } else if nibble == 0x4 {
        Genre::Music
    } else if nibble == 0x5 {
        Genre::Variety
    } else if nibble == 0x6 {
        Genre::Movies
    } else if nibble == 0x7 {
        Genre::Animation
    } else if nibble == 0x8 {
        Genre::Documentary
    } else if nibble == 0x9 {
        Genre::Theatre
    } else if nibble == 0xa {
        Genre::Hobby
    } else if nibble == 0xb {
        Genre::Welfare
    } else if nibble == 0xc || nibble == 0xd {
        Genre::Reserved
    } else if nibble == 0xe {
        Genre::Extention
    } else {
        Genre::Others
    }
}

/// The content descriptor in `b`: tag, length, and entries of two bytes, of
/// which the high nibble of the first names the genre.
pub open spec fn spec_content(b: Seq<u8>) -> Result<Seq<Genre>, ParseError> {
    if b.len() < 1 {
        Err(ParseError::TooShort)
    } else if b[0] != CONTENT_DESCRIPTOR {
        Err(ParseError::InvalidTag)
    } else {
        match spec_counted(b, 1) {
            None => Err(ParseError::TooShort),
            Some((entries, _)) => if entries.len() % 2 != 0 {
                Err(ParseError::InvalidLength)
            } else {
                Ok(Seq::new(entries.len() / 2, |i: int| spec_genre(spec_bits(entries[2 * i], 4, 4))))
            },
        }
    }
}

/// The stream identifier descriptor in `b`: tag, length, component tag.
pub open spec fn spec_stream_identifier(b: Seq<u8>) -> Result<
    StreamIdentifierDescriptor,
    ParseError,
> {
    if b.len() < 1 {
        Err(ParseError::TooShort)
    } else if b[0] != STREAM_IDENTIFIER_DESCRIPTOR {
        Err(ParseError::InvalidTag)
    } else if b.len() < 3 {
        Err(ParseError::TooShort)
    } else {
        Ok(StreamIdentifierDescriptor { component_tag: b[2] })
    }
}

/// Any descriptor in `b`, kept as its tag and the bytes behind its length.
pub open spec fn spec_unsupported(b: Seq<u8>) -> Result<UnsupportedDescriptorView, ParseError> {
    if b.len() < 1 {
        Err(ParseError::TooShort)
    } else {
        match spec_counted(b, 1) {
            None => Err(ParseError::TooShort),
            Some((data, _)) => Ok(UnsupportedDescriptorView { descriptor_tag: b[0], data }),
        }
    }
}

/// The descriptor at the start of `b`, read by its tag, and the number of
/// bytes that its length byte gives it, tag and length byte included.
pub open spec fn spec_descriptor(b: Seq<u8>) -> Result<(DescriptorView, int), ParseError> {
    if b.len() < 2 {
        Err(ParseError::TooShort)
    } else if b[0] == SHORT_EVENT_DESCRIPTOR {
        match spec_short_event(b) {
            Ok(d) => Ok((DescriptorView::ShortEventDescriptor(d), b[1] + 2)),
            Err(e) => Err(e),
        }
    } else if b[0] == EXTENDED_EVENT_DESCRIPTOR {
        match spec_extended_event(b) {
            Ok(d) => Ok((DescriptorView::ExtendedEventDescriptor(d), b[1] + 2)),
            Err(e) => Err(e),
        }
    } else if b[0] == CONTENT_DESCRIPTOR {
        match spec_content(b) {
            Ok(d) => Ok((DescriptorView::ContentDescriptor(d), b[1] + 2)),
            Err(e) => Err(e),
        }
    } else if b[0] == STREAM_IDENTIFIER_DESCRIPTOR {
        match spec_stream_identifier(b) {
            Ok(d) => Ok((DescriptorView::StreamIdentifierDescriptor(d), b[1] + 2)),
            Err(e) => Err(e),
        }
    } else {
        match spec_unsupported(b) {
            Ok(d) => Ok((DescriptorView::Unsupported(d), b[1] + 2)),
            Err(e) => Err(e),
        }
    }
}

/// The descriptors that fill `b`.
pub open spec fn spec_descriptors(b: Seq<u8>) -> Result<Seq<DescriptorView>, ParseError> {
    spec_list(b, |d: Seq<u8>| spec_descriptor(d))
}

/// Reads the field of `bytes` that starts at `at` with a byte that counts the
/// bytes after it.
pub fn counted<'a>(bytes: &'a [u8], at: usize) -> (r: Option<(&'a [u8], usize)>)
    ensures
        bytes@.len() <= usize::MAX,
        match spec_counted(bytes@, at as int) {
            Some((field, end)) => r matches Some((f, e)) && f@ == field && e == end,
            None => r is None,
        },
{
    if bytes.len() < 1 || bytes.len() - 1 < at {
        return None;
    }
    let n = bytes[at] as usize;
    if bytes.len() - 1 - at < n {
        return None;
    }
    Some((&bytes[at + 1..at + 1 + n], at + 1 + n))
}

impl<'a> ShortEventDescriptor<'a> {
    /// Reads a short event descriptor, as [`spec_short_event`] says.
    pub fn parse(bytes: &'a [u8]) -> (r: Result<ShortEventDescriptor<'a>, ParseError>)
        ensures
            match spec_short_event(bytes@) {
                Ok(v) => r matches Ok(d) && d@ == v,
                Err(e) => r matches Err(x) && x == e,
            },
    {
        if bytes.len() < 1 {
            return Err(ParseError::TooShort);
        }
        if bytes[0] != SHORT_EVENT_DESCRIPTOR {
            return Err(ParseError::InvalidTag);
        }
        if bytes.len() < 5 {
            return Err(ParseError::TooShort);
        }
        let iso_639_language_code = match language_code(bytes, 2) {
            Some(code) => code,
            None => return Err(ParseError::InvalidLanguageCode),
        };
        let (event_name, at) = match counted(bytes, 5) {
            Some(field) => field,
            None => return Err(ParseError::TooShort),
        };
        let (text, _) = match counted(bytes, at) {
            Some(field) => field,
            None => return Err(ParseError::TooShort),
        };
        Ok(ShortEventDescriptor { iso_639_language_code, event_name, text })
    }
}

impl<'a> ExtendedEventDescriptorItem<'a> {
    /// Reads the item at the start of `bytes` and tells how many bytes it takes.
    pub fn parse(bytes: &'a [u8]) -> (r: Result<(ExtendedEventDescriptorItem<'a>, usize), ParseError>)
        ensures
            match spec_item(bytes@) {
                Ok((v, n)) => r matches Ok((d, m)) && d@ == v && m == n,
                Err(e) => r matches Err(x) && x == e,
            },
    {
        let (item_description, at) = match counted(bytes, 0) {
            Some(field) => field,
            None => return Err(ParseError::TooShort),
        };
        let (item, end) = match counted(bytes, at) {
            Some(field) => field,
            None => return Err(ParseError::TooShort),
        };
        Ok((ExtendedEventDescriptorItem { item_description, item }, end))
    }

    /// Reads the items that fill `bytes`.
    pub fn parse_all(bytes: &'a [u8]) -> (r: Result<
        Vec<ExtendedEventDescriptorItem<'a>>,
        ParseError,
    >)
        ensures
            match spec_list(bytes@, |i: Seq<u8>| spec_item(i)) {
                Ok(v) => r matches Ok(d) && views(d@) == v,
                Err(e) => r matches Err(x) && x == e,
            },
    {
        let mut items: Vec<ExtendedEventDescriptorItem<'a>> = Vec::new();
        let mut rest = bytes;
        let ghost item = |i: Seq<u8>| spec_item(i);
        proof {
            assert(Seq::<ExtendedEventDescriptorItemView>::empty() + spec_list(
                bytes@,
                item,
            )->Ok_0 =~= spec_list(bytes@, item)->Ok_0);
            assert(views(items@) =~= Seq::<ExtendedEventDescriptorItemView>::empty());
        }
        while rest.len() > 0
            invariant
                list_so_far(bytes@, item, views(items@), rest@),
                item == (|i: Seq<u8>| spec_item(i)),
            decreases rest@.len(),
        {
            proof {
                lemma_list_step(bytes@, item, views(items@), rest@);
            }
            let (one, n) = ExtendedEventDescriptorItem::parse(rest)?;
            if n > rest.len() {
                return Err(ParseError::TooShort);
            }
            proof {
                assert(views(items@.push(one)) =~= views(items@).push(one@));
                assert(rest@.subrange(n as int, rest@.len() as int) =~= rest@.skip(n as int));
            }
            items.push(one);
            rest = &rest[n..rest.len()];
        }
        proof {
            lemma_list_done(bytes@, item, views(items@), rest@);
        }
        Ok(items)
    }
}

impl<'a> ExtendedEventDescriptor<'a> {
    /// Reads an extended event descriptor, as [`spec_extended_event`] says.
    pub fn parse(bytes: &'a [u8]) -> (r: Result<ExtendedEventDescriptor<'a>, ParseError>)
        ensures
            match spec_extended_event(bytes@) {
                Ok(v) => r matches Ok(d) && d@ == v,
                Err(e) => r matches Err(x) && x == e,
            },
    {
        if bytes.len() < 1 {
            return Err(ParseError::TooShort);
        }
        if bytes[0] != EXTENDED_EVENT_DESCRIPTOR {
            return Err(ParseError::InvalidTag);
        }
        if bytes.len() < 6 {
            return Err(ParseError::TooShort);
        }
        let descriptor_number = bits(bytes[2], 4, 4);
        let last_descriptor_number = bits(bytes[2], 0, 4);
        let iso_639_language_code = match language_code(bytes, 3) {
            Some(code) => code,
            None => return Err(ParseError::InvalidLanguageCode),
        };
        let (all, at) = match counted(bytes, 6) {
            Some(field) => field,
            None => return Err(ParseError::TooShort),
        };
        let items = ExtendedEventDescriptorItem::parse_all(all)?;
        let (text, _) = match counted(bytes, at) {
            Some(field) => field,
            None => return Err(ParseError::TooShort),
        };
        Ok(
            ExtendedEventDescriptor {
                descriptor_number,
                last_descriptor_number,
                iso_639_language_code,
                items,
                text,
            },
        )
    }
}

impl Genre {
    /// The genre that the nibble names.
    pub fn from_nibble(nibble: u8) -> (g: Genre)
        ensures
            g == spec_genre(nibble as int),
    {
        match nibble {
            0x0 => Genre::News,
            0x1 => Genre::Sports,
            0x2 => Genre::Information,
            0x3 => Genre::Drama,
            0x4 => Genre::Music,
            0x5 => Genre::Variety,
            0x6 => Genre::Movies,
            0x7 => Genre::Animation,
            0x8 => Genre::Documentary,
            0x9 => Genre::Theatre,
            0xa => Genre::Hobby,
            0xb => Genre::Welfare,
            0xc | 0xd => Genre::Reserved,
            0xe => Genre::Extention,
            _ => Genre::Others,
        }
    }
}

impl ContentDescriptor {
    /// Reads a content descriptor, as [`spec_content`] says.
    pub fn parse(bytes: &[u8]) -> (r: Result<ContentDescriptor, ParseError>)
        ensures
            match spec_content(bytes@) {
                Ok(v) => r matches Ok(d) && d.items@ == v,
                Err(e) => r matches Err(x) && x == e,
            },
    {
        if bytes.len() < 1 {
            return Err(ParseError::TooShort);
        }
        if bytes[0] != CONTENT_DESCRIPTOR {
            return Err(ParseError::InvalidTag);
        }
        let (entries, _) = match counted(bytes, 1) {
            Some(field) => field,
            None => return Err(ParseError::TooShort),
        };
        if entries.len() % 2 != 0 {
            return Err(ParseError::InvalidLength);
        }
        let mut items: Vec<Genre> = Vec::new();
        let mut i: usize = 0;
        while i < entries.len()
            invariant
                i % 2 == 0,
                i <= entries@.len(),
                entries@.len() % 2 == 0,
                items@ == Seq::new((i / 2) as nat, |k: int| spec_genre(spec_bits(entries@[2 * k], 4, 4))),
            decreases entries@.len() - i,
        {
            items.push(Genre::from_nibble(bits(entries[i], 4, 4)));
            i += 2;
            proof {
                assert(items@ =~= Seq::new(
                    (i / 2) as nat,
                    |k: int| spec_genre(spec_bits(entries@[2 * k], 4, 4)),
                ));
            }
        }
        Ok(ContentDescriptor { items })
    }
}

impl StreamIdentifierDescriptor {
    /// Reads a stream identifier descriptor, as [`spec_stream_identifier`] says.
    pub fn parse(bytes: &[u8]) -> (r: Result<StreamIdentifierDescriptor, ParseError>)
        ensures
            r == spec_stream_identifier(bytes@),
    {
        if bytes.len() < 1 {
            return Err(ParseError::TooShort);
        }
        if bytes[0] != STREAM_IDENTIFIER_DESCRIPTOR {
            return Err(ParseError::InvalidTag);
        }
        if bytes.len() < 3 {
            return Err(ParseError::TooShort);
        }
        Ok(StreamIdentifierDescriptor { component_tag: bytes[2] })
    }
}

impl<'a> UnsupportedDescriptor<'a> {
    /// Reads any descriptor as its tag and its bytes.
    pub fn parse(bytes: &'a [u8]) -> (r: Result<UnsupportedDescriptor<'a>, ParseError>)
        ensures
            match spec_unsupported(bytes@) {
                Ok(v) => r matches Ok(d) && d@ == v,
                Err(e) => r matches Err(x) && x == e,
            },
    {
        if bytes.len() < 1 {
            return Err(ParseError::TooShort);
        }
        match counted(bytes, 1) {
            Some((data, _)) => Ok(UnsupportedDescriptor { descriptor_tag: bytes[0], data }),
            None => Err(ParseError::TooShort),
        }
    }
}

impl<'a> Descriptor<'a> {
    /// Reads the descriptor at the start of `bytes` and tells how many bytes
    /// it takes.
    pub fn parse(bytes: &'a [u8]) -> (r: Result<(Descriptor<'a>, usize), ParseError>)
        ensures
            match spec_descriptor(bytes@) {
                Ok((v, n)) => r matches Ok((d, m)) && d@ == v && m == n,
                Err(e) => r matches Err(x) && x == e,
            },
    {
        if bytes.len() < 2 {
            return Err(ParseError::TooShort);
        }
        let descriptor_tag = bytes[0];
        let descriptor_length = bytes[1] as usize;
        let descriptor = match descriptor_tag {
            SHORT_EVENT_DESCRIPTOR => Descriptor::ShortEventDescriptor(
                ShortEventDescriptor::parse(bytes)?,
            ),
            EXTENDED_EVENT_DESCRIPTOR => Descriptor::ExtendedEventDescriptor(
                ExtendedEventDescriptor::parse(bytes)?,
            ),
            CONTENT_DESCRIPTOR => Descriptor::ContentDescriptor(ContentDescriptor::parse(bytes)?),
            STREAM_IDENTIFIER_DESCRIPTOR => Descriptor::StreamIdentifierDescriptor(
                StreamIdentifierDescriptor::parse(bytes)?,
            ),
            _ => Descriptor::Unsupported(UnsupportedDescriptor::parse(bytes)?),
        };
        Ok((descriptor, descriptor_length + 2))
    }

    /// Reads the descriptors that fill `bytes`.
    pub fn parse_all(bytes: &'a [u8]) -> (r: Result<Vec<Descriptor<'a>>, ParseError>)
        ensures
            match spec_descriptors(bytes@) {
                Ok(v) => r matches Ok(d) && views(d@) == v,
                Err(e) => r matches Err(x) && x == e,
            },
    {
        let mut descriptors: Vec<Descriptor<'a>> = Vec::new();
        let mut rest = bytes;
        let ghost item = |d: Seq<u8>| spec_descriptor(d);
        proof {
            assert(Seq::<DescriptorView>::empty() + spec_list(bytes@, item)->Ok_0 =~= spec_list(
                bytes@,
                item,
            )->Ok_0);
            assert(views(descriptors@) =~= Seq::<DescriptorView>::empty());
        }
        while rest.len() > 0
            invariant
                list_so_far(bytes@, item, views(descriptors@), rest@),
                item == (|d: Seq<u8>| spec_descriptor(d)),
            decreases rest@.len(),
        {
            proof {
                lemma_list_step(bytes@, item, views(descriptors@), rest@);
            }
            let (descriptor, n) = Descriptor::parse(rest)?;
            if n > rest.len() {
                return Err(ParseError::TooShort);
            }
            proof {
                assert(views(descriptors@.push(descriptor)) =~= views(descriptors@).push(
                    descriptor@,
                ));
                assert(rest@.subrange(n as int, rest@.len() as int) =~= rest@.skip(n as int));
            }
            descriptors.push(descriptor);
            rest = &rest[n..rest.len()];
        }
        proof {
            lemma_list_done(bytes@, item, views(descriptors@), rest@);
        }
        Ok(descriptors)
    }
}

} // verus!
