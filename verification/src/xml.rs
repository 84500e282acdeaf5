//! XML documents as lists of plain events.

use vstd::prelude::*;
use quick_xml::events::{attributes::Attributes, Event};
use crate::text::option_text;

verus! {

/// The error of quick-xml's reader.
#[verifier::external_type_specification]
#[verifier::external_body]
pub struct ExXmlError(quick_xml::Error);

/// quick-xml's reader.
#[verifier::external_type_specification]
#[verifier::external_body]
#[verifier::reject_recursive_types(R)]
pub struct ExXmlReader<R>(quick_xml::Reader<R>);

/// An attribute; its value is missing where it cannot be read.
#[derive(Debug, Clone, PartialEq, Eq)]
pub struct XmlAttribute {
    pub key: String,
    pub value: Option<String>,
}

/// An event of a document.
#[derive(Debug, Clone, PartialEq, Eq)]
pub enum XmlEvent {
    /// A start tag, or a tag that is empty. A missing attribute is one that is malformed.
    Open { name: String, empty: bool, attributes: Vec<Option<XmlAttribute>> },
    /// An end tag.
    Close(String),
    /// Text between tags; missing where it cannot be read.
    Text(Option<String>),
    /// Anything else.
    Other,
}

/// The texts of an attribute.
pub struct AttributeTexts {
    pub key: Seq<char>,
    pub value: Option<Seq<char>>,
}

/// The texts of an event.
pub enum EventTexts {
    Open { name: Seq<char>, empty: bool, attributes: Seq<Option<AttributeTexts>> },
    Close(Seq<char>),
    Text(Option<Seq<char>>),
    Other,
}

/// The texts of an attribute that may be malformed.
pub open spec fn attribute_texts(attribute: Option<XmlAttribute>) -> Option<AttributeTexts> {
    match attribute {
        Some(a) => Some(
            AttributeTexts {
                key: a.key@,
                value: match a.value {
                    Some(value) => Some(value@),
                    None => None,
                },
            },
        ),
        None => None,
    }
}

/// The texts of a list of attributes.
pub open spec fn attribute_views(attributes: Seq<Option<XmlAttribute>>) -> Seq<
    Option<AttributeTexts>,
> {
    attributes.map_values(|a: Option<XmlAttribute>| attribute_texts(a))
}

impl View for XmlEvent {
    type V = EventTexts;

    open spec fn view(&self) -> EventTexts {
        match self {
            XmlEvent::Open { name, empty, attributes } => EventTexts::Open {
                name: name@,
                empty: *empty,
                attributes: attribute_views(attributes@),
            },
            XmlEvent::Close(name) => EventTexts::Close(name@),
            XmlEvent::Text(text) => EventTexts::Text(
                match text {
                    Some(text) => Some(text@),
                    None => None,
                },
            ),
            XmlEvent::Other => EventTexts::Other,
        }
    }
}

/// The texts of a list of events.
pub open spec fn event_views(events: Seq<XmlEvent>) -> Seq<EventTexts> {
    events.map_values(|e: XmlEvent| e@)
}

/// An event of a document whose attributes are not read yet.
pub enum RawEvent {
    /// A start tag or an empty tag: its name, whether it is empty, and the text behind the name.
    Open(String, bool, String),
    /// An end tag.
    Close(String),
    /// Text between tags; missing where it cannot be read.
    Text(Option<String>),
    /// Anything else.
    Other,
    /// The end of the document.
    End,
}

/// The texts of a raw event.
pub enum RawTexts {
    Open(Seq<char>, bool, Seq<char>),
    Close(Seq<char>),
    Text(Option<Seq<char>>),
    Other,
    End,
}

impl View for RawEvent {
    type V = RawTexts;

    open spec fn view(&self) -> RawTexts {
        match self {
            RawEvent::Open(name, empty, rest) => RawTexts::Open(name@, *empty, rest@),
            RawEvent::Close(name) => RawTexts::Close(name@),
            RawEvent::Text(text) => RawTexts::Text(option_text(*text)),
            RawEvent::Other => RawTexts::Other,
            RawEvent::End => RawTexts::End,
        }
    }
}

/// The events that quick-xml's reader gives for a document, one after the other, up to the end or up
/// to the first error; a missing event stands for the error.
pub uninterp spec fn raw_events(xml: Seq<char>) -> Seq<Option<RawTexts>>;

/// The events that a reader still holds.
pub uninterp spec fn pending_events(reader: quick_xml::Reader<&[u8]>) -> Seq<Option<RawTexts>>;

/// The attributes that quick-xml finds in the text behind the name of a tag, whether a name occurs
/// twice or not; a missing attribute is one in whose place an error is reported, and a missing value
/// one that cannot be decoded.
pub uninterp spec fn tag_attributes(text: Seq<char>) -> Seq<Option<AttributeTexts>>;

/// `quick_xml::Reader::from_str`, with `Config::trim_text` switched off. The claim: the reader holds
/// the events of the document, and these depend on the document alone.
#[verifier::external_body]
fn open_reader<'a>(xml: &'a str) -> (r: quick_xml::Reader<&'a [u8]>)
    ensures
        pending_events(r) == raw_events(xml@),
{
    let mut reader = quick_xml::Reader::from_str(xml);
    reader.config_mut().trim_text(false);
    reader
}

/// `quick_xml::Reader::read_event`, with the name of a tag, the text behind it as
/// `BytesStart::attributes_raw` gives it, and other text as `decode` gives it. The claim: the reader
/// gives its first pending event and keeps the others, or reports the error that stands first, or
/// reports the end where nothing is pending.
#[verifier::external_body]
fn next_event(reader: &mut quick_xml::Reader<&[u8]>) -> (r: Result<RawEvent, quick_xml::Error>)
    ensures
        match r {
            Ok(RawEvent::End) => pending_events(*old(reader)).len() == 0,
            Ok(event) => {
                &&& pending_events(*old(reader)).len() > 0
                &&& pending_events(*old(reader))[0] == Some(event@)
                &&& pending_events(*final(reader)) == pending_events(*old(reader)).skip(1)
            },
            Err(_) => {
                &&& pending_events(*old(reader)).len() > 0
                &&& pending_events(*old(reader))[0] is None
            },
        },
{
    let text = |bytes: &[u8]| String::from_utf8_lossy(bytes).into_owned();
    Ok(match reader.read_event()? {
        Event::Start(e) => RawEvent::Open(text(e.name().0), false, text(e.attributes_raw())),
        Event::Empty(e) => RawEvent::Open(text(e.name().0), true, text(e.attributes_raw())),
        Event::End(e) => RawEvent::Close(text(e.name().0)),
        Event::Text(t) => RawEvent::Text(t.decode().ok().map(String::from)),
        Event::CData(t) => RawEvent::Text(t.decode().ok().map(String::from)),
        Event::Eof => RawEvent::End,
        _ => RawEvent::Other,
    })
}

/// `quick_xml::events::attributes::Attributes` with `with_checks(false)`, and
/// `Attribute::decoded_and_normalized_value` of each attribute. The claim: the attributes depend on
/// the text alone.
#[verifier::external_body]
fn read_attributes(text: &str) -> (r: Vec<Option<XmlAttribute>>)
    ensures
        attribute_views(r@) == tag_attributes(text@),
{
    let decoder = quick_xml::Reader::from_str(text).decoder();
    let version = quick_xml::XmlVersion::Explicit1_0;
    let mut attributes = Attributes::new(text, 0);
    attributes.with_checks(false).map(|a| a.ok().map(|a| XmlAttribute {
        key: String::from_utf8_lossy(a.key.as_ref()).into_owned(),
        value: a.decoded_and_normalized_value(version, decoder).ok().map(String::from),
    })).collect()
}

/// A raw event with its attributes.
pub open spec fn event_of(raw: RawTexts) -> EventTexts {
    match raw {
        RawTexts::Open(name, empty, rest) => EventTexts::Open {
            name,
            empty,
            attributes: tag_attributes(rest),
        },
        RawTexts::Close(name) => EventTexts::Close(name),
        RawTexts::Text(text) => EventTexts::Text(text),
        RawTexts::Other | RawTexts::End => EventTexts::Other,
    }
}

fn resolve(raw: RawEvent) -> (r: XmlEvent)
    ensures
        r@ == event_of(raw@),
{
    match raw {
        RawEvent::Open(name, empty, rest) => XmlEvent::Open {
            name,
            empty,
            attributes: read_attributes(&rest),
        },
        RawEvent::Close(name) => XmlEvent::Close(name),
        RawEvent::Text(text) => XmlEvent::Text(text),
        RawEvent::Other | RawEvent::End => XmlEvent::Other,
    }
}

/// The events of a document; a missing event is one in whose place an error is reported.
pub open spec fn xml_events(xml: Seq<char>) -> Seq<Option<EventTexts>> {
    raw_events(xml).map_values(
        |raw: Option<RawTexts>|
            match raw {
                Some(raw) => Some(event_of(raw)),
                None => None,
            },
    )
}

/// The events that stand before the first error.
pub open spec fn leading_events(all: Seq<Option<EventTexts>>) -> Seq<EventTexts>
    decreases all.len(),
{
    if all.len() == 0 || all[0] is None {
        Seq::empty()
    } else {
        seq![all[0]->0] + leading_events(all.skip(1))
    }
}

/// Whether there is no error among the events.
pub open spec fn all_readable(all: Seq<Option<EventTexts>>) -> bool {
    forall|i: int| 0 <= i < all.len() ==> #[trigger] all[i] is Some
}

/// The events of a document up to its end, or up to the first error.
#[derive(Debug)]
pub struct XmlDocument {
    pub events: Vec<XmlEvent>,
    /// Whether the end was reached.
    pub complete: bool,
}

/// Reads a document.
pub fn read_document(xml: &str) -> (r: XmlDocument)
    ensures
        event_views(r.events@) == leading_events(xml_events(xml@)),
        r.complete == all_readable(xml_events(xml@)),
{
    let ghost all = xml_events(xml@);
    let ghost raw = raw_events(xml@);
    let mut reader = open_reader(xml);
    let mut events: Vec<XmlEvent> = Vec::new();
    let ghost mut done: int = 0;
    proof {
        assert(all.skip(0) =~= all);
        assert(raw.skip(0) =~= raw);
        assert(event_views(events@) + leading_events(all) =~= leading_events(all));
    }
    loop
        invariant
            0 <= done <= all.len(),
            raw == raw_events(xml@),
            all.len() == raw.len(),
            pending_events(reader) == raw.skip(done),
            forall|i: int| 0 <= i < done ==> #[trigger] all[i] is Some,
            event_views(events@) + leading_events(all.skip(done)) == leading_events(all),
            all == xml_events(xml@),
        decreases all.len() - done,
    {
        match next_event(&mut reader) {
            Ok(RawEvent::End) => {
                assert(event_views(events@) + Seq::<EventTexts>::empty() =~= event_views(events@));
                return XmlDocument { events, complete: true };
            },
            Ok(event) => {
                let event = resolve(event);
                proof {
                    let rest = all.skip(done);
                    assert(raw.skip(done)[0] == raw[done]);
                    assert(raw.skip(done).skip(1) =~= raw.skip(done + 1));
                    assert(all[done] == Some(event@));
                    assert(rest[0] == all[done]);
                    assert(rest.skip(1) =~= all.skip(done + 1));
                    assert(event_views(events@.push(event)) =~= event_views(events@).push(event@));
                    assert(event_views(events@) + (seq![event@] + leading_events(all.skip(done + 1)))
                        =~= event_views(events@.push(event)) + leading_events(all.skip(done + 1)));
                    done = done + 1;
                }
                events.push(event);
            },
            Err(_) => {
                proof {
                    assert(raw.skip(done)[0] == raw[done]);
                    assert(all.skip(done)[0] == all[done]);
                    assert(event_views(events@) + Seq::<EventTexts>::empty() =~= event_views(
                        events@,
                    ));
                }
                return XmlDocument { events, complete: false };
            },
        }
    }
}

} // verus!
