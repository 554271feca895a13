//! The XML event stream that the builders consume.

use vstd::prelude::*;
use crate::error::{ErrorView, TiledError};
use crate::text::str_eq;

verus! {

/// One attribute of a start tag: its local name and its value.
#[derive(Debug, Clone, PartialEq, Eq)]
pub struct Attribute {
    pub name: String,
    pub value: String,
}

/// An attribute as a pair of character sequences.
pub struct AttributeView {
    pub name: Seq<char>,
    pub value: Seq<char>,
}

impl View for Attribute {
    type V = AttributeView;

    open spec fn view(&self) -> AttributeView {
        AttributeView { name: self.name@, value: self.value@ }
    }
}

/// One event of a document, reduced to what the builders read.
#[derive(Debug, Clone, PartialEq, Eq)]
pub enum XmlEvent {
    /// A start tag, with the element's local name.
    StartElement { name: String, attributes: Vec<Attribute> },
    /// An end tag, with the element's local name.
    EndElement { name: String },
    /// Character data between tags, unescaped.
    Characters(String),
    /// The document is complete.
    EndDocument,
    /// Anything the builders pass over: the declaration, comments,
    /// processing instructions, CDATA sections and whitespace.
    Other,
    /// The document is not well-formed; the text says why.
    Failure(String),
}

/// An event as ghost data.
pub enum EventView {
    StartElement { name: Seq<char>, attributes: Seq<AttributeView> },
    EndElement { name: Seq<char> },
    Characters(Seq<char>),
    EndDocument,
    Other,
    Failure(Seq<char>),
}

/// The views of the items of a sequence, in order.
pub open spec fn views<T: View>(items: Seq<T>) -> Seq<T::V> {
    items.map_values(|item: T| item@)
}

impl View for XmlEvent {
    type V = EventView;

    open spec fn view(&self) -> EventView {
        match self {
            XmlEvent::StartElement { name, attributes } => EventView::StartElement {
                name: name@,
                attributes: views(attributes@),
            },
            XmlEvent::EndElement { name } => EventView::EndElement { name: name@ },
            XmlEvent::Characters(text) => EventView::Characters(text@),
            XmlEvent::EndDocument => EventView::EndDocument,
            XmlEvent::Other => EventView::Other,
            XmlEvent::Failure(reason) => EventView::Failure(reason@),
        }
    }
}

impl EventView {
    /// No event follows this one: the document is complete or broken.
    pub open spec fn ends_stream(self) -> bool {
        self is EndDocument || self is Failure
    }
}

/// A stream that ends with its first closing event.
pub open spec fn is_stream(events: Seq<EventView>) -> bool {
    &&& events.len() > 0
    &&& events.last().ends_stream()
    &&& forall|i: int| 0 <= i < events.len() - 1 ==> !(#[trigger] events[i]).ends_stream()
}

/// An `xml::reader::EventReader` over a byte slice. Proofs see nothing of
/// it but the events that `pending` names.
#[verifier::external_body]
pub struct EventSource<'a> {
    reader: xml::reader::EventReader<&'a [u8]>,
}

/// The events of the XML document held in `bytes`, through the first one
/// that ends the stream, as `xml::reader::EventReader` yields them.
pub uninterp spec fn xml_events(bytes: Seq<u8>) -> Seq<EventView>;

/// The events that a reader has yet to yield, through the first one that
/// ends the stream.
pub uninterp spec fn pending(source: EventSource) -> Seq<EventView>;

/// `xml::reader::EventReader::new` on a byte slice: the reader has the whole
/// document before it.
#[verifier::external_body]
fn open_source<'a>(bytes: &'a [u8]) -> (source: EventSource<'a>)
    ensures
        pending(source) == xml_events(bytes@),
{
    EventSource { reader: xml::reader::EventReader::new(bytes) }
}

/// `xml::reader::EventReader::next`, with the event reduced to an `XmlEvent`
/// (local names only, an error as its displayed text). The reader yields its
/// pending events in order; the one that ends the stream is the last.
#[verifier::external_body]
fn next_event(source: &mut EventSource) -> (event: XmlEvent)
    ensures
        pending(*old(source)).len() > 0,
        event@ == pending(*old(source)).first(),
        event@.ends_stream() ==> pending(*old(source)).len() == 1,
        !event@.ends_stream() ==> pending(*final(source)) == pending(*old(source)).drop_first(),
{
    match source.reader.next() {
        Ok(xml::reader::XmlEvent::StartElement { name, attributes, .. }) => XmlEvent::StartElement {
            name: name.local_name,
            attributes: attributes.into_iter().map(|a| Attribute { name: a.name.local_name, value: a.value }).collect(),
        },
        Ok(xml::reader::XmlEvent::EndElement { name }) => XmlEvent::EndElement { name: name.local_name },
        Ok(xml::reader::XmlEvent::Characters(text)) => XmlEvent::Characters(text),
        Ok(xml::reader::XmlEvent::EndDocument) => XmlEvent::EndDocument,
        Ok(_) => XmlEvent::Other,
        Err(error) => XmlEvent::Failure(error.to_string()),
    }
}

/// Reads a whole document into its events. The last event is `EndDocument`
/// or `Failure`, and no earlier one is.
pub fn read_events(bytes: &[u8]) -> (events: Vec<XmlEvent>)
    ensures
        views(events@) == xml_events(bytes@),
        is_stream(views(events@)),
{
    let mut source = open_source(bytes);
    let mut events: Vec<XmlEvent> = Vec::new();
    loop
        invariant
            views(events@) + pending(source) == xml_events(bytes@),
            forall|i: int| 0 <= i < events@.len() ==> !(#[trigger] events@[i])@.ends_stream(),
        decreases usize::MAX - events.len(),
    {
        let ghost before = events@;
        let event = next_event(&mut source);
        let done = match &event {
            XmlEvent::EndDocument => true,
            XmlEvent::Failure(_) => true,
            _ => false,
        };
        events.push(event);
        proof {
            assert(views(events@) =~= views(before).push(event@));
        }
        if done {
            proof {
                assert(views(events@) =~= xml_events(bytes@));
            }
            return events;
        }
        proof {
            assert(views(events@) + pending(source) =~= xml_events(bytes@));
        }
    }
}

/// What a builder makes of one event while it is inside an element.
pub enum StepView {
    /// A start tag: a child to dispatch on.
    Child { name: Seq<char>, attributes: Seq<AttributeView> },
    /// The end tag of the element being built.
    Close,
    /// Nothing to act on.
    Skip,
    /// The stream is broken or over.
    Fail(ErrorView),
}

/// The error for a stream that stops inside an element.
pub open spec fn premature_end() -> ErrorView {
    ErrorView::PrematureEnd("Document ended before we expected."@)
}

/// How the event at `pos` is taken inside the element `tag`. A position
/// beyond the events counts as the end of the document.
pub open spec fn step_at(events: Seq<EventView>, pos: int, tag: Seq<char>) -> StepView {
    if pos < 0 || pos >= events.len() {
        StepView::Fail(premature_end())
    } else {
        match events[pos] {
            EventView::StartElement { name, attributes } => StepView::Child { name, attributes },
            EventView::EndElement { name } => if name == tag {
                StepView::Close
            } else {
                StepView::Skip
            },
            EventView::EndDocument => StepView::Fail(premature_end()),
            EventView::Failure(reason) => StepView::Fail(ErrorView::XmlDecodingError(reason)),
            _ => StepView::Skip,
        }
    }
}

/// `StepView`, with the child's name and attributes borrowed from the event.
pub enum Step<'a> {
    Child { name: &'a String, attributes: &'a Vec<Attribute> },
    Close,
    Skip,
    Fail(TiledError),
}

impl<'a> View for Step<'a> {
    type V = StepView;

    open spec fn view(&self) -> StepView {
        match self {
            Step::Child { name, attributes } => StepView::Child {
                name: name@,
                attributes: views(attributes@),
            },
            Step::Close => StepView::Close,
            Step::Skip => StepView::Skip,
            Step::Fail(e) => StepView::Fail(e@),
        }
    }
}

/// Classifies the event at `pos` for a builder inside the element `tag`.
pub fn step<'a>(events: &'a Vec<XmlEvent>, pos: usize, tag: &str) -> (s: Step<'a>)
    ensures
        s@ == step_at(views(events@), pos as int, tag@),
        !(s@ is Fail) ==> pos < events@.len() <= usize::MAX,
{
    if pos >= events.len() {
        return Step::Fail(TiledError::PrematureEnd("Document ended before we expected.".to_owned()));
    }
    assert(views(events@)[pos as int] == events@[pos as int]@);
    match &events[pos] {
        XmlEvent::StartElement { name, attributes } => Step::Child { name, attributes },
        XmlEvent::EndElement { name } => {
            if str_eq(name.as_str(), tag) {
                Step::Close
            } else {
                Step::Skip
            }
        },
        XmlEvent::EndDocument => Step::Fail(
            TiledError::PrematureEnd("Document ended before we expected.".to_owned()),
        ),
        XmlEvent::Failure(reason) => Step::Fail(TiledError::XmlDecodingError(reason.clone())),
        _ => Step::Skip,
    }
}

/// The position after the end tag of the element `tag`, for a builder that
/// passes over everything inside it.
pub open spec fn close_of(events: Seq<EventView>, pos: int, tag: Seq<char>) -> Result<int, ErrorView>
    decreases events.len() - pos,
{
    match step_at(events, pos, tag) {
        StepView::Fail(e) => Err(e),
        StepView::Close => Ok(pos + 1),
        _ => close_of(events, pos + 1, tag),
    }
}

/// Passes over the events of an element through its end tag.
pub fn skip_to_close(events: &Vec<XmlEvent>, start: usize, tag: &str) -> (r: Result<
    usize,
    TiledError,
>)
    ensures
        match r {
            Ok(next) => close_of(views(events@), start as int, tag@) == Ok::<int, ErrorView>(
                next as int,
            ) && start < next <= events@.len(),
            Err(e) => close_of(views(events@), start as int, tag@) == Err::<int, ErrorView>(e@),
        },
{
    let ghost ev = views(events@);
    let mut pos: usize = start;
    loop
        invariant
            start <= pos,
            ev == views(events@),
            close_of(ev, pos as int, tag@) == close_of(ev, start as int, tag@),
        decreases events@.len() - pos,
    {
        match step(events, pos, tag) {
            Step::Fail(e) => {
                return Err(e);
            },
            Step::Close => {
                return Ok(pos + 1);
            },
            _ => {
                pos += 1;
            },
        }
    }
}

/// Where a builder goes on after a child that it met at `pos` and that was
/// read up to `next`: at `next`, and in any case beyond `pos` and within the
/// events.
pub open spec fn resume(events: Seq<EventView>, pos: int, next: int) -> int {
    if pos < next <= events.len() {
        next
    } else {
        pos + 1
    }
}

/// The attributes of the first start tag called `tag` at or after `pos`, and
/// the position after that tag. A document that ends first is reported as
/// ended early, with the message `missing`.
pub open spec fn root_of(events: Seq<EventView>, pos: int, tag: Seq<char>, missing: Seq<char>) -> Result<
    (Seq<AttributeView>, int),
    ErrorView,
>
    decreases events.len() - pos,
{
    if pos < 0 || pos >= events.len() {
        Err(ErrorView::PrematureEnd(missing))
    } else {
        match events[pos] {
            EventView::StartElement { name, attributes } => if name == tag {
                Ok((attributes, pos + 1))
            } else {
                root_of(events, pos + 1, tag, missing)
            },
            EventView::EndDocument => Err(ErrorView::PrematureEnd(missing)),
            EventView::Failure(reason) => Err(ErrorView::XmlDecodingError(reason)),
            _ => root_of(events, pos + 1, tag, missing),
        }
    }
}

/// Finds the first element called `tag` in a document.
pub fn find_root<'a>(events: &'a Vec<XmlEvent>, tag: &str, missing: &str) -> (r: Result<
    (&'a Vec<Attribute>, usize),
    TiledError,
>)
    ensures
        match r {
            Ok((attributes, next)) => root_of(views(events@), 0, tag@, missing@) == Ok::<
                (Seq<AttributeView>, int),
                ErrorView,
            >((views(attributes@), next as int)) && 0 < next <= events@.len(),
            Err(e) => root_of(views(events@), 0, tag@, missing@) == Err::<
                (Seq<AttributeView>, int),
                ErrorView,
            >(e@),
        },
{
    let ghost ev = views(events@);
    let mut pos: usize = 0;
    while pos < events.len()
        invariant
            ev == views(events@),
            root_of(ev, pos as int, tag@, missing@) == root_of(ev, 0, tag@, missing@),
        decreases events@.len() - pos,
    {
        assert(ev[pos as int] == events@[pos as int]@);
        match &events[pos] {
            XmlEvent::StartElement { name, attributes } => {
                if str_eq(name.as_str(), tag) {
                    return Ok((attributes, pos + 1));
                }
            },
            XmlEvent::EndDocument => {
                return Err(TiledError::PrematureEnd(missing.to_owned()));
            },
            XmlEvent::Failure(reason) => {
                return Err(TiledError::XmlDecodingError(reason.clone()));
            },
            _ => {},
        }
        pos += 1;
    }
    Err(TiledError::PrematureEnd(missing.to_owned()))
}

} // verus!
