//! The reader side: a cursor over a stream of markup events with one event
//! of lookahead, and the dispatch that decodes a value of a given shape.

pub mod dispatch;
pub mod map;
pub mod plain;
pub mod progress;
pub mod semantics;
pub mod seq;
pub mod tuple;
pub mod var;

use vstd::prelude::*;
use crate::error::{ErrorView, Outcome, Result, message};
use crate::event::{Attribute, AttributeView, Event, EventView, attributes_view};
use crate::de::map::{MapAccess, MapView};
use crate::text::{same_text, text_view};
use crate::de::semantics::{decode_document, map_begin, map_end};
use crate::source::document_events;
use crate::value::{Shape, Value, ValueView};
use crate::source::{EventSource, Stream, head, lemma_settle_open_end, lemma_settle_pull, settle, tail};

verus! {

/// The decoder: an event source behind one event of lookahead, and the
/// context of the tag that was opened last.
pub struct Deserializer {
    source: EventSource,
    root: bool,
    lookahead: Option<Event>,
    tag_name: Option<String>,
    attributes: Option<Vec<Attribute>>,
    closed: bool,
}

/// The mathematical state of a [`Deserializer`].
pub struct DecoderView {
    /// What is left to read, as a reader sees it.
    pub stream: Stream,
    /// Whether the root element is still to be opened.
    pub root: bool,
    /// The name of the tag that was opened last, until it is cleared.
    pub tag: Option<Seq<char>>,
    /// The attributes of that tag, until someone takes them.
    pub attributes: Option<Seq<AttributeView>>,
    /// Whether the end tag of the element that was decoded last has been
    /// read already, by a sequence that had to look behind it.
    pub closed: bool,
}

impl DecoderView {
    /// The state of a new decoder in front of what a reader sees of a
    /// stream.
    pub open spec fn begin(stream: Stream) -> DecoderView {
        DecoderView { stream, root: true, tag: None, attributes: None, closed: false }
    }

    /// The event that comes next, `None` where the source fails.
    pub open spec fn head(self) -> Option<EventView> {
        head(self.stream)
    }

    /// The state after the next event was read.
    pub open spec fn advance(self) -> DecoderView {
        DecoderView { stream: tail(self.stream), ..self }
    }

    /// The state with another tag context.
    pub open spec fn enter(self, name: Seq<char>, attributes: Seq<AttributeView>) -> DecoderView {
        DecoderView { tag: Some(name), attributes: Some(attributes), closed: false, ..self }
    }
}

/// The ways to decode whatever comes next.
#[derive(Debug, Clone, Copy, PartialEq, Eq)]
pub enum Route {
    /// An element begins: its attributes and children make a map.
    Mapping,
    /// An element ends: there is no content.
    Unit,
    /// Anything else is read as a text.
    Text,
}

/// The way to decode whatever comes behind the event `e`.
pub open spec fn route_of(e: EventView) -> Route {
    match e {
        EventView::StartElement { .. } => Route::Mapping,
        EventView::EndElement { .. } => Route::Unit,
        _ => Route::Text,
    }
}

impl DecoderView {
    /// Reading the start of the document.
    pub open spec fn start_document(self) -> Outcome<DecoderView> {
        match self.head() {
            None => Err(ErrorView::Reader),
            Some(EventView::StartDocument) => Ok(self.advance()),
            Some(_) => Err(ErrorView::Message("expected start document"@)),
        }
    }

    /// Reading the end of the document.
    pub open spec fn end_document(self) -> Outcome<DecoderView> {
        match self.head() {
            None => Err(ErrorView::Reader),
            Some(EventView::EndDocument) => Ok(self.advance()),
            Some(_) => Err(ErrorView::Message("expected end of document"@)),
        }
    }

    /// Reading a start tag: its name and its attributes.
    pub open spec fn start_tag(self) -> Outcome<(Seq<char>, Seq<AttributeView>, DecoderView)> {
        match self.head() {
            None => Err(ErrorView::Reader),
            Some(EventView::StartElement { name, attributes, .. }) => Ok(
                (name, attributes, self.advance()),
            ),
            Some(_) => Err(ErrorView::Message("expecting start tag"@)),
        }
    }

    /// Reading a start tag and making it the tag context.
    pub open spec fn open_tag(self) -> Outcome<(Seq<char>, DecoderView)> {
        match self.start_tag() {
            Err(e) => Err(e),
            Ok((name, attributes, d)) => Ok((name, d.enter(name, attributes))),
        }
    }

    /// Reading the end tag of the element `name`.
    pub open spec fn end_tag(self, name: Seq<char>) -> Outcome<DecoderView> {
        match self.head() {
            None => Err(ErrorView::Reader),
            Some(EventView::EndElement { name: found }) => if found == name {
                Ok(self.advance())
            } else {
                Err(ErrorView::Message("expecting end tag"@))
            },
            Some(_) => Err(ErrorView::Message("expecting end tag"@)),
        }
    }

    /// Leaving the element `name`: its end tag is read, unless a sequence
    /// has read it already.
    pub open spec fn finish_element(self, name: Seq<char>) -> Outcome<DecoderView> {
        if self.closed {
            Ok(DecoderView { closed: false, ..self })
        } else {
            self.end_tag(name)
        }
    }

    /// Reading a run of character data.
    pub open spec fn characters(self) -> Outcome<(Seq<char>, DecoderView)> {
        match self.head() {
            None => Err(ErrorView::Reader),
            Some(EventView::Characters(text)) => Ok((text, self.advance())),
            Some(_) => Err(ErrorView::Message("expecting characters"@)),
        }
    }
}

impl View for Deserializer {
    type V = DecoderView;

    closed spec fn view(&self) -> DecoderView {
        DecoderView {
            stream: self.stream(),
            root: self.root,
            tag: match self.tag_name {
                Some(t) => Some(t@),
                None => None,
            },
            attributes: match self.attributes {
                Some(a) => Some(attributes_view(a@)),
                None => None,
            },
            closed: self.closed,
        }
    }
}

impl Deserializer {
    /// What is left to read, as a reader sees it: the event that was
    /// glanced at, if any, and what a reader sees of what the source has
    /// yet to yield.
    spec fn stream(self) -> Stream {
        let rest = settle(self.source.pending());
        match self.lookahead {
            Some(e) => if e@ is EndDocument && rest.len() == 0 {
                rest
            } else {
                seq![Some(e@)] + rest
            },
            None => rest,
        }
    }

    /// A decoder at the start of what `source` yields.
    pub fn new(source: EventSource) -> (r: Result<Self>)
        ensures
            r matches Ok(d) && d@ == DecoderView::begin(settle(source.pending())),
    {
        let d = Deserializer {
            source,
            root: true,
            lookahead: None,
            tag_name: None,
            attributes: None,
            closed: false,
        };
        Ok(d)
    }

    /// A decoder at the start of the document that `reader` holds.
    pub fn new_from_reader(reader: &[u8]) -> (r: Result<Self>)
        ensures
            r matches Ok(d) && d@ == DecoderView::begin(settle(document_events(reader@))),
    {
        Self::new(EventSource::parse(reader))
    }

    /// Pulls from the source until an event shows that a reader needs to
    /// see.
    fn do_next(&mut self) -> (r: Result<Event>)
        requires
            old(self).lookahead is None,
        ensures
            final(self).lookahead is None,
            match r {
                Ok(e) => old(self)@.head() == Some(e@),
                Err(err) => old(self)@.head() is None && err@ == ErrorView::Reader,
            },
            final(self)@ == old(self)@.advance(),
    {
        loop
            invariant
                self.lookahead is None,
                self@ == old(self)@,
            decreases self.source.pending().len(),
        {
            proof {
                lemma_settle_pull(self.source.pending());
            }
            let e = self.source.next()?;
            match e {
                Event::ProcessingInstruction | Event::Comment => {},
                _ => {
                    return Ok(e);
                },
            }
        }
    }

    /// The next event, which stays to be read.
    pub fn peek(&mut self) -> (r: Result<&Event>)
        ensures
            final(self)@ == old(self)@,
            match r {
                Ok(e) => old(self)@.head() == Some(e@),
                Err(err) => old(self)@.head() is None && err@ == ErrorView::Reader,
            },
    {
        if self.lookahead.is_none() {
            proof {
                lemma_settle_open_end(self.source.pending());
            }
            let ghost before = self@.stream;
            let e = self.do_next()?;
            self.lookahead = Some(e);
            assert(self@.stream =~= before);
        }
        Ok(self.lookahead.as_ref().unwrap())
    }

    /// The name of the tag that was opened last.
    pub fn current_tag(&self) -> (r: Option<String>)
        ensures
            match r {
                Some(t) => self@.tag == Some(t@),
                None => self@.tag is None,
            },
    {
        match &self.tag_name {
            Some(t) => Some(t.clone()),
            None => None,
        }
    }

    /// Forgets the name of the tag that was opened last.
    pub fn clear_tag(&mut self) -> (r: Result<()>)
        ensures
            r is Ok,
            final(self)@ == (DecoderView { tag: None, ..old(self)@ }),
    {
        self.tag_name = None;
        Ok(())
    }

    /// Hands out the attributes of the tag that was opened last; none
    /// where they are gone already.
    pub fn take_attributes(&mut self) -> (r: Vec<Attribute>)
        ensures
            attributes_view(r@) == match old(self)@.attributes {
                Some(a) => a,
                None => Seq::empty(),
            },
            final(self)@ == (DecoderView { attributes: None, ..old(self)@ }),
    {
        match self.attributes.take() {
            Some(a) => a,
            None => {
                let a: Vec<Attribute> = Vec::new();
                a
            },
        }
    }

    /// Whether the root element is still to be opened.
    pub fn is_root(&self) -> (r: bool)
        ensures
            r == self@.root,
    {
        self.root
    }

    /// Reads the start of the document. Whatever comes is read.
    pub fn start_document(&mut self) -> (r: Result<()>)
        ensures
            match r {
                Ok(_) => old(self)@.start_document() == Ok::<_, ErrorView>(final(self)@),
                Err(e) => old(self)@.start_document() == Err::<DecoderView, _>(e@),
            },
            final(self)@ == old(self)@.advance(),
    {
        match self.next()? {
            Event::StartDocument => Ok(()),
            _ => Err(message("expected start document")),
        }
    }

    /// Reads the end of the document. Whatever comes is read.
    pub fn end_document(&mut self) -> (r: Result<()>)
        ensures
            match r {
                Ok(_) => old(self)@.end_document() == Ok::<_, ErrorView>(final(self)@),
                Err(e) => old(self)@.end_document() == Err::<DecoderView, _>(e@),
            },
            final(self)@ == old(self)@.advance(),
    {
        match self.next()? {
            Event::EndDocument => Ok(()),
            _ => Err(message("expected end of document")),
        }
    }

    /// Reads a start tag and hands out its name and its attributes.
    /// Whatever comes is read.
    pub fn start_tag(&mut self) -> (r: Result<(String, Vec<Attribute>)>)
        ensures
            match r {
                Ok((name, attributes)) => old(self)@.start_tag() == Ok::<_, ErrorView>(
                    (name@, attributes_view(attributes@), final(self)@),
                ),
                Err(e) => old(self)@.start_tag() == Err::<
                    (Seq<char>, Seq<AttributeView>, DecoderView),
                    _,
                >(e@),
            },
            final(self)@ == old(self)@.advance(),
    {
        match self.next()? {
            Event::StartElement { name, attributes, .. } => Ok((name, attributes)),
            _ => Err(message("expecting start tag")),
        }
    }

    /// Reads a start tag, makes it the tag context and hands out its name.
    pub fn open_tag(&mut self) -> (r: Result<String>)
        ensures
            match r {
                Ok(name) => old(self)@.open_tag() == Ok::<_, ErrorView>((name@, final(self)@)),
                Err(e) => old(self)@.open_tag() == Err::<(Seq<char>, DecoderView), _>(e@)
                    && final(self)@ == old(self)@.advance(),
            },
    {
        let (name, attributes) = self.start_tag()?;
        self.tag_name = Some(name.clone());
        self.attributes = Some(attributes);
        self.closed = false;
        Ok(name)
    }

    /// Reads the end tag of the element `tag_name`. Whatever comes is
    /// read.
    pub fn end_tag(&mut self, tag_name: &str) -> (r: Result<()>)
        ensures
            match r {
                Ok(_) => old(self)@.end_tag(tag_name@) == Ok::<_, ErrorView>(final(self)@),
                Err(e) => old(self)@.end_tag(tag_name@) == Err::<DecoderView, _>(e@),
            },
            final(self)@ == old(self)@.advance(),
    {
        match self.next()? {
            Event::EndElement { name } => {
                if same_text(name.as_str(), tag_name) {
                    Ok(())
                } else {
                    Err(message("expecting end tag"))
                }
            },
            _ => Err(message("expecting end tag")),
        }
    }

    /// Leaves the element `tag_name`: reads its end tag, unless a sequence
    /// has read it already.
    pub fn finish_element(&mut self, tag_name: &str) -> (r: Result<()>)
        ensures
            match r {
                Ok(_) => old(self)@.finish_element(tag_name@) == Ok::<_, ErrorView>(final(self)@),
                Err(e) => old(self)@.finish_element(tag_name@) == Err::<DecoderView, _>(e@)
                    && final(self)@ == old(self)@.advance(),
            },
    {
        if self.closed {
            self.closed = false;
            Ok(())
        } else {
            self.end_tag(tag_name)
        }
    }

    /// Notes that the end tag of the element that was decoded last has
    /// been read.
    pub fn mark_closed(&mut self)
        ensures
            final(self)@ == (DecoderView { closed: true, ..old(self)@ }),
    {
        self.closed = true;
    }

    /// Reads a run of character data. Whatever comes is read.
    pub fn characters(&mut self) -> (r: Result<String>)
        ensures
            match r {
                Ok(text) => old(self)@.characters() == Ok::<_, ErrorView>((text@, final(self)@)),
                Err(e) => old(self)@.characters() == Err::<(Seq<char>, DecoderView), _>(e@),
            },
            final(self)@ == old(self)@.advance(),
    {
        match self.next()? {
            Event::Characters(text) => Ok(text),
            _ => Err(message("expecting characters")),
        }
    }

    /// The way to decode whatever comes next: a map where an element
    /// begins, no content where one ends, and a text else.
    pub fn any_route(&mut self) -> (r: Result<Route>)
        ensures
            final(self)@ == old(self)@,
            match r {
                Ok(route) => old(self)@.head() matches Some(e) && route == route_of(e),
                Err(err) => old(self)@.head() is None && err@ == ErrorView::Reader,
            },
    {
        match *self.peek()? {
            Event::StartElement { .. } => Ok(Route::Mapping),
            Event::EndElement { .. } => Ok(Route::Unit),
            _ => Ok(Route::Text),
        }
    }

    /// Whether an optional value is there: it is absent where an end tag
    /// comes next.
    pub fn option_route(&mut self) -> (r: Result<bool>)
        ensures
            final(self)@ == old(self)@,
            match r {
                Ok(present) => old(self)@.head() matches Some(e) && present == !(e is EndElement),
                Err(err) => old(self)@.head() is None && err@ == ErrorView::Reader,
            },
    {
        match *self.peek()? {
            Event::EndElement { .. } => Ok(false),
            _ => Ok(true),
        }
    }

    /// Whether a tag names the case of an enumeration that comes next, and
    /// not a text. Nothing else can begin a case.
    pub fn enum_route(&mut self) -> (r: Result<bool>)
        ensures
            final(self)@ == old(self)@,
            match r {
                Ok(tagged) => old(self)@.head() matches Some(e) && (e is StartElement || e
                    is Characters) && tagged == e is StartElement,
                Err(err) => match old(self)@.head() {
                    None => err@ == ErrorView::Reader,
                    Some(e) => !(e is StartElement || e is Characters) && err@
                        == ErrorView::Message("expected enum value"@),
                },
            },
    {
        match *self.peek()? {
            Event::StartElement { .. } => Ok(true),
            Event::Characters(_) => Ok(false),
            _ => Err(message("expected enum value")),
        }
    }

    /// Enters a map-shaped value. The first one is the root: the document
    /// starts and the root tag is read, whose name is handed out to be
    /// closed in the end. Every other one takes the attributes of the tag
    /// context.
    pub fn map_begin(&mut self) -> (r: Result<(Option<String>, MapAccess)>)
        ensures
            match r {
                Ok((root_tag, access)) => map_begin(old(self)@) matches Ok((tag, attributes, after))
                    && tag == text_view(root_tag) && access@ == MapView::begin(attributes) && after
                    == final(self)@,
                Err(e) => map_begin(old(self)@) == Err::<
                    (Option<Seq<char>>, Seq<AttributeView>, DecoderView),
                    _,
                >(e@),
            },
    {
        if self.root {
            self.root = false;
            self.start_document()?;
            let (tag_name, attributes) = self.start_tag()?;
            Ok((Some(tag_name), MapAccess::new(attributes)))
        } else {
            let attributes = self.take_attributes();
            Ok((None, MapAccess::new(attributes)))
        }
    }

    /// Leaves a map-shaped value: behind the root its end tag and the end
    /// of the document are read.
    pub fn map_end(&mut self, root_tag: Option<String>) -> (r: Result<()>)
        ensures
            match r {
                Ok(_) => map_end(text_view(root_tag), old(self)@) == Ok::<_, ErrorView>(
                    final(self)@,
                ),
                Err(e) => map_end(text_view(root_tag), old(self)@) == Err::<DecoderView, _>(e@),
            },
    {
        match root_tag {
            Some(tag_name) => {
                self.end_tag(tag_name.as_str())?;
                self.end_document()
            },
            None => Ok(()),
        }
    }

    /// Reads the next event.
    pub fn next(&mut self) -> (r: Result<Event>)
        ensures
            final(self)@ == old(self)@.advance(),
            match r {
                Ok(e) => old(self)@.head() == Some(e@),
                Err(err) => old(self)@.head() is None && err@ == ErrorView::Reader,
            },
    {
        match self.lookahead.take() {
            Some(e) => {
                assert(self@.stream =~= tail(old(self)@.stream));
                Ok(e)
            },
            None => self.do_next(),
        }
    }
}

/// Decodes the value of the shape `shape` that `source` yields.
pub fn from_source(source: EventSource, shape: &Shape) -> (r: Result<Value>)
    ensures
        match r {
            Ok(v) => decode_document(*shape, source.pending()) == Ok::<_, ErrorView>(v@),
            Err(e) => decode_document(*shape, source.pending()) == Err::<ValueView, _>(e@),
        },
{
    let mut de = Deserializer::new(source)?;
    de.deserialize(shape)
}

/// Decodes the value of the shape `shape` from the document that `reader`
/// holds.
pub fn from_reader(reader: &[u8], shape: &Shape) -> (r: Result<Value>)
    ensures
        match r {
            Ok(v) => decode_document(*shape, document_events(reader@)) == Ok::<_, ErrorView>(v@),
            Err(e) => decode_document(*shape, document_events(reader@)) == Err::<ValueView, _>(
                e@,
            ),
        },
{
    let mut de = Deserializer::new_from_reader(reader)?;
    de.deserialize(shape)
}

/// Decodes the value of the shape `shape` from the document that `s`
/// holds.
pub fn from_str(s: &str, shape: &Shape) -> (r: Result<Value>)
    ensures
        match r {
            Ok(v) => decode_document(*shape, document_events(vstd::utf8::encode_utf8(s@))) == Ok::<
                _,
                ErrorView,
            >(v@),
            Err(e) => decode_document(*shape, document_events(vstd::utf8::encode_utf8(s@))) == Err::<
                ValueView,
                _,
            >(e@),
        },
{
    from_reader(s.as_bytes(), shape)
}

} // verus!
