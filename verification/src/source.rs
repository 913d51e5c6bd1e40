//! Where markup events come from.

use vstd::prelude::*;
use crate::event::{Attribute, Event, EventView, events_view};
use xml::reader::XmlEvent;
use crate::error::{Error, ErrorView, reader};
use crate::list::reversed;

verus! {

/// What a source has yet to yield: its events in order, `None` standing
/// for the place where the source fails. A failure stays; a stream that
/// has run out yields the end of the document for ever.
pub type Stream = Seq<Option<EventView>>;

/// What the next pull of a stream yields, `None` for a failure.
pub open spec fn head(s: Stream) -> Option<EventView> {
    if s.len() == 0 {
        Some(EventView::EndDocument)
    } else {
        s[0]
    }
}

/// What is left of a stream after a pull.
pub open spec fn tail(s: Stream) -> Stream {
    if s.len() == 0 || s[0] is None {
        s
    } else {
        s.skip(1)
    }
}

/// What a reader sees of a stream: nothing of the events that no reader
/// needs to see, nothing of the ends of document that close it, and
/// nothing behind its first failure.
pub open spec fn settle(s: Stream) -> Stream
    decreases s.len(),
{
    if s.len() == 0 {
        s
    } else {
        match s[0] {
            None => seq![None],
            Some(e) => {
                let rest = settle(s.skip(1));
                if e.ignorable() || (e is EndDocument && rest.len() == 0) {
                    rest
                } else {
                    seq![Some(e)] + rest
                }
            },
        }
    }
}

/// Pulling from a stream until an event shows that a reader needs to see
/// is pulling once from the settled stream.
pub proof fn lemma_settle_pull(s: Stream)
    ensures
        match head(s) {
            None => head(settle(s)) is None && tail(settle(s)) == settle(tail(s)),
            Some(e) => if e.ignorable() {
                settle(s) == settle(tail(s)) && tail(s).len() < s.len()
            } else {
                head(settle(s)) == Some(e) && tail(settle(s)) == settle(tail(s))
            },
        },
{
}

/// A settled stream does not end with the end of the document.
pub proof fn lemma_settle_open_end(s: Stream)
    ensures
        settle(s).len() > 0 ==> settle(s).last() != Some(EventView::EndDocument),
    decreases s.len(),
{
    if s.len() > 0 {
        lemma_settle_open_end(s.skip(1));
    }
}

/// The stream that yields the given events and then ends.
pub open spec fn replayed(events: Seq<EventView>) -> Stream {
    events.map_values(|e: EventView| Some(e))
}

/// `xml::EventReader` over the bytes of a document held in memory: a
/// pull parser. What it holds is known only by the events that it has yet
/// to yield.
#[verifier::external_body]
pub struct Parser {
    inner: xml::EventReader<std::io::Cursor<Vec<u8>>>,
}

/// What a parser has yet to yield.
pub uninterp spec fn parser_pending(parser: Parser) -> Seq<Option<EventView>>;

/// The events of the document that the bytes hold, as a parser reads them
/// that trims white space, folds literal sections and white space into
/// character data, joins adjacent character data and drops comments.
pub uninterp spec fn document_events(bytes: Seq<u8>) -> Seq<Option<EventView>>;

/// `xml::EventReader::new_with_config` over a copy of `bytes`, with a
/// configuration that trims white space, folds literal sections and white
/// space into character data, joins adjacent character data and drops
/// comments. A parser is a function of its input: what it will yield is
/// named `document_events(bytes)`.
#[verifier::external_body]
fn parser_open(bytes: &[u8]) -> (parser: Parser)
    ensures
        parser_pending(parser) == document_events(bytes@),
{
    let config = xml::reader::ParserConfig::new()
        .trim_whitespace(true)
        .whitespace_to_characters(true)
        .cdata_to_characters(true)
        .ignore_comments(true)
        .coalesce_characters(true);
    let bytes = std::io::Cursor::new(bytes.to_vec());
    Parser { inner: xml::EventReader::new_with_config(bytes, config) }
}

/// `xml::EventReader::next`: the parser yields the head of what it had
/// pending and keeps the tail. Once it has failed or reached the end of
/// the document it yields the same again. Names are handed out as
/// qualified texts, which `xml::name::Name::to_repr` makes; the
/// namespaces in scope are not handed out.
#[verifier::external_body]
fn parser_next(parser: &mut Parser) -> (r: std::result::Result<Event, xml::reader::Error>)
    ensures
        match r {
            Ok(e) => head(parser_pending(*old(parser))) == Some(e@),
            Err(_) => head(parser_pending(*old(parser))) is None,
        },
        parser_pending(*final(parser)) == tail(parser_pending(*old(parser))),
{
    Ok(match parser.inner.next()? {
        XmlEvent::StartDocument { .. } => Event::StartDocument,
        XmlEvent::EndDocument => Event::EndDocument,
        XmlEvent::ProcessingInstruction { .. } => Event::ProcessingInstruction,
        XmlEvent::Comment(_) => Event::Comment,
        XmlEvent::StartElement { name, attributes, .. } => Event::StartElement {
            name: name.borrow().to_repr(),
            attributes: attributes.into_iter().map(|a| Attribute { name: a.name.borrow().to_repr(), value: a.value }).collect(),
            namespaces: Vec::new(),
        },
        XmlEvent::EndElement { name } => Event::EndElement { name: name.borrow().to_repr() },
        XmlEvent::Characters(s) => Event::Characters(s),
        XmlEvent::CData(_) => Event::CData,
        XmlEvent::Whitespace(_) => Event::Whitespace,
    })
}

enum Feed {
    Parser(Parser),
    Replay(Vec<Event>),
}

/// A source of markup events: a parser over the text of a document, or a
/// list of events held in memory.
pub struct EventSource {
    feed: Feed,
}

impl EventSource {
    /// What the source has yet to yield.
    pub closed spec fn pending(&self) -> Stream {
        match self.feed {
            Feed::Parser(parser) => parser_pending(parser),
            Feed::Replay(rest) => replayed(events_view(rest@).reverse()),
        }
    }

    /// A source that parses the document that `bytes` hold.
    pub fn parse(bytes: &[u8]) -> (source: Self)
        ensures
            source.pending() == document_events(bytes@),
    {
        EventSource { feed: Feed::Parser(parser_open(bytes)) }
    }

    /// A source that yields `events` in order and then ends.
    pub fn replay(events: Vec<Event>) -> (source: Self)
        ensures
            source.pending() == replayed(events_view(events@)),
    {
        let rest = reversed(events);
        EventSource { feed: Feed::Replay(rest) }
    }

    /// Pulls the next event.
    pub fn next(&mut self) -> (r: std::result::Result<Event, Error>)
        ensures
            match r {
                Ok(e) => head(old(self).pending()) == Some(e@),
                Err(err) => head(old(self).pending()) is None && err@ == ErrorView::Reader,
            },
            final(self).pending() == tail(old(self).pending()),
    {
        match &mut self.feed {
            Feed::Parser(parser) => match parser_next(parser) {
                Ok(e) => Ok(e),
                Err(err) => Err(reader(err)),
            },
            Feed::Replay(rest) => match rest.pop() {
                Some(e) => {
                    Ok(e)
                },
                None => Ok(Event::EndDocument),
            },
        }
    }
}

} // verus!
