//! Where markup events go to.

use vstd::prelude::*;
use crate::error::{ErrorView, Outcome, Result, message, writer};
use crate::event::{Attribute, AttributeView, Event, EventView, attributes_view, events_view};
use crate::text::texts_view;

verus! {

/// `xml::EventWriter`: an emitter of a document. What it holds is known
/// only by the names below.
#[verifier::external_type_specification]
#[verifier::external_body]
#[verifier::reject_recursive_types(W)]
pub struct ExEventWriter<W>(xml::EventWriter<W>);

/// The events that an emitter has taken so far.
pub uninterp spec fn emitter_written(emitter: xml::EventWriter<Vec<u8>>) -> Seq<EventView>;

/// The names of the elements that an emitter has open, the innermost
/// last.
pub uninterp spec fn emitter_names(emitter: xml::EventWriter<Vec<u8>>) -> Seq<Seq<char>>;

/// Whether the document of an emitter has started.
pub uninterp spec fn emitter_started(emitter: xml::EventWriter<Vec<u8>>) -> bool;

/// The bytes of the indented document that a list of events makes.
pub uninterp spec fn document_bytes(events: Seq<EventView>) -> Seq<u8>;

/// `xml::writer::EmitterConfig::create_writer` over an empty buffer, with
/// indentation switched on. The new emitter has taken nothing, has no
/// element open, and its document has not started.
#[verifier::external_body]
fn emitter_open() -> (emitter: xml::EventWriter<Vec<u8>>)
    ensures
        emitter_written(emitter) == Seq::<EventView>::empty(),
        emitter_names(emitter) == Seq::<Seq<char>>::empty(),
        !emitter_started(emitter),
{
    let config = xml::EmitterConfig::new().perform_indent(true);
    config.create_writer(Vec::with_capacity(128))
}

/// `xml::writer::EventWriter::write` of a document declaration for
/// version 1.0. The emitter refuses it exactly where its document has
/// started, and is then as it was; else it takes the event and the
/// document has started.
#[verifier::external_body]
fn emitter_start_document(emitter: &mut xml::EventWriter<Vec<u8>>) -> (r: std::result::Result<
    (),
    xml::writer::Error,
>)
    ensures
        r is Err <==> emitter_started(*old(emitter)),
        emitter_written(*final(emitter)) == (if r is Ok {
            emitter_written(*old(emitter)).push(EventView::StartDocument)
        } else {
            emitter_written(*old(emitter))
        }),
        emitter_names(*final(emitter)) == emitter_names(*old(emitter)),
        emitter_started(*final(emitter)),
{
    emitter.write(
        xml::writer::XmlEvent::StartDocument {
            version: xml::common::XmlVersion::Version10,
            encoding: None,
            standalone: None,
        },
    )
}

/// `xml::writer::EventWriter::write` of a start tag that
/// `xml::writer::XmlEvent::start_element` builds, with the attributes in
/// order and the namespaces declared. An emitter into memory takes it
/// always: the element is open from now on, and the document has started.
#[verifier::external_body]
fn emitter_start_element(
    emitter: &mut xml::EventWriter<Vec<u8>>,
    name: &String,
    attributes: &Vec<Attribute>,
    namespaces: &Vec<Attribute>,
) -> (r: std::result::Result<(), xml::writer::Error>)
    ensures
        r is Ok,
        emitter_written(*final(emitter)) == emitter_written(*old(emitter)).push(
            EventView::StartElement {
                name: name@,
                attributes: attributes_view(attributes@),
                namespaces: attributes_view(namespaces@),
            },
        ),
        emitter_names(*final(emitter)) == emitter_names(*old(emitter)).push(name@),
        emitter_started(*final(emitter)),
{
    let mut element = xml::writer::XmlEvent::start_element(name.as_str());
    for a in attributes {
        element = element.attr(a.name.as_str(), a.value.as_str());
    }
    for n in namespaces {
        element = element.ns(n.name.as_str(), n.value.as_str());
    }
    emitter.write(element)
}

/// `xml::writer::EventWriter::write` of an end tag without a name, which
/// `xml::writer::XmlEvent::end_element` builds. The emitter refuses it
/// exactly where no element is open, and is then as it was; else it closes
/// the innermost open element under the name of that element.
#[verifier::external_body]
fn emitter_end_element(emitter: &mut xml::EventWriter<Vec<u8>>) -> (r: std::result::Result<
    (),
    xml::writer::Error,
>)
    ensures
        r is Err <==> emitter_names(*old(emitter)).len() == 0,
        emitter_written(*final(emitter)) == (if r is Ok {
            emitter_written(*old(emitter)).push(
                EventView::EndElement { name: emitter_names(*old(emitter)).last() },
            )
        } else {
            emitter_written(*old(emitter))
        }),
        emitter_names(*final(emitter)) == (if r is Ok {
            emitter_names(*old(emitter)).drop_last()
        } else {
            emitter_names(*old(emitter))
        }),
        emitter_started(*final(emitter)) == emitter_started(*old(emitter)),
{
    emitter.write(xml::writer::XmlEvent::end_element())
}

/// `xml::writer::EventWriter::write` of character data. An emitter into
/// memory takes it always, and the document has started.
#[verifier::external_body]
fn emitter_characters(emitter: &mut xml::EventWriter<Vec<u8>>, text: &str) -> (r:
    std::result::Result<(), xml::writer::Error>)
    ensures
        r is Ok,
        emitter_written(*final(emitter)) == emitter_written(*old(emitter)).push(
            EventView::Characters(text@),
        ),
        emitter_names(*final(emitter)) == emitter_names(*old(emitter)),
        emitter_started(*final(emitter)),
{
    emitter.write(xml::writer::XmlEvent::characters(text))
}

/// `xml::writer::EventWriter::into_inner`: the document so far. An
/// emitter is a function of what it has taken: the bytes are named
/// `document_bytes` of those events.
#[verifier::external_body]
fn emitter_finish(emitter: xml::EventWriter<Vec<u8>>) -> (bytes: Vec<u8>)
    ensures
        bytes@ == document_bytes(emitter_written(emitter)),
{
    emitter.into_inner()
}

enum Target {
    Emitter(xml::EventWriter<Vec<u8>>),
    Memory { events: Vec<Event>, open: Vec<String>, started: bool },
}

/// A sink of markup events: an emitter of a document, or a list of
/// events in memory. Both take the same events and refuse the same.
pub struct EventSink {
    target: Target,
}

/// The mathematical state of an [`EventSink`].
pub struct SinkView {
    /// The events that the sink has taken.
    pub written: Seq<EventView>,
    /// The names of the elements that are open, the innermost last.
    pub open: Seq<Seq<char>>,
    /// Whether the document has started: whether the sink has taken
    /// anything.
    pub started: bool,
    /// The error with which the sink refuses an event.
    pub refusal: ErrorView,
}

/// The error with which a list of events in memory refuses an event.
pub open spec fn memory_refusal() -> ErrorView {
    ErrorView::Message("the sink refused the event"@)
}

impl SinkView {
    /// A sink that has taken nothing.
    pub open spec fn fresh(refusal: ErrorView) -> SinkView {
        SinkView { written: Seq::empty(), open: Seq::empty(), started: false, refusal }
    }

    /// Whether `later` can come of this sink: a sink keeps what it has
    /// taken, and the error with which it refuses.
    pub open spec fn leads_to(self, later: SinkView) -> bool {
        &&& later.refusal == self.refusal
        &&& self.started ==> later.started
        &&& self.written.len() <= later.written.len()
        &&& forall|i: int|
            0 <= i < self.written.len() ==> #[trigger] later.written[i] == self.written[i]
    }

    /// The start of the document: it is taken before anything else, and
    /// refused afterwards.
    pub open spec fn start_document(self) -> Outcome<SinkView> {
        if self.started {
            Err(self.refusal)
        } else {
            Ok(
                SinkView {
                    written: self.written.push(EventView::StartDocument),
                    started: true,
                    ..self
                },
            )
        }
    }

    /// A start tag: it is taken always, and its element is open from now
    /// on.
    pub open spec fn start_element(
        self,
        name: Seq<char>,
        attributes: Seq<AttributeView>,
        namespaces: Seq<AttributeView>,
    ) -> SinkView {
        SinkView {
            written: self.written.push(EventView::StartElement { name, attributes, namespaces }),
            open: self.open.push(name),
            started: true,
            ..self
        }
    }

    /// The end tag of the innermost open element: it is refused where no
    /// element is open.
    pub open spec fn end_element(self) -> Outcome<SinkView> {
        if self.open.len() == 0 {
            Err(self.refusal)
        } else {
            Ok(
                SinkView {
                    written: self.written.push(EventView::EndElement { name: self.open.last() }),
                    open: self.open.drop_last(),
                    ..self
                },
            )
        }
    }

    /// Character data: it is taken always.
    pub open spec fn characters(self, text: Seq<char>) -> SinkView {
        SinkView {
            written: self.written.push(EventView::Characters(text)),
            started: true,
            ..self
        }
    }
}

/// What a sink has made of the events it took.
pub enum Output {
    /// The bytes of a document.
    Document(Vec<u8>),
    /// The events themselves.
    Events(Vec<Event>),
}

impl View for EventSink {
    type V = SinkView;

    closed spec fn view(&self) -> SinkView {
        match self.target {
            Target::Emitter(emitter) => SinkView {
                written: emitter_written(emitter),
                open: emitter_names(emitter),
                started: emitter_started(emitter),
                refusal: ErrorView::Writer,
            },
            Target::Memory { events, open, started } => SinkView {
                written: events_view(events@),
                open: texts_view(open@),
                started,
                refusal: memory_refusal(),
            },
        }
    }
}

impl EventSink {
    /// A sink that emits an indented document.
    pub fn document() -> (sink: Self)
        ensures
            sink@ == SinkView::fresh(ErrorView::Writer),
    {
        EventSink { target: Target::Emitter(emitter_open()) }
    }

    /// A sink that keeps the events in memory.
    pub fn memory() -> (sink: Self)
        ensures
            sink@ == SinkView::fresh(memory_refusal()),
    {
        let events: Vec<Event> = Vec::new();
        let open: Vec<String> = Vec::new();
        assert(events_view(events@) =~= Seq::empty());
        assert(texts_view(open@) =~= Seq::empty());
        EventSink { target: Target::Memory { events, open, started: false } }
    }

    /// Hands the start of the document to the sink.
    pub fn start_document(&mut self) -> (r: Result<()>)
        ensures
            match r {
                Ok(_) => old(self)@.start_document() == Ok::<_, ErrorView>(final(self)@),
                Err(e) => old(self)@.start_document() == Err::<SinkView, _>(e@) && final(self)@
                    == old(self)@,
            },
    {
        match &mut self.target {
            Target::Emitter(emitter) => match emitter_start_document(emitter) {
                Ok(_) => Ok(()),
                Err(e) => Err(writer(e)),
            },
            Target::Memory { events, open, started } => {
                if *started {
                    Err(message("the sink refused the event"))
                } else {
                    let ghost before = events_view(events@);
                    events.push(Event::StartDocument);
                    *started = true;
                    assert(events_view(events@) =~= before.push(EventView::StartDocument));
                    Ok(())
                }
            },
        }
    }

    /// Hands a start tag to the sink, with its attributes in order and
    /// with the namespaces to declare at it.
    pub fn start_element(
        &mut self,
        name: &str,
        attributes: Vec<Attribute>,
        namespaces: Vec<Attribute>,
    ) -> (r: Result<()>)
        ensures
            r is Ok,
            final(self)@ == old(self)@.start_element(
                name@,
                attributes_view(attributes@),
                attributes_view(namespaces@),
            ),
    {
        let name = String::from_str(name);
        match &mut self.target {
            Target::Emitter(emitter) => match emitter_start_element(
                emitter,
                &name,
                &attributes,
                &namespaces,
            ) {
                Ok(_) => Ok(()),
                Err(e) => Err(writer(e)),
            },
            Target::Memory { events, open, started } => {
                let ghost before = events_view(events@);
                let ghost names = texts_view(open@);
                open.push(name.clone());
                let event = Event::StartElement { name, attributes, namespaces };
                events.push(event);
                *started = true;
                assert(events_view(events@) =~= before.push(event@));
                assert(texts_view(open@) =~= names.push(name@));
                Ok(())
            },
        }
    }

    /// Hands the end tag of the innermost open element to the sink.
    pub fn end_element(&mut self) -> (r: Result<()>)
        ensures
            match r {
                Ok(_) => old(self)@.end_element() == Ok::<_, ErrorView>(final(self)@),
                Err(e) => old(self)@.end_element() == Err::<SinkView, _>(e@) && final(self)@
                    == old(self)@,
            },
    {
        match &mut self.target {
            Target::Emitter(emitter) => match emitter_end_element(emitter) {
                Ok(_) => Ok(()),
                Err(e) => Err(writer(e)),
            },
            Target::Memory { events, open, started } => {
                let ghost before = events_view(events@);
                let ghost names = texts_view(open@);
                match open.pop() {
                    None => Err(message("the sink refused the event")),
                    Some(name) => {
                        let event = Event::EndElement { name };
                        events.push(event);
                        assert(events_view(events@) =~= before.push(event@));
                        assert(texts_view(open@) =~= names.drop_last());
                        assert(names.last() == name@);
                        Ok(())
                    },
                }
            },
        }
    }

    /// Hands character data to the sink.
    pub fn characters(&mut self, text: &str) -> (r: Result<()>)
        ensures
            r is Ok,
            final(self)@ == old(self)@.characters(text@),
    {
        match &mut self.target {
            Target::Emitter(emitter) => match emitter_characters(emitter, text) {
                Ok(_) => Ok(()),
                Err(e) => Err(writer(e)),
            },
            Target::Memory { events, open, started } => {
                let ghost before = events_view(events@);
                let event = Event::Characters(String::from_str(text));
                events.push(event);
                *started = true;
                assert(events_view(events@) =~= before.push(event@));
                Ok(())
            },
        }
    }

    /// What the sink has made of the events it took: a document where it
    /// emits one, and else the events.
    pub fn finish(self) -> (output: Output)
        ensures
            match output {
                Output::Document(bytes) => self@.refusal == ErrorView::Writer && bytes@
                    == document_bytes(self@.written),
                Output::Events(events) => self@.refusal == memory_refusal() && events_view(
                    events@,
                ) == self@.written,
            },
    {
        match self.target {
            Target::Emitter(emitter) => Output::Document(emitter_finish(emitter)),
            Target::Memory { events, open, started } => Output::Events(events),
        }
    }
}

} // verus!
