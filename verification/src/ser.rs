//! The writer side: an event sink behind a write-behind tag, so that
//! attributes can still join a tag after it was opened, and the dispatch
//! that encodes a value.

pub mod dispatch;
pub mod map;
pub mod plain;
pub mod semantics;
pub mod seq;
pub mod tuple;

use vstd::prelude::*;
use vstd::utf8::{decode_utf8, valid_utf8};
use crate::error::{ErrorView, Outcome, Result, from_utf8, message};
use crate::event::{Attribute, AttributeView, Event, EventView, attributes_view, events_view};
use crate::ser::semantics::encode;
use crate::sink::{EventSink, Output, SinkView, document_bytes, memory_refusal};
use crate::value::{Value, ValueView};

verus! {

/// The encoder: an event sink, and the tag that was opened last and not
/// yet written.
pub struct Serializer {
    writer: EventSink,
    root: bool,
    default_ns: Option<String>,
    namespaces: Vec<Attribute>,
    current_tag: String,
    current_tag_attrs: Option<Vec<Attribute>>,
}

/// The mathematical state of a [`Serializer`].
pub struct EncoderView {
    /// The sink: the events that it has taken, and the elements that are
    /// open.
    pub sink: SinkView,
    /// Whether the root tag is still to be opened.
    pub root: bool,
    /// The default namespace that is still to be declared.
    pub default_ns: Option<Seq<char>>,
    /// The namespaces that are still to be declared, prefix and URI.
    pub namespaces: Seq<AttributeView>,
    /// The name of the tag that was opened last.
    pub tag: Seq<char>,
    /// The attributes of that tag so far, as long as its start tag is not
    /// written.
    pub pending: Option<Seq<AttributeView>>,
}

/// The first attribute from `from` on that has the name `name`.
pub open spec fn attribute_from(attributes: Seq<AttributeView>, name: Seq<char>, from: int)
    -> Option<int>
    decreases attributes.len() - from,
{
    if from < 0 || from >= attributes.len() {
        None
    } else if attributes[from].name == name {
        Some(from)
    } else {
        attribute_from(attributes, name, from + 1)
    }
}

/// The attributes with `name` set to `value`: in the place that `name`
/// has already, or else at the end.
pub open spec fn with_attribute(attributes: Seq<AttributeView>, name: Seq<char>, value: Seq<char>)
    -> Seq<AttributeView> {
    match attribute_from(attributes, name, 0) {
        Some(i) => attributes.update(i, AttributeView { name, value }),
        None => attributes.push(AttributeView { name, value }),
    }
}

impl EncoderView {
    /// The state of a new encoder in front of a sink.
    pub open spec fn begin(
        sink: SinkView,
        default_ns: Option<Seq<char>>,
        namespaces: Seq<AttributeView>,
    ) -> EncoderView {
        EncoderView {
            sink,
            root: true,
            default_ns,
            namespaces,
            tag: Seq::empty(),
            pending: None,
        }
    }

    /// The namespaces that the next start tag declares: the default
    /// namespace under the empty prefix, then the others.
    pub open spec fn declared(self) -> Seq<AttributeView> {
        match self.default_ns {
            Some(uri) => seq![AttributeView { name: Seq::empty(), value: uri }] + self.namespaces,
            None => self.namespaces,
        }
    }

    /// The start of the document is written, which the sink takes only
    /// before anything else.
    pub open spec fn start_document(self) -> Outcome<EncoderView> {
        match self.sink.start_document() {
            Ok(sink) => Ok(EncoderView { sink, ..self }),
            Err(x) => Err(x),
        }
    }

    /// A start tag is written; it declares the namespaces that are still
    /// to be declared, and its element is open from now on.
    pub open spec fn start_tag(self, name: Seq<char>, attributes: Seq<AttributeView>)
        -> EncoderView {
        EncoderView {
            sink: self.sink.start_element(name, attributes, self.declared()),
            default_ns: None,
            namespaces: Seq::empty(),
            ..self
        }
    }

    /// The end tag of the innermost open element is written, which the
    /// sink refuses where no element is open.
    pub open spec fn end_tag(self) -> Outcome<EncoderView> {
        match self.sink.end_element() {
            Ok(sink) => Ok(EncoderView { sink, ..self }),
            Err(x) => Err(x),
        }
    }

    /// The end tag of the innermost open element is written if it is
    /// owed.
    pub open spec fn close(self, owed: bool) -> Outcome<EncoderView> {
        if owed {
            self.end_tag()
        } else {
            Ok(self)
        }
    }

    /// Character data is written.
    pub open spec fn characters(self, text: Seq<char>) -> EncoderView {
        EncoderView { sink: self.sink.characters(text), ..self }
    }

    /// A tag is opened: nothing is written yet, and attributes can join
    /// it.
    pub open spec fn open_tag(self, name: Seq<char>) -> EncoderView {
        EncoderView { tag: name, pending: Some(Seq::empty()), ..self }
    }

    /// The tag that was opened last is opened once more, without
    /// attributes.
    pub open spec fn reopen_tag(self) -> EncoderView {
        EncoderView { pending: Some(Seq::empty()), ..self }
    }

    /// The tag that was opened last is given up.
    pub open spec fn abandon_tag(self) -> EncoderView {
        EncoderView { tag: Seq::empty(), pending: None, ..self }
    }

    /// The first time, the document starts and the root tag is opened.
    pub open spec fn open_root_tag(self, name: Seq<char>) -> Outcome<EncoderView> {
        if self.root {
            match (EncoderView { root: false, ..self }).start_document() {
                Ok(e) => Ok(e.open_tag(name)),
                Err(x) => Err(x),
            }
        } else {
            Ok(self)
        }
    }

    /// An attribute joins the tag that was opened last, which must not be
    /// written yet.
    pub open spec fn add_attr(self, name: Seq<char>, value: Seq<char>) -> Outcome<EncoderView> {
        match self.pending {
            None => Err(ErrorView::Message("cannot add attribute outside an open tag"@)),
            Some(attributes) => Ok(
                EncoderView { pending: Some(with_attribute(attributes, name, value)), ..self },
            ),
        }
    }

    /// The start tag of the tag that was opened last is written with the
    /// attributes that joined it, unless it is written already. The truth
    /// value says whether it was written now, and so whether an end tag is
    /// owed.
    pub open spec fn build_start_tag(self) -> (bool, EncoderView) {
        match self.pending {
            Some(attributes) => (
                true,
                (EncoderView { pending: None, ..self }).start_tag(self.tag, attributes),
            ),
            None => (false, self),
        }
    }
}

/// Writing the start tag that is due twice is writing it once: the second
/// time nothing is written, and no end tag is owed for it.
pub proof fn lemma_flush_once(e: EncoderView)
    ensures
        e.build_start_tag().1.build_start_tag() == (false, e.build_start_tag().1),
{
}

/// The value of an optional URI.
pub open spec fn uri_view(uri: Option<&str>) -> Option<Seq<char>> {
    match uri {
        Some(u) => Some(u@),
        None => None,
    }
}

/// The namespaces that pairs of prefix and URI stand for.
pub open spec fn namespaces_view(pairs: Seq<(&str, &str)>) -> Seq<AttributeView> {
    Seq::new(pairs.len(), |i: int| AttributeView { name: pairs[i].0@, value: pairs[i].1@ })
}

impl View for Serializer {
    type V = EncoderView;

    closed spec fn view(&self) -> EncoderView {
        EncoderView {
            sink: self.writer@,
            root: self.root,
            default_ns: match self.default_ns {
                Some(uri) => Some(uri@),
                None => None,
            },
            namespaces: attributes_view(self.namespaces@),
            tag: self.current_tag@,
            pending: match self.current_tag_attrs {
                Some(attributes) => Some(attributes_view(attributes@)),
                None => None,
            },
        }
    }
}

/// The first attribute that has the name `name`.
fn find_attribute(attributes: &Vec<Attribute>, name: &str) -> (r: Option<usize>)
    ensures
        match r {
            Some(i) => attribute_from(attributes_view(attributes@), name@, 0) == Some(i as int)
                && i < attributes@.len(),
            None => attribute_from(attributes_view(attributes@), name@, 0) is None,
        },
{
    let wanted = String::from_str(name);
    let mut i: usize = 0;
    while i < attributes.len()
        invariant
            i <= attributes.len(),
            wanted@ == name@,
            attribute_from(attributes_view(attributes@), name@, i as int) == attribute_from(
                attributes_view(attributes@),
                name@,
                0,
            ),
        decreases attributes.len() - i,
    {
        if attributes[i].name == wanted {
            return Some(i);
        }
        i = i + 1;
    }
    None
}

impl Serializer {
    /// An encoder in front of `writer`. The default namespace and the
    /// namespaces, prefix and URI each, are declared at the first start tag
    /// that is written.
    pub fn new(writer: EventSink, default_ns: Option<&str>, namespaces: &[(&str, &str)]) -> (r:
        Self)
        ensures
            r@ == EncoderView::begin(writer@, uri_view(default_ns), namespaces_view(namespaces@)),
    {
        let mut declared: Vec<Attribute> = Vec::new();
        let mut i: usize = 0;
        while i < namespaces.len()
            invariant
                i <= namespaces@.len(),
                declared@.len() == i,
                forall|j: int|
                    0 <= j < i ==> declared@[j]@ == (AttributeView {
                        name: (#[trigger] namespaces@[j]).0@,
                        value: namespaces@[j].1@,
                    }),
            decreases namespaces.len() - i,
        {
            let (prefix, uri) = namespaces[i];
            declared.push(Attribute { name: String::from_str(prefix), value: String::from_str(uri) });
            i = i + 1;
        }
        assert(attributes_view(declared@) =~= namespaces_view(namespaces@));
        Serializer {
            writer,
            root: true,
            default_ns: match default_ns {
                Some(uri) => Some(String::from_str(uri)),
                None => None,
            },
            namespaces: declared,
            current_tag: String::new(),
            current_tag_attrs: None,
        }
    }

    /// Gives the sink back.
    pub fn into_writer(self) -> (writer: EventSink)
        ensures
            writer@ == self@.sink,
    {
        self.writer
    }

    /// Writes character data.
    pub fn characters(&mut self, s: &str) -> (r: Result<()>)
        ensures
            r is Ok,
            final(self)@ == old(self)@.characters(s@),
    {
        self.writer.characters(s)
    }

    /// Writes the start of the document, which the sink takes only before
    /// anything else.
    pub fn start_document(&mut self) -> (r: Result<()>)
        ensures
            match r {
                Ok(_) => old(self)@.start_document() == Ok::<_, ErrorView>(final(self)@),
                Err(e) => old(self)@.start_document() == Err::<EncoderView, _>(e@) && final(self)@
                    == old(self)@,
            },
    {
        self.writer.start_document()
    }

    /// The first time, starts the document and opens the root tag.
    pub fn open_root_tag(&mut self, name: &str) -> (r: Result<()>)
        ensures
            match r {
                Ok(_) => old(self)@.open_root_tag(name@) == Ok::<_, ErrorView>(final(self)@),
                Err(e) => old(self)@.open_root_tag(name@) == Err::<EncoderView, _>(e@)
                    && final(self)@ == (EncoderView { root: false, ..old(self)@ }),
            },
    {
        if self.root {
            self.root = false;
            self.start_document()?;
            self.open_tag(name)?;
        }
        Ok(())
    }

    /// Opens a tag: nothing is written yet, and attributes can join it.
    pub fn open_tag(&mut self, tag_name: &str) -> (r: Result<()>)
        ensures
            r is Ok,
            final(self)@ == old(self)@.open_tag(tag_name@),
    {
        self.current_tag = String::from_str(tag_name);
        let attributes: Vec<Attribute> = Vec::new();
        assert(attributes_view(attributes@) =~= Seq::empty());
        self.current_tag_attrs = Some(attributes);
        Ok(())
    }

    /// Opens the tag that was opened last once more, without attributes.
    pub fn reopen_tag(&mut self) -> (r: Result<()>)
        ensures
            r is Ok,
            final(self)@ == old(self)@.reopen_tag(),
    {
        let attributes: Vec<Attribute> = Vec::new();
        assert(attributes_view(attributes@) =~= Seq::empty());
        self.current_tag_attrs = Some(attributes);
        Ok(())
    }

    /// Gives up the tag that was opened last.
    pub fn abandon_tag(&mut self) -> (r: Result<()>)
        ensures
            r is Ok,
            final(self)@ == old(self)@.abandon_tag(),
    {
        self.current_tag = String::new();
        self.current_tag_attrs = None;
        Ok(())
    }

    /// Lets an attribute join the tag that was opened last, which must
    /// not be written yet.
    pub fn add_attr(&mut self, name: &str, value: String) -> (r: Result<()>)
        ensures
            match r {
                Ok(_) => old(self)@.add_attr(name@, value@) == Ok::<_, ErrorView>(final(self)@),
                Err(e) => old(self)@.add_attr(name@, value@) == Err::<EncoderView, _>(e@)
                    && final(self)@ == old(self)@,
            },
    {
        match self.current_tag_attrs.take() {
            None => Err(message("cannot add attribute outside an open tag")),
            Some(attributes) => {
                let mut attributes = attributes;
                let ghost before = attributes_view(attributes@);
                let attribute = Attribute { name: String::from_str(name), value };
                match find_attribute(&attributes, name) {
                    Some(i) => {
                        attributes[i] = attribute;
                        assert(attributes_view(attributes@) =~= before.update(
                            i as int,
                            attribute@,
                        ));
                    },
                    None => {
                        attributes.push(attribute);
                        assert(attributes_view(attributes@) =~= before.push(attribute@));
                    },
                }
                self.current_tag_attrs = Some(attributes);
                Ok(())
            },
        }
    }

    /// Writes the start tag of the tag that was opened last with the
    /// attributes that joined it, unless it is written already: then
    /// nothing happens. The result says whether it was written now, and so
    /// whether an end tag is owed.
    pub fn build_start_tag(&mut self) -> (r: Result<bool>)
        ensures
            r matches Ok(opened) && old(self)@.build_start_tag() == (opened, final(self)@),
    {
        match self.current_tag_attrs.take() {
            Some(attributes) => {
                let name = self.current_tag();
                self.start_tag(name.as_str(), attributes)?;
                Ok(true)
            },
            None => Ok(false),
        }
    }

    /// Writes a start tag. It declares the namespaces that are still to
    /// be declared.
    pub fn start_tag(&mut self, tag_name: &str, attrs: Vec<Attribute>) -> (r: Result<()>)
        ensures
            r is Ok,
            final(self)@ == old(self)@.start_tag(tag_name@, attributes_view(attrs@)),
    {
        let mut declared: Vec<Attribute> = Vec::new();
        assert(attributes_view(declared@) =~= Seq::empty());
        match self.default_ns.take() {
            Some(uri) => {
                declared.push(Attribute { name: String::new(), value: uri });
                assert(attributes_view(declared@) =~= seq![
                    AttributeView { name: Seq::empty(), value: uri@ },
                ]);
            },
            None => {},
        }
        let ghost first = attributes_view(declared@);
        let ghost others = attributes_view(self.namespaces@);
        declared.append(&mut self.namespaces);
        assert(attributes_view(declared@) =~= first + others);
        assert(attributes_view(self.namespaces@) =~= Seq::empty());
        self.writer.start_element(tag_name, attrs, declared)
    }

    /// Writes the end tag of the innermost open element.
    pub fn end_tag(&mut self) -> (r: Result<()>)
        ensures
            match r {
                Ok(_) => old(self)@.end_tag() == Ok::<_, ErrorView>(final(self)@),
                Err(e) => old(self)@.end_tag() == Err::<EncoderView, _>(e@) && final(self)@
                    == old(self)@,
            },
    {
        self.writer.end_element()
    }

    /// Writes the end tag of the innermost open element if it is owed.
    pub fn close(&mut self, owed: bool) -> (r: Result<()>)
        ensures
            match r {
                Ok(_) => old(self)@.close(owed) == Ok::<_, ErrorView>(final(self)@),
                Err(e) => old(self)@.close(owed) == Err::<EncoderView, _>(e@) && final(self)@
                    == old(self)@,
            },
    {
        if owed {
            self.end_tag()
        } else {
            Ok(())
        }
    }

    /// The name of the tag that was opened last.
    pub fn current_tag(&self) -> (name: String)
        ensures
            name@ == self@.tag,
    {
        self.current_tag.clone()
    }

    /// Whether a tag is open whose start tag is not yet written.
    pub fn has_pending_tag(&self) -> (r: bool)
        ensures
            r == self@.pending is Some,
    {
        self.current_tag_attrs.is_some()
    }
}

/// `String::from_utf8`: the text that the bytes encode, where they are
/// UTF-8.
#[verifier::external_body]
fn std_from_utf8(bytes: Vec<u8>) -> (r: std::result::Result<String, std::string::FromUtf8Error>)
    ensures
        match r {
            Ok(s) => valid_utf8(bytes@) && s@ == decode_utf8(bytes@),
            Err(_) => !valid_utf8(bytes@),
        },
{
    String::from_utf8(bytes)
}

/// The text that bytes encode.
pub open spec fn text_of(bytes: Seq<u8>) -> Outcome<Seq<char>> {
    if valid_utf8(bytes) {
        Ok(decode_utf8(bytes))
    } else {
        Err(ErrorView::FromUtf8)
    }
}

/// What encoding a value makes of a sink, for a new encoder in front of
/// it.
pub open spec fn encode_into(
    v: ValueView,
    sink: SinkView,
    default_ns: Option<Seq<char>>,
    namespaces: Seq<AttributeView>,
) -> Outcome<SinkView> {
    match encode(v, EncoderView::begin(sink, default_ns, namespaces)) {
        Ok(e) => Ok(e.sink),
        Err(x) => Err(x),
    }
}

/// The events that a value makes.
pub open spec fn encode_events(v: ValueView) -> Outcome<Seq<EventView>> {
    match encode_into(v, SinkView::fresh(memory_refusal()), None, Seq::empty()) {
        Ok(sink) => Ok(sink.written),
        Err(x) => Err(x),
    }
}

/// The text of the document that a value makes.
pub open spec fn encode_document(
    v: ValueView,
    default_ns: Option<Seq<char>>,
    namespaces: Seq<AttributeView>,
) -> Outcome<Seq<char>> {
    match encode_into(v, SinkView::fresh(ErrorView::Writer), default_ns, namespaces) {
        Ok(sink) => text_of(document_bytes(sink.written)),
        Err(x) => Err(x),
    }
}

/// A value whose text can be made is written to a new document without an
/// error, and the bytes of that document are the bytes of the text.
pub proof fn lemma_document_written(
    v: ValueView,
    default_ns: Option<Seq<char>>,
    namespaces: Seq<AttributeView>,
    text: Seq<char>,
)
    requires
        encode_document(v, default_ns, namespaces) == Ok::<_, ErrorView>(text),
    ensures
        encode_into(v, SinkView::fresh(ErrorView::Writer), default_ns, namespaces) matches Ok(sink)
            && document_bytes(sink.written) == vstd::utf8::encode_utf8(text),
{
    let sink = encode_into(v, SinkView::fresh(ErrorView::Writer), default_ns, namespaces)->Ok_0;
    vstd::utf8::decode_utf8_encode_utf8(document_bytes(sink.written));
}

/// An encoding that fails on a new document fails with the same error
/// where its text is asked for.
pub proof fn lemma_document_refused(
    v: ValueView,
    default_ns: Option<Seq<char>>,
    namespaces: Seq<AttributeView>,
    e: ErrorView,
)
    requires
        encode_into(v, SinkView::fresh(ErrorView::Writer), default_ns, namespaces) == Err::<
            SinkView,
            _,
        >(e),
    ensures
        encode_document(v, default_ns, namespaces) == Err::<Seq<char>, _>(e),
{
}

/// Encodes `value` into the text of a document. It is the first error of
/// the encoding that comes back, and no text with it.
pub fn to_string(value: &Value) -> (r: Result<String>)
    ensures
        match r {
            Ok(s) => encode_document(value@, None, Seq::empty()) == Ok::<_, ErrorView>(s@),
            Err(e) => encode_document(value@, None, Seq::empty()) == Err::<Seq<char>, _>(e@),
        },
{
    let none: [(&str, &str); 0] = [];
    assert(namespaces_view(none@) =~= Seq::empty());
    to_string_ns(value, None, none.as_slice())
}

/// Encodes `value` into the text of a document whose root declares the
/// default namespace and the namespaces, prefix and URI each.
pub fn to_string_ns(value: &Value, default_ns: Option<&str>, namespaces: &[(&str, &str)]) -> (r:
    Result<String>)
    ensures
        match r {
            Ok(s) => encode_document(value@, uri_view(default_ns), namespaces_view(namespaces@))
                == Ok::<_, ErrorView>(s@),
            Err(e) => encode_document(value@, uri_view(default_ns), namespaces_view(namespaces@))
                == Err::<Seq<char>, _>(e@),
        },
{
    let mut writer = EventSink::document();
    to_writer_ns(&mut writer, value, default_ns, namespaces)?;
    match writer.finish() {
        Output::Document(bytes) => match std_from_utf8(bytes) {
            Ok(s) => Ok(s),
            Err(e) => Err(from_utf8(e)),
        },
        Output::Events(_) => vstd::pervasive::unreached(),
    }
}

/// Encodes `value` into `writer`. What the sink took before an error
/// stays with it.
pub fn to_writer(writer: &mut EventSink, value: &Value) -> (r: Result<()>)
    ensures
        match r {
            Ok(_) => encode_into(value@, old(writer)@, None, Seq::empty()) == Ok::<_, ErrorView>(
                final(writer)@,
            ),
            Err(e) => encode_into(value@, old(writer)@, None, Seq::empty()) == Err::<SinkView, _>(
                e@,
            ),
        },
        old(writer)@.leads_to(final(writer)@),
{
    let none: [(&str, &str); 0] = [];
    assert(namespaces_view(none@) =~= Seq::empty());
    to_writer_ns(writer, value, None, none.as_slice())
}

/// Encodes `value` into `writer`; the first start tag declares the
/// default namespace and the namespaces, prefix and URI each. What the
/// sink took before an error stays with it.
pub fn to_writer_ns(
    writer: &mut EventSink,
    value: &Value,
    default_ns: Option<&str>,
    namespaces: &[(&str, &str)],
) -> (r: Result<()>)
    ensures
        match r {
            Ok(_) => encode_into(
                value@,
                old(writer)@,
                uri_view(default_ns),
                namespaces_view(namespaces@),
            ) == Ok::<_, ErrorView>(final(writer)@),
            Err(e) => encode_into(
                value@,
                old(writer)@,
                uri_view(default_ns),
                namespaces_view(namespaces@),
            ) == Err::<SinkView, _>(e@),
        },
        old(writer)@.leads_to(final(writer)@),
{
    let mut sink = EventSink::memory();
    std::mem::swap(writer, &mut sink);
    let mut ser = Serializer::new(sink, default_ns, namespaces);
    let r = ser.serialize(value);
    *writer = ser.into_writer();
    r
}

/// Encodes `value` into a list of events.
pub fn to_events(value: &Value) -> (r: Result<Vec<Event>>)
    ensures
        match r {
            Ok(events) => encode_events(value@) == Ok::<_, ErrorView>(events_view(events@)),
            Err(e) => encode_events(value@) == Err::<Seq<EventView>, _>(e@),
        },
{
    let mut writer = EventSink::memory();
    to_writer(&mut writer, value)?;
    match writer.finish() {
        Output::Events(events) => Ok(events),
        Output::Document(_) => vstd::pervasive::unreached(),
    }
}

} // verus!
