//! The vocabulary of markup events that both sides of the codec speak.
//!
//! A tag or attribute name is held as its qualified text: the local part,
//! preceded by the prefix and a colon where the name has a prefix. Two names
//! are the same name when their texts are equal, that is, when prefix and
//! local part both agree.

use vstd::prelude::*;

verus! {

/// An attribute of an element: its qualified name and its text.
#[derive(Debug, PartialEq, Eq)]
pub struct Attribute {
    pub name: String,
    pub value: String,
}

/// The mathematical value of an [`Attribute`].
pub struct AttributeView {
    pub name: Seq<char>,
    pub value: Seq<char>,
}

impl View for Attribute {
    type V = AttributeView;

    open spec fn view(&self) -> AttributeView {
        AttributeView { name: self.name@, value: self.value@ }
    }
}

/// The values of a list of attributes, in order.
pub open spec fn attributes_view(attributes: Seq<Attribute>) -> Seq<AttributeView> {
    attributes.map_values(|a: Attribute| a@)
}

/// One atomic step of a markup document.
#[derive(Debug, PartialEq, Eq)]
pub enum Event {
    /// The document begins.
    StartDocument,
    /// The document is over; a source repeats this event for ever.
    EndDocument,
    /// A processing instruction. Its content is of no concern here.
    ProcessingInstruction,
    /// A comment. Its content is of no concern here.
    Comment,
    /// A start tag with its attributes in document order. `namespaces`
    /// are the namespaces to declare at the tag, each a prefix as name and
    /// a URI as value, the empty prefix for the default namespace. A
    /// parser resolves declarations and reports none.
    StartElement { name: String, attributes: Vec<Attribute>, namespaces: Vec<Attribute> },
    /// An end tag.
    EndElement { name: String },
    /// A run of character data.
    Characters(String),
    /// A literal character-data section that was not folded into
    /// character data.
    CData,
    /// White space between tags that was not folded into character data.
    Whitespace,
}

/// The mathematical value of an [`Event`].
pub enum EventView {
    StartDocument,
    EndDocument,
    ProcessingInstruction,
    Comment,
    StartElement {
        name: Seq<char>,
        attributes: Seq<AttributeView>,
        namespaces: Seq<AttributeView>,
    },
    EndElement { name: Seq<char> },
    Characters(Seq<char>),
    CData,
    Whitespace,
}

impl View for Event {
    type V = EventView;

    open spec fn view(&self) -> EventView {
        match *self {
            Event::StartDocument => EventView::StartDocument,
            Event::EndDocument => EventView::EndDocument,
            Event::ProcessingInstruction => EventView::ProcessingInstruction,
            Event::Comment => EventView::Comment,
            Event::StartElement { name, attributes, namespaces } => EventView::StartElement {
                name: name@,
                attributes: attributes_view(attributes@),
                namespaces: attributes_view(namespaces@),
            },
            Event::EndElement { name } => EventView::EndElement { name: name@ },
            Event::Characters(s) => EventView::Characters(s@),
            Event::CData => EventView::CData,
            Event::Whitespace => EventView::Whitespace,
        }
    }
}

impl EventView {
    /// Events that no reader of a document needs to see.
    pub open spec fn ignorable(self) -> bool {
        self is ProcessingInstruction || self is Comment
    }
}

/// The values of a list of events, in order.
pub open spec fn events_view(events: Seq<Event>) -> Seq<EventView> {
    events.map_values(|e: Event| e@)
}

} // verus!
