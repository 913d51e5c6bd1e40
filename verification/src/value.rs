//! Typed values and the shapes that say how a document is read into them.

use vstd::prelude::*;

verus! {

/// A typed value.
#[derive(Debug, PartialEq, Eq)]
pub enum Value {
    /// The value without content.
    Unit,
    /// A truth value.
    Bool(bool),
    /// A signed integer.
    Int(i64),
    /// An unsigned integer.
    UInt(u64),
    /// A text. A decimal fraction is held as its text.
    Text(String),
    /// An optional value that is not there.
    Absent,
    /// An optional value that is there.
    Present(Box<Value>),
    /// A sequence of values of one shape.
    Sequence(Vec<Value>),
    /// A fixed number of scalars.
    Tuple(Vec<Value>),
    /// A record: named fields in the order of their declaration. At the
    /// root, the tag of the document is named after the record.
    Struct { name: String, fields: Vec<Entry> },
    /// A map from texts to values, in the order of the document.
    Mapping(Vec<Entry>),
    /// One case of an enumeration.
    Variant { name: String, content: Content },
}

/// A key and its value.
#[derive(Debug, PartialEq, Eq)]
pub struct Entry {
    pub key: String,
    pub value: Value,
}

/// What a case of an enumeration holds.
#[derive(Debug, PartialEq, Eq)]
pub enum Content {
    Unit,
    Newtype(Box<Value>),
    Tuple(Vec<Value>),
    Struct(Vec<Entry>),
}

/// How a part of a document is to be read: the type that is expected
/// there.
#[derive(Debug, PartialEq, Eq)]
pub enum Shape {
    /// Nothing: an element without content.
    Unit,
    /// A truth value: the text `true` or `false`.
    Bool,
    /// A signed integer of 64 bits in decimal.
    Int,
    /// An unsigned integer of 64 bits in decimal.
    UInt,
    /// A text. A decimal fraction is read as its text.
    Text,
    /// A value that may be missing.
    Optional(Box<Shape>),
    /// One value or more under a tag that repeats.
    Sequence(Box<Shape>),
    /// Scalars in one text, set apart by white space.
    Tuple(Vec<Shape>),
    /// A record with the given fields. A key that begins with `@` names an
    /// attribute, the key `.` the text of the element, any other key a
    /// child element. The name is the name of the record: an encoder names
    /// the root tag after it, and a decoder hands it on without holding
    /// any tag against it.
    Struct { name: String, fields: Vec<FieldShape> },
    /// A map from keys to values of one shape.
    Mapping(Box<Shape>),
    /// An enumeration with the given cases.
    Enum { variants: Vec<VariantShape> },
    /// Whatever the document holds: a map for an element that has children
    /// or attributes, no content for an empty element, and a text else.
    Any,
}

/// A field of a record: its key and the shape of its value.
#[derive(Debug, PartialEq, Eq)]
pub struct FieldShape {
    pub key: String,
    pub shape: Shape,
}

/// A case of an enumeration: its name and the shape of what it holds.
#[derive(Debug, PartialEq, Eq)]
pub struct VariantShape {
    pub name: String,
    pub content: ContentShape,
}

/// The shape of what a case of an enumeration holds.
#[derive(Debug, PartialEq, Eq)]
pub enum ContentShape {
    Unit,
    Newtype(Box<Shape>),
    Tuple(Vec<Shape>),
    Struct(Vec<FieldShape>),
}

/// The mathematical value of a [`Value`].
pub enum ValueView {
    Unit,
    Bool(bool),
    Int(int),
    UInt(int),
    Text(Seq<char>),
    Absent,
    Present(Box<ValueView>),
    Sequence(Seq<ValueView>),
    Tuple(Seq<ValueView>),
    Struct { name: Seq<char>, fields: Seq<EntryView> },
    Mapping(Seq<EntryView>),
    Variant { name: Seq<char>, content: ContentView },
}

/// The mathematical value of an [`Entry`].
pub struct EntryView {
    pub key: Seq<char>,
    pub value: ValueView,
}

/// The mathematical value of a [`Content`].
pub enum ContentView {
    Unit,
    Newtype(Box<ValueView>),
    Tuple(Seq<ValueView>),
    Struct(Seq<EntryView>),
}

/// The value that `v` stands for.
pub open spec fn value_view(v: Value) -> ValueView
    decreases v,
{
    match v {
        Value::Unit => ValueView::Unit,
        Value::Bool(b) => ValueView::Bool(b),
        Value::Int(i) => ValueView::Int(i as int),
        Value::UInt(u) => ValueView::UInt(u as int),
        Value::Text(s) => ValueView::Text(s@),
        Value::Absent => ValueView::Absent,
        Value::Present(inner) => ValueView::Present(Box::new(value_view(*inner))),
        Value::Sequence(items) => ValueView::Sequence(values_view(items@)),
        Value::Tuple(items) => ValueView::Tuple(values_view(items@)),
        Value::Struct { name, fields } => ValueView::Struct {
            name: name@,
            fields: entries_view(fields@),
        },
        Value::Mapping(entries) => ValueView::Mapping(entries_view(entries@)),
        Value::Variant { name, content } => ValueView::Variant {
            name: name@,
            content: content_view(content),
        },
    }
}

/// The values that `items` stand for, in order.
pub open spec fn values_view(items: Seq<Value>) -> Seq<ValueView>
    decreases items,
{
    Seq::new(
        items.len(),
        |i: int|
            if 0 <= i < items.len() {
                value_view(items[i])
            } else {
                ValueView::Unit
            },
    )
}

/// The entry that `e` stands for.
pub open spec fn entry_view(e: Entry) -> EntryView
    decreases e,
{
    EntryView { key: e.key@, value: value_view(e.value) }
}

/// The entries that `entries` stand for, in order.
pub open spec fn entries_view(entries: Seq<Entry>) -> Seq<EntryView>
    decreases entries,
{
    Seq::new(
        entries.len(),
        |i: int|
            if 0 <= i < entries.len() {
                entry_view(entries[i])
            } else {
                EntryView { key: Seq::empty(), value: ValueView::Unit }
            },
    )
}

/// The content that `c` stands for.
pub open spec fn content_view(c: Content) -> ContentView
    decreases c,
{
    match c {
        Content::Unit => ContentView::Unit,
        Content::Newtype(inner) => ContentView::Newtype(Box::new(value_view(*inner))),
        Content::Tuple(items) => ContentView::Tuple(values_view(items@)),
        Content::Struct(fields) => ContentView::Struct(entries_view(fields@)),
    }
}

impl View for Value {
    type V = ValueView;

    open spec fn view(&self) -> ValueView {
        value_view(*self)
    }
}

impl View for Entry {
    type V = EntryView;

    open spec fn view(&self) -> EntryView {
        entry_view(*self)
    }
}

impl View for Content {
    type V = ContentView;

    open spec fn view(&self) -> ContentView {
        content_view(*self)
    }
}

} // verus!
