//! What the encoder writes for a value that fits a shape: the events of
//! its element.

use vstd::prelude::*;
use crate::de::map::{attribute_key, text_key};
use crate::de::semantics::variant_from;
use crate::event::{AttributeView, EventView};
use crate::ser::semantics::{
    encode, encode_entries, encode_field, encode_fields, encode_items, encode_seq,
    is_attribute_key, plain_text, plain_texts, seq_next, struct_end,
};
use crate::ser::{EncoderView, attribute_from};
use crate::symmetry::{
    attributes, attributes_first, attributes_of, body_of, content, element, end, entries_of,
    field_fits, field_of, fields_fit, fits, text_events, items_of, plain_fits, scalar_fits,
    start, texts_of,
};
use crate::text::{decimal, joined, truth_text};
use crate::value::{ContentView, EntryView, FieldShape, Shape, ValueView};

verus! {

/// An encoder past the root that has no namespaces to declare.
pub open spec fn calm(e: EncoderView) -> bool {
    !e.root && e.default_ns is None && e.namespaces =~= Seq::<AttributeView>::empty()
}

/// Among attributes none of which has the name `name`, none is found
/// under it.
pub proof fn lemma_attribute_new(attributes: Seq<AttributeView>, name: Seq<char>, from: int)
    requires
        0 <= from,
        forall|k: int| 0 <= k < attributes.len() ==> (#[trigger] attributes[k]).name != name,
    ensures
        attribute_from(attributes, name, from) is None,
    decreases attributes.len() - from,
{
    if from < attributes.len() {
        lemma_attribute_new(attributes, name, from + 1);
    }
}

/// The key of an attribute is made of the sign of attributes and the name
/// of the attribute.
pub proof fn lemma_attribute_key(key: Seq<char>)
    requires
        is_attribute_key(key),
    ensures
        attribute_key(key.skip(1)) == key,
{
}

/// Behind a field that is no attribute, no field gives an attribute.
pub proof fn lemma_attributes_over(fields: Seq<EntryView>, at: int, from: int)
    requires
        attributes_first(fields),
        0 <= at < fields.len(),
        !is_attribute_key(fields[at].key),
        at <= from,
    ensures
        attributes_of(fields, from) == Seq::<AttributeView>::empty(),
    decreases fields.len() - from,
{
    if from < fields.len() {
        lemma_attributes_over(fields, at, from + 1);
    }
}

/// The scalars of a tuple that fits have the texts that the tuple is
/// made of.
pub proof fn lemma_plain_texts(items: Seq<ValueView>, shapes: Seq<Shape>)
    requires
        items.len() == shapes.len(),
        forall|i: int| 0 <= i < items.len() ==> scalar_fits(#[trigger] items[i], shapes[i]),
    ensures
        plain_texts(items) == Ok::<_, crate::error::ErrorView>(texts_of(items)),
    decreases items.len(),
{
    if items.len() == 0 {
        assert(texts_of(items) =~= Seq::empty());
    } else {
        let init = items.drop_last();
        let first = shapes.drop_last();
        lemma_plain_texts(init, first);
        assert(texts_of(init).push(texts_of(items).last()) =~= texts_of(items));
    }
}

/// A value that can stand in an attribute has a text, unless it is
/// absent.
pub proof fn lemma_plain_fits(v: ValueView, shape: Shape)
    requires
        plain_fits(v, shape),
    ensures
        plain_text(v) is Ok,
        plain_text(v)->Ok_0 is None <==> v is Absent,
{
    match v {
        ValueView::Present(x) => {
            lemma_scalar_text(*x, *shape->Optional_0);
        },
        _ => {},
    }
}

/// A scalar has a text.
pub proof fn lemma_scalar_text(v: ValueView, shape: Shape)
    requires
        scalar_fits(v, shape),
    ensures
        plain_text(v) matches Ok(Some(_)),
{
}

/// Where no tag is open, a scalar makes its text and an absent value
/// makes nothing.
pub proof fn lemma_encode_text_events(v: ValueView, shape: Shape, e: EncoderView)
    requires
        plain_fits(v, shape),
        e.pending is None,
    ensures
        encode(v, e) matches Ok(e1) && e1.sink.written == e.sink.written + text_events(v)
            && e1.sink.open == e.sink.open && e1.pending is None && (calm(e) ==> calm(e1)),
    decreases v,
{
    match v {
        ValueView::Absent => {},
        ValueView::Present(x) => {
            lemma_encode_text_events(*x, *shape->Optional_0, e);
        },
        _ => {
            let text = plain_text(v)->Ok_0->0;
            assert(e.sink.written + text_events(v) =~= e.sink.written.push(EventView::Characters(text)));
        },
    }
}

/// What encoding a value that fits comes to where a tag is open: the
/// element of the value under that tag is written.
pub proof fn lemma_encode_value(v: ValueView, shape: Shape, e: EncoderView)
    requires
        fits(v, shape),
        calm(e),
        e.pending == Some(Seq::<AttributeView>::empty()),
    ensures
        encode(v, e) matches Ok(e1) && e1.sink.written == e.sink.written + element(e.tag, v) && e1.pending
            is None && e1.sink.open == e.sink.open && calm(e1),
    decreases v, 0nat,
{
    let (opened, e1) = e.build_start_tag();
    match v {
        ValueView::Present(x) => {
            lemma_encode_value(*x, *shape->Optional_0, e);
        },
        ValueView::Tuple(items) => {
            lemma_plain_texts(items, shape->Tuple_0@);
        },
        ValueView::Struct { name, fields } => {
            lemma_encode_record(fields, shape->Struct_fields@, false, e);
        },
        ValueView::Mapping(entries) => {
            lemma_encode_entries(entries, *shape->Mapping_0, 0, e1);
        },
        ValueView::Variant { name, content: c } => {
            let i = variant_from(shape->Enum_variants@, name, 0)->0;
            let expected = shape->Enum_variants@[i].content;
            match c {
                ContentView::Unit => {},
                ContentView::Newtype(x) => {
                    lemma_encode_value(*x, *expected->Newtype_0, e1.open_tag(name));
                },
                ContentView::Tuple(items) => {
                    lemma_plain_texts(items, expected->Tuple_0@);
                },
                ContentView::Struct(fields) => {
                    lemma_encode_record(fields, expected->Struct_0@, true, e1.open_tag(name));
                },
            }
        },
        _ => {},
    }
}

/// What encoding the fields of a record and closing it comes to where
/// the tag of the record is open: the element of the record is written,
/// and the end tag of the element around it where that is owed.
pub proof fn lemma_encode_record(
    fields: Seq<EntryView>,
    shapes: Seq<FieldShape>,
    owed: bool,
    e: EncoderView,
)
    requires
        fields_fit(fields, shapes),
        calm(e),
        e.pending == Some(Seq::<AttributeView>::empty()),
        owed ==> e.sink.open.len() > 0,
    ensures
        (match encode_fields(fields, 0, false, e) {
            Err(x) => Err(x),
            Ok((flushed, after)) => struct_end(flushed, owed, after),
        }) matches Ok(e1) && e1.sink.written == e.sink.written + (seq![
            start(e.tag, attributes_of(fields, 0)),
        ] + body_of(fields, 0) + seq![end(e.tag)]) + (if owed {
            seq![end(e.sink.open.last())]
        } else {
            Seq::empty()
        }) && e1.pending is None && e1.sink.open == (if owed {
            e.sink.open.drop_last()
        } else {
            e.sink.open
        }) && calm(e1),
    decreases fields, fields.len() + 1,
{
    let t = e.tag;
    let none = Seq::<AttributeView>::empty();
    lemma_encode_fields(fields, shapes, 0, false, t, none, e);
}

/// What encoding a field that is an attribute comes to: the attribute
/// joins the attributes that were gathered, unless its value is absent.
pub proof fn lemma_encode_attribute(
    key: Seq<char>,
    v: ValueView,
    shape: Shape,
    gathered: Seq<AttributeView>,
    e: EncoderView,
)
    requires
        is_attribute_key(key),
        plain_fits(v, shape),
        e.pending == Some(gathered),
        forall|k: int|
            0 <= k < gathered.len() ==> attribute_key((#[trigger] gathered[k]).name) != key,
    ensures
        encode_field(key, v, false, e) == Ok::<_, crate::error::ErrorView>(
            (
                false,
                EncoderView {
                    pending: Some(
                        gathered + (match plain_text(v) {
                            Ok(Some(text)) => seq![AttributeView { name: key.skip(1), value: text }],
                            _ => Seq::empty(),
                        }),
                    ),
                    ..e
                },
            ),
        ),
{
    lemma_plain_fits(v, shape);
    match plain_text(v) {
        Ok(Some(text)) => {
            let name = key.skip(1);
            let a = AttributeView { name, value: text };
            lemma_attribute_key(key);
            lemma_attribute_new(gathered, name, 0);
            assert(gathered.push(a) =~= gathered + seq![a]);
        },
        _ => {},
    }
}

/// What encoding a field that is no attribute comes to: the start tag of
/// the record is written if it was not, and behind it what the field
/// makes.
pub proof fn lemma_encode_child(
    key: Seq<char>,
    v: ValueView,
    shape: Shape,
    flushed: bool,
    t: Seq<char>,
    gathered: Seq<AttributeView>,
    e: EncoderView,
)
    requires
        !is_attribute_key(key),
        field_fits(key, v, shape),
        calm(e),
        if flushed {
            e.pending is None
        } else {
            e.pending == Some(gathered) && e.tag == t
        },
    ensures
        encode_field(key, v, flushed, e) matches Ok((flushed1, e1)) && flushed1 && calm(e1)
            && e1.pending is None && e1.sink.open == (if flushed {
            e.sink.open
        } else {
            e.sink.open.push(t)
        }) && e1.sink.written == e.sink.written + (if flushed {
            Seq::empty()
        } else {
            seq![start(t, gathered)]
        }) + field_of(key, v),
    decreases v, 1nat,
{
    let (opened, e1) = e.build_start_tag();
    if key == text_key() {
        lemma_encode_text_events(v, shape, e1);
    } else {
        let e2 = e1.open_tag(key);
        match v {
            ValueView::Sequence(items) => {
                lemma_encode_items(items, *shape->Sequence_0, 0, key, e2);
            },
            _ => {
                lemma_encode_value(v, shape, e2);
            },
        }
    }
}

/// What encoding the fields of a record from `from` on comes to. As long
/// as the start tag of the record is not written, the attributes gather;
/// behind the start tag, the fields make their events.
pub proof fn lemma_encode_fields(
    fields: Seq<EntryView>,
    shapes: Seq<FieldShape>,
    from: int,
    flushed: bool,
    t: Seq<char>,
    gathered: Seq<AttributeView>,
    e: EncoderView,
)
    requires
        fields_fit(fields, shapes),
        0 <= from <= fields.len(),
        calm(e),
        if flushed {
            &&& e.pending is None
            &&& forall|j: int| from <= j < fields.len() ==> !is_attribute_key(
                (#[trigger] fields[j]).key,
            )
        } else {
            &&& e.pending == Some(gathered)
            &&& e.tag == t
            &&& forall|k: int, j: int|
                0 <= k < gathered.len() && from <= j < fields.len() ==> attribute_key(
                    (#[trigger] gathered[k]).name,
                ) != (#[trigger] fields[j]).key
        },
    ensures
        encode_fields(fields, from, flushed, e) matches Ok((flushed1, e1)) && calm(e1) && if flushed1 {
            &&& e1.pending is None
            &&& e1.sink.open == (if flushed {
                e.sink.open
            } else {
                e.sink.open.push(t)
            })
            &&& e1.sink.written == e.sink.written + (if flushed {
                Seq::empty()
            } else {
                seq![start(t, gathered + attributes_of(fields, from))]
            }) + body_of(fields, from)
        } else {
            &&& !flushed
            &&& e1.pending == Some(gathered + attributes_of(fields, from))
            &&& e1.tag == t
            &&& e1.sink.written == e.sink.written
            &&& e1.sink.open == e.sink.open
            &&& body_of(fields, from) == Seq::<EventView>::empty()
        },
    decreases fields, fields.len() - from,
{
    let none = Seq::<AttributeView>::empty();
    if from < fields.len() {
        let key = fields[from].key;
        let v = fields[from].value;
        let shape = shapes[from].shape;
        assert(body_of(fields, from) == field_of(key, v) + body_of(fields, from + 1));
        if is_attribute_key(key) {
            let more = match plain_text(v) {
                Ok(Some(text)) => seq![AttributeView { name: key.skip(1), value: text }],
                _ => none,
            };
            lemma_encode_attribute(key, v, shape, gathered, e);
            let e1 = EncoderView { pending: Some(gathered + more), ..e };
            assert forall|k: int, j: int|
                0 <= k < (gathered + more).len() && from + 1 <= j < fields.len() implies attribute_key(
                (#[trigger] (gathered + more)[k]).name,
            ) != (#[trigger] fields[j]).key by {
                if k >= gathered.len() {
                    lemma_attribute_key(key);
                }
            }
            lemma_encode_fields(fields, shapes, from + 1, false, t, gathered + more, e1);
            assert((gathered + more) + attributes_of(fields, from + 1) =~= gathered
                + attributes_of(fields, from));
        } else {
            lemma_attributes_over(fields, from, from);
            lemma_encode_child(key, v, shape, flushed, t, gathered, e);
            let e1 = encode_field(key, v, flushed, e)->Ok_0.1;
            lemma_encode_fields(fields, shapes, from + 1, true, t, none, e1);
        }
    }
}

/// What encoding the items of a sequence from `from` on comes to: one
/// element under the tag of the sequence for every item, and the tag open
/// once more behind each.
pub proof fn lemma_encode_items(
    items: Seq<ValueView>,
    element_shape: Shape,
    from: int,
    key: Seq<char>,
    e: EncoderView,
)
    requires
        forall|i: int| 0 <= i < items.len() ==> fits(#[trigger] items[i], element_shape),
        0 <= from <= items.len(),
        calm(e),
        e.pending == Some(Seq::<AttributeView>::empty()),
        e.tag == key,
    ensures
        encode_items(items, from, Some(key), e) matches Ok(e1) && e1.sink.written == e.sink.written
            + items_of(key, items, from) && e1.pending == Some(Seq::<AttributeView>::empty())
            && e1.tag == key && e1.sink.open == e.sink.open && calm(e1),
        from == 0 ==> (encode_seq(items, e) matches Ok(e2) && e2.sink.written == e.sink.written + items_of(
            key,
            items,
            0,
        ) && e2.pending is None && e2.sink.open == e.sink.open && calm(e2)),
    decreases items, items.len() - from,
{
    if from < items.len() {
        lemma_encode_value(items[from], element_shape, e);
        let e1 = encode(items[from], e)->Ok_0;
        let e2 = seq_next(Some(key), e1);
        lemma_encode_items(items, element_shape, from + 1, key, e2);
    }
}

/// What encoding the entries of a map from `from` on comes to: one
/// element for every entry, under its key.
pub proof fn lemma_encode_entries(
    entries: Seq<EntryView>,
    value_shape: Shape,
    from: int,
    e: EncoderView,
)
    requires
        forall|i: int| 0 <= i < entries.len() ==> fits((#[trigger] entries[i]).value, value_shape),
        0 <= from <= entries.len(),
        calm(e),
        e.pending is None,
    ensures
        encode_entries(entries, from, e) matches Ok(e1) && e1.sink.written == e.sink.written + entries_of(
            entries,
            from,
        ) && e1.pending is None && e1.sink.open == e.sink.open && calm(e1),
    decreases entries, entries.len() - from,
{
    if from < entries.len() {
        let e0 = e.open_tag(entries[from].key);
        lemma_encode_value(entries[from].value, value_shape, e0);
        let e1 = encode(entries[from].value, e0)->Ok_0;
        lemma_encode_entries(entries, value_shape, from + 1, e1);
    }
}

} // verus!
