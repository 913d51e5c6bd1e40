//! What is encoded can be decoded: the document that a value makes, read
//! under the shape of the value, gives the value back.
//!
//! The law is stated between the two halves of the codec, on the events
//! that the encoder hands to a sink and that a source hands to the decoder.
//! `content`, `element` and `document_of` say which events a value makes;
//! `fits` says which values the law is about. It leaves out what the
//! markup cannot tell apart: an optional value that is there without any
//! content, and a sequence anywhere but in a field of a record, where the
//! repeating tag is its only mark. What a parser and an emitter make of
//! the events is theirs: a parser that trims white space does not give back
//! a text that begins or ends with white space, nor an empty text.

pub mod read;
pub mod written;

use vstd::prelude::*;
use crate::de::map::{MapView, text_key};
use crate::de::semantics::{
    decode, decode_document, decode_fields, decode_struct, map_begin, map_end, no_slots,
    variant_from,
};
use crate::de::DecoderView;
use crate::error::ErrorView;
use crate::ser::semantics::encode;
use crate::ser::{EncoderView, encode_document, encode_events, encode_into, text_of};
use crate::sink::{SinkView, document_bytes, memory_refusal};
use crate::source::{document_events, replayed, settle};
use crate::de::semantics::{decode_seq, missing};
use crate::de::seq::SeqView;
use crate::ser::semantics::{encode_field, encode_seq};
use crate::symmetry::read::{
    lemma_assemble, lemma_decode_fields, lemma_decode_items, lemma_decode_value, lemma_replayed,
    lemma_settle_replayed, led_by, reading,
};
use crate::symmetry::written::{calm, lemma_encode_items, lemma_encode_record};
use crate::event::{AttributeView, EventView};
use crate::ser::semantics::{is_attribute_key, plain_text};
use crate::text::{decimal, is_token, joined, truth_text};
use crate::value::{
    ContentShape, ContentView, EntryView, FieldShape, Shape, ValueView, VariantShape,
};

verus! {

/// A start tag without namespaces to declare.
pub open spec fn start(name: Seq<char>, attributes: Seq<AttributeView>) -> EventView {
    EventView::StartElement { name, attributes, namespaces: Seq::empty() }
}

/// An end tag.
pub open spec fn end(name: Seq<char>) -> EventView {
    EventView::EndElement { name }
}

/// The attributes that the fields from `from` on give the tag of their
/// record.
pub open spec fn attributes_of(fields: Seq<EntryView>, from: int) -> Seq<AttributeView>
    decreases fields.len() - from,
{
    if from < 0 || from >= fields.len() {
        Seq::empty()
    } else {
        let rest = attributes_of(fields, from + 1);
        if is_attribute_key(fields[from].key) {
            match plain_text(fields[from].value) {
                Ok(Some(text)) => seq![
                    AttributeView { name: fields[from].key.skip(1), value: text },
                ] + rest,
                _ => rest,
            }
        } else {
            rest
        }
    }
}

/// The attributes that a value gives the tag it stands under.
pub open spec fn attributes(v: ValueView) -> Seq<AttributeView>
    decreases v,
{
    match v {
        ValueView::Struct { fields, .. } => attributes_of(fields, 0),
        ValueView::Present(inner) => attributes(*inner),
        _ => Seq::empty(),
    }
}

/// The text that a scalar makes where it stands for the text of an
/// element.
pub open spec fn text_events(v: ValueView) -> Seq<EventView> {
    match plain_text(v) {
        Ok(Some(text)) => seq![EventView::Characters(text)],
        _ => Seq::empty(),
    }
}

/// The texts of scalars, one by one.
pub open spec fn texts_of(items: Seq<ValueView>) -> Seq<Seq<char>> {
    Seq::new(
        items.len(),
        |i: int|
            match plain_text(items[i]) {
                Ok(Some(text)) => text,
                _ => Seq::empty(),
            },
    )
}

/// The events that a value makes between the start tag and the end tag
/// of the element it stands in.
pub open spec fn content(v: ValueView) -> Seq<EventView>
    decreases v, 0nat,
{
    match v {
        ValueView::Unit => Seq::empty(),
        ValueView::Absent => Seq::empty(),
        ValueView::Bool(b) => seq![EventView::Characters(truth_text(b))],
        ValueView::Int(i) => seq![EventView::Characters(decimal(i))],
        ValueView::UInt(u) => seq![EventView::Characters(decimal(u))],
        ValueView::Text(s) => seq![EventView::Characters(s)],
        ValueView::Present(inner) => content(*inner),
        ValueView::Sequence(_) => Seq::empty(),
        ValueView::Tuple(items) => seq![EventView::Characters(joined(texts_of(items)))],
        ValueView::Struct { fields, .. } => body_of(fields, 0),
        ValueView::Mapping(entries) => entries_of(entries, 0),
        ValueView::Variant { name, content: c } => match c {
            ContentView::Unit => seq![EventView::Characters(name)],
            ContentView::Newtype(inner) => element(name, *inner),
            ContentView::Tuple(items) => seq![
                start(name, Seq::empty()),
                EventView::Characters(joined(texts_of(items))),
                end(name),
            ],
            ContentView::Struct(fields) => seq![start(name, attributes_of(fields, 0))] + body_of(
                fields,
                0,
            ) + seq![end(name)],
        },
    }
}

/// The element that a value makes under the tag `name`.
pub open spec fn element(name: Seq<char>, v: ValueView) -> Seq<EventView>
    decreases v, 1nat,
{
    seq![start(name, attributes(v))] + content(v) + seq![end(name)]
}

/// The elements that the items of a sequence from `from` on make under
/// the tag `name`: one element each.
pub open spec fn items_of(name: Seq<char>, items: Seq<ValueView>, from: int) -> Seq<EventView>
    decreases items, items.len() - from,
{
    if from < 0 || from >= items.len() {
        Seq::empty()
    } else {
        element(name, items[from]) + items_of(name, items, from + 1)
    }
}

/// What a field of a record makes behind the start tag of the record:
/// nothing where it is an attribute, a text where its key is the key of
/// the text, and else elements under its key, one for every item where it
/// is a sequence.
pub open spec fn field_of(key: Seq<char>, v: ValueView) -> Seq<EventView>
    decreases v, 2nat,
{
    if is_attribute_key(key) {
        Seq::empty()
    } else if key == text_key() {
        text_events(v)
    } else {
        match v {
            ValueView::Sequence(items) => items_of(key, items, 0),
            _ => element(key, v),
        }
    }
}

/// What the fields of a record from `from` on make behind the start tag
/// of the record.
pub open spec fn body_of(fields: Seq<EntryView>, from: int) -> Seq<EventView>
    decreases fields, fields.len() - from,
{
    if from < 0 || from >= fields.len() {
        Seq::empty()
    } else {
        field_of(fields[from].key, fields[from].value) + body_of(fields, from + 1)
    }
}

/// The elements that the entries of a map from `from` on make.
pub open spec fn entries_of(entries: Seq<EntryView>, from: int) -> Seq<EventView>
    decreases entries, entries.len() - from,
{
    if from < 0 || from >= entries.len() {
        Seq::empty()
    } else {
        element(entries[from].key, entries[from].value) + entries_of(entries, from + 1)
    }
}

/// The events of the document that a record makes at the root.
pub open spec fn document_of(v: ValueView) -> Seq<EventView> {
    match v {
        ValueView::Struct { name, .. } => seq![EventView::StartDocument] + element(name, v),
        _ => Seq::empty(),
    }
}

/// The shapes of scalars.
pub open spec fn is_scalar(shape: Shape) -> bool {
    shape is Bool || shape is Int || shape is UInt || shape is Text
}

/// Whether a scalar has the shape `shape`.
pub open spec fn scalar_fits(v: ValueView, shape: Shape) -> bool {
    match (v, shape) {
        (ValueView::Bool(_), Shape::Bool) => true,
        (ValueView::Int(i), Shape::Int) => i64::MIN <= i <= i64::MAX,
        (ValueView::UInt(u), Shape::UInt) => 0 <= u <= u64::MAX,
        (ValueView::Text(_), Shape::Text) => true,
        _ => false,
    }
}

/// Whether a case of an enumeration is one of the cases `variants` that
/// hold nothing.
pub open spec fn names_unit(v: ValueView, variants: Seq<VariantShape>) -> bool {
    v matches ValueView::Variant { name, content: ContentView::Unit } && variant_from(
        variants,
        name,
        0,
    ) matches Some(i) && variants[i].content is Unit
}

/// Whether a value can stand in an attribute or for the text of an
/// element: a scalar, an optional scalar, or a case that holds nothing.
pub open spec fn plain_fits(v: ValueView, shape: Shape) -> bool {
    match (v, shape) {
        (ValueView::Absent, Shape::Optional(inner)) => is_scalar(*inner),
        (ValueView::Present(x), Shape::Optional(inner)) => scalar_fits(*x, *inner),
        (ValueView::Variant { .. }, Shape::Enum { variants }) => names_unit(v, variants@),
        _ => scalar_fits(v, shape),
    }
}

/// Whether scalars can stand in a tuple of the shapes `shapes`: as many
/// scalars as shapes, each of its shape, and each text among them a
/// single token.
pub open spec fn tuple_fits(items: Seq<ValueView>, shapes: Seq<Shape>) -> bool {
    &&& items.len() == shapes.len()
    &&& forall|i: int|
        0 <= i < items.len() ==> scalar_fits(#[trigger] items[i], shapes[i]) && (
        items[i] matches ValueView::Text(text) ==> is_token(text))
}

/// Whether the keys of fields are pairwise different.
pub open spec fn distinct_keys(fields: Seq<EntryView>) -> bool {
    forall|i: int, j: int|
        0 <= i < j < fields.len() ==> (#[trigger] fields[i]).key != (#[trigger] fields[j]).key
}

/// Whether the attributes among fields come first.
pub open spec fn attributes_first(fields: Seq<EntryView>) -> bool {
    forall|i: int, j: int|
        0 <= i < j < fields.len() && is_attribute_key((#[trigger] fields[j]).key)
            ==> is_attribute_key((#[trigger] fields[i]).key)
}

/// Whether a value has the shape `shape` and is of the kind that its
/// document gives back. An optional value that is there has content, for
/// an element without content is read as a value that is absent.
pub open spec fn fits(v: ValueView, shape: Shape) -> bool
    decreases v, 0nat,
{
    match (v, shape) {
        (ValueView::Unit, Shape::Unit) => true,
        (ValueView::Bool(_), Shape::Bool) => true,
        (ValueView::Int(i), Shape::Int) => i64::MIN <= i <= i64::MAX,
        (ValueView::UInt(u), Shape::UInt) => 0 <= u <= u64::MAX,
        (ValueView::Text(_), Shape::Text) => true,
        (ValueView::Absent, Shape::Optional(_)) => true,
        (ValueView::Present(x), Shape::Optional(inner)) => fits(*x, *inner) && content(*x).len()
            > 0,
        (ValueView::Tuple(items), Shape::Tuple(shapes)) => tuple_fits(items, shapes@),
        (ValueView::Struct { name, fields }, Shape::Struct { name: named, fields: shapes }) => name
            == named@ && fields_fit(fields, shapes@),
        (ValueView::Mapping(entries), Shape::Mapping(value)) => forall|i: int|
            0 <= i < entries.len() ==> fits((#[trigger] entries[i]).value, *value),
        (ValueView::Variant { name, content: c }, Shape::Enum { variants }) => match variant_from(
            variants@,
            name,
            0,
        ) {
            None => false,
            Some(i) => match (c, variants@[i].content) {
                (ContentView::Unit, ContentShape::Unit) => true,
                (ContentView::Newtype(x), ContentShape::Newtype(inner)) => fits(*x, *inner),
                (ContentView::Tuple(items), ContentShape::Tuple(shapes)) => tuple_fits(
                    items,
                    shapes@,
                ),
                (ContentView::Struct(fields), ContentShape::Struct(shapes)) => fields_fit(
                    fields,
                    shapes@,
                ),
                _ => false,
            },
        },
        _ => false,
    }
}

/// Whether the value of a field has the shape `shape`: an attribute and
/// the text of the element hold a scalar, which may be optional; a child
/// holds a value that fits, or a sequence of such values.
pub open spec fn field_fits(key: Seq<char>, v: ValueView, shape: Shape) -> bool
    decreases v, 1nat,
{
    if is_attribute_key(key) || key == text_key() {
        plain_fits(v, shape)
    } else {
        match (v, shape) {
            (ValueView::Sequence(items), Shape::Sequence(element)) => forall|i: int|
                0 <= i < items.len() ==> fits(#[trigger] items[i], *element),
            _ => fits(v, shape),
        }
    }
}

/// Whether fields have the shapes `shapes`: one field for every shape,
/// under its key, no key twice and the attributes first.
pub open spec fn fields_fit(fields: Seq<EntryView>, shapes: Seq<FieldShape>) -> bool
    decreases fields, 0nat,
{
    &&& fields.len() == shapes.len()
    &&& distinct_keys(fields)
    &&& attributes_first(fields)
    &&& forall|i: int|
        0 <= i < fields.len() ==> (#[trigger] fields[i]).key == shapes[i].key@ && field_fits(
            fields[i].key,
            fields[i].value,
            shapes[i].shape,
        )
}

/// Events that are start tags, end tags and texts.
pub open spec fn markup(events: Seq<EventView>) -> bool {
    forall|i: int|
        0 <= i < events.len() ==> (#[trigger] events[i]) is StartElement || events[i]
            is EndElement || events[i] is Characters
}

/// Markup behind markup is markup.
pub proof fn lemma_markup_joined(a: Seq<EventView>, b: Seq<EventView>)
    requires
        markup(a),
        markup(b),
    ensures
        markup(a + b),
{
}

/// The content of a value is markup.
pub proof fn lemma_markup_content(v: ValueView)
    ensures
        markup(content(v)),
    decreases v, 0nat,
{
    match v {
        ValueView::Present(inner) => {
            lemma_markup_content(*inner);
        },
        ValueView::Struct { fields, .. } => {
            lemma_markup_body(fields, 0);
        },
        ValueView::Mapping(entries) => {
            lemma_markup_entries(entries, 0);
        },
        ValueView::Variant { name, content: c } => match c {
            ContentView::Newtype(inner) => {
                lemma_markup_element(name, *inner);
            },
            ContentView::Struct(fields) => {
                lemma_markup_body(fields, 0);
            },
            _ => {},
        },
        _ => {},
    }
}

/// The element of a value is markup.
pub proof fn lemma_markup_element(name: Seq<char>, v: ValueView)
    ensures
        markup(element(name, v)),
    decreases v, 1nat,
{
    lemma_markup_content(v);
}

/// The elements of the items of a sequence are markup.
pub proof fn lemma_markup_items(name: Seq<char>, items: Seq<ValueView>, from: int)
    ensures
        markup(items_of(name, items, from)),
    decreases items, items.len() - from,
{
    if 0 <= from < items.len() {
        lemma_markup_element(name, items[from]);
        lemma_markup_items(name, items, from + 1);
    }
}

/// What the fields of a record make is markup.
pub proof fn lemma_markup_body(fields: Seq<EntryView>, from: int)
    ensures
        markup(body_of(fields, from)),
    decreases fields, fields.len() - from,
{
    if 0 <= from < fields.len() {
        let key = fields[from].key;
        let v = fields[from].value;
        if !is_attribute_key(key) && key != text_key() {
            match v {
                ValueView::Sequence(items) => {
                    lemma_markup_items(key, items, 0);
                },
                _ => {
                    lemma_markup_element(key, v);
                },
            }
        }
        lemma_markup_body(fields, from + 1);
        lemma_markup_joined(field_of(key, v), body_of(fields, from + 1));
    }
}

/// The elements of the entries of a map are markup.
pub proof fn lemma_markup_entries(entries: Seq<EntryView>, from: int)
    ensures
        markup(entries_of(entries, from)),
    decreases entries, entries.len() - from,
{
    if 0 <= from < entries.len() {
        lemma_markup_element(entries[from].key, entries[from].value);
        lemma_markup_entries(entries, from + 1);
    }
}

/// A record that fits its shape makes the events of its document in a
/// sink that has taken nothing, whatever kind of sink it is: the encoding
/// succeeds, and no element stays open.
pub proof fn lemma_encoded_into(v: ValueView, shape: Shape, refusal: ErrorView)
    requires
        v is Struct,
        fits(v, shape),
    ensures
        encode_into(v, SinkView::fresh(refusal), None, Seq::empty()) matches Ok(sink)
            && sink.written == document_of(v) && sink.open == Seq::<Seq<char>>::empty(),
{
    let name = v->Struct_name;
    let fields = v->Struct_fields;
    let e0 = EncoderView::begin(SinkView::fresh(refusal), None, Seq::empty());
    let e1 = e0.open_root_tag(name)->Ok_0;
    lemma_encode_record(fields, shape->Struct_fields@, false, e1);
    let e2 = encode(v, e0)->Ok_0;
    assert(e2.sink.written =~= document_of(v));
}

/// A record that fits its shape makes the events of its document, and
/// its document is the text that an emitter makes of those events.
pub proof fn lemma_encoded(v: ValueView, shape: Shape)
    requires
        v is Struct,
        fits(v, shape),
    ensures
        encode_events(v) == Ok::<_, ErrorView>(document_of(v)),
        encode_document(v, None, Seq::empty()) == text_of(document_bytes(document_of(v))),
{
    lemma_encoded_into(v, shape, memory_refusal());
    lemma_encoded_into(v, shape, ErrorView::Writer);
}

/// The events of the document of a record that fits its shape are read
/// back as the record.
pub proof fn lemma_decoded(v: ValueView, shape: Shape)
    requires
        v is Struct,
        fits(v, shape),
    ensures
        decode_document(shape, replayed(document_of(v))) == Ok::<_, ErrorView>(v),
{
    let name = v->Struct_name;
    let fields = v->Struct_fields;
    let shapes = shape->Struct_fields;
    assert(fields_fit(fields, shapes@));
    let events = document_of(v);
    let inside = element(name, v);
    lemma_markup_element(name, v);
    lemma_settle_replayed(events);
    let d = DecoderView::begin(replayed(events));
    lemma_replayed(events);
    assert(events.skip(1) =~= inside);
    let d1 = (DecoderView { root: false, ..d }).advance();
    let closing = seq![end(name)];
    let body = body_of(fields, 0) + closing;
    lemma_replayed(inside);
    assert(inside.skip(1) =~= body);
    let d2 = d1.advance();
    let m = MapView::begin(attributes_of(fields, 0));
    lemma_decode_fields(fields, shapes, 0, m, d2, no_slots(shapes@), closing);
    let (slots, d3) = decode_fields(shapes, m, d2, no_slots(shapes@))->Ok_0;
    lemma_assemble(fields, shapes@, slots, fields.len() as int);
    assert(shapes@.take(fields.len() as int) =~= shapes@);
    assert(decode_struct(shapes, d) matches Ok((entries, _)) && entries == fields);
}

/// What is encoded can be decoded: a record that fits its shape makes a
/// document, and the events of the document, read under the shape, give
/// the record back.
pub proof fn lemma_round_trip(v: ValueView, shape: Shape)
    requires
        v is Struct,
        fits(v, shape),
    ensures
        encode_events(v) matches Ok(events) && decode_document(shape, replayed(events)) == Ok::<
            _,
            ErrorView,
        >(v),
{
    lemma_encoded(v, shape);
    lemma_decoded(v, shape);
}

/// The same through the text of the document, as far as the codec
/// decides: the text that a record that fits its shape makes gives the
/// record back wherever a parser yields from that text, to a reader, the
/// events of the document.
pub proof fn lemma_round_trip_text(v: ValueView, shape: Shape, text: Seq<char>)
    requires
        v is Struct,
        fits(v, shape),
        encode_document(v, None, Seq::empty()) == Ok::<_, ErrorView>(text),
        settle(document_events(vstd::utf8::encode_utf8(text))) == settle(
            replayed(document_of(v)),
        ),
    ensures
        decode_document(shape, document_events(vstd::utf8::encode_utf8(text))) == Ok::<
            _,
            ErrorView,
        >(v),
{
    lemma_decoded(v, shape);
}

/// A sequence under an open tag is written as one element under that
/// tag for every item, one behind the other and nothing between them.
pub proof fn lemma_sequence_written(items: Seq<ValueView>, shape: Shape, e: EncoderView)
    requires
        forall|i: int| 0 <= i < items.len() ==> fits(#[trigger] items[i], shape),
        calm(e),
        e.pending == Some(Seq::<AttributeView>::empty()),
    ensures
        encode_seq(items, e) matches Ok(e1) && e1.sink.written == e.sink.written + items_of(e.tag, items, 0)
            && e1.pending is None,
{
    lemma_encode_items(items, shape, 0, e.tag, e);
}

/// The elements of the items of a sequence are read back as the items,
/// as many as there were: behind the start tag of the first of them the
/// decoder reads on as long as the tag repeats, and what ends the
/// sequence, another tag or the end tag of the element around it, stays to
/// be read.
pub proof fn lemma_sequence_read(
    items: Seq<ValueView>,
    shape: Shape,
    key: Seq<char>,
    d: DecoderView,
    rest: Seq<EventView>,
)
    requires
        items.len() > 0,
        forall|i: int| 0 <= i < items.len() ==> fits(#[trigger] items[i], shape),
        reading(d, items_of(key, items, 0).skip(1) + rest),
        d.tag == Some(key),
        d.attributes == Some(attributes(items[0])),
        rest.len() > 0,
        !led_by(rest, key),
    ensures
        decode_seq(shape, d) matches Ok((read, d1)) && read == items && read.len() == items.len()
            && d1.stream == replayed(rest),
{
    let behind = seq![end(key)] + (items_of(key, items, 1) + rest);
    assert(items_of(key, items, 0) == element(key, items[0]) + items_of(key, items, 1));
    assert(items_of(key, items, 0).skip(1) + rest =~= content(items[0]) + behind);
    lemma_decode_value(items[0], shape, d, behind);
    let d2 = decode(shape, d)->Ok_0.1;
    let q = SeqView { tag: key, first: false };
    assert(Seq::<ValueView>::empty().push(items[0]) =~= items.take(1));
    lemma_decode_items(items, shape, 1, q, d2, rest);
}

/// An attribute cannot join a tag whose start tag is written: behind the
/// content of an element no field can be an attribute.
pub proof fn lemma_attribute_behind_content(
    key: Seq<char>,
    v: ValueView,
    flushed: bool,
    e: EncoderView,
)
    requires
        is_attribute_key(key),
        plain_text(v) matches Ok(Some(_)),
        e.pending is None,
    ensures
        encode_field(key, v, flushed, e) == Err::<(bool, EncoderView), _>(
            ErrorView::Message("cannot add attribute outside an open tag"@),
        ),
{
}

/// An optional value is absent where its element is empty, and it is
/// absent where its element is missing: the two cannot be told apart.
pub proof fn lemma_optional_absent(inner: Shape, d: DecoderView)
    requires
        d.head() matches Some(EventView::EndElement { .. }),
    ensures
        decode(Shape::Optional(Box::new(inner)), d) == Ok::<_, ErrorView>((ValueView::Absent, d)),
        missing(Shape::Optional(Box::new(inner))) == Some(ValueView::Absent),
{
}

/// A record whose fields are all attributes makes an element without a
/// body: its start tag with the attributes and at once its end tag.
pub proof fn lemma_attributes_only(name: Seq<char>, fields: Seq<EntryView>, from: int)
    requires
        forall|i: int| 0 <= i < fields.len() ==> is_attribute_key((#[trigger] fields[i]).key),
    ensures
        body_of(fields, from) == Seq::<EventView>::empty(),
        from == 0 ==> element(name, ValueView::Struct { name, fields }) == seq![
            start(name, attributes_of(fields, 0)),
            end(name),
        ],
    decreases fields.len() - from,
{
    if 0 <= from < fields.len() {
        lemma_attributes_only(name, fields, from + 1);
        assert(field_of(fields[from].key, fields[from].value) =~= Seq::<EventView>::empty());
        assert(body_of(fields, from) =~= field_of(fields[from].key, fields[from].value)
            + body_of(fields, from + 1));
    }
    if from == 0 {
        let v = ValueView::Struct { name, fields };
        assert(content(v) == body_of(fields, 0));
        assert(attributes(v) == attributes_of(fields, 0));
        assert(element(name, v) =~= seq![start(name, attributes_of(fields, 0)), end(name)]);
    }
}

} // verus!
