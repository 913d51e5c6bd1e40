//! What the decoder reads from the events of a value that fits a shape:
//! the value.

use vstd::prelude::*;
use crate::de::map::{MapView, text_key};
use crate::de::semantics::{
    assemble, decode, decode_enum, decode_fields, decode_items, decode_map, decode_pairs,
    decode_plain, decode_seq, decode_struct, decode_tokens, decode_tuple, field_from,
    map_begin, missing, no_slots, variant_from,
};
use crate::de::seq::SeqView;
use crate::de::DecoderView;
use crate::error::ErrorView;
use crate::event::{AttributeView, EventView};
use crate::ser::semantics::{is_attribute_key, plain_text};
use crate::source::{head, replayed, settle, tail};
use crate::symmetry::written::{lemma_attribute_key, lemma_attributes_over};
use crate::symmetry::{
    attributes, attributes_of, body_of, content, distinct_keys, element, end, entries_of,
    field_fits, field_of, fields_fit, fits, items_of, plain_fits, scalar_fits, start,
    text_events, texts_of, tuple_fits,
};
use crate::text::{
    is_token, joined, lemma_decimal_signed, lemma_decimal_token, lemma_decimal_unsigned,
    lemma_tokens_of_joined, lemma_truth,
};
use crate::value::{ContentView, EntryView, FieldShape, Shape, ValueView, VariantShape};

verus! {

/// What comes first in a stream of events that are all there, and what
/// is left behind it.
pub proof fn lemma_replayed(events: Seq<EventView>)
    ensures
        events.len() > 0 ==> head(replayed(events)) == Some(events[0]) && tail(replayed(events))
            == replayed(events.skip(1)),
        events.len() == 0 ==> head(replayed(events)) == Some(EventView::EndDocument) && tail(
            replayed(events),
        ) == replayed(events),
        replayed(events).len() == events.len(),
{
}

/// A reader sees all of a stream of events that are all there, none of
/// which it can pass over and none of which ends the document.
pub proof fn lemma_settle_replayed(events: Seq<EventView>)
    requires
        forall|i: int|
            0 <= i < events.len() ==> !(#[trigger] events[i]).ignorable() && !(events[i]
                is EndDocument),
    ensures
        settle(replayed(events)) == replayed(events),
    decreases events.len(),
{
    if events.len() > 0 {
        let rest = events.skip(1);
        lemma_settle_replayed(rest);
        assert(replayed(events).skip(1) =~= replayed(rest));
    }
}

/// A scalar that fits a shape is read back from its text.
pub proof fn lemma_scalar_back(v: ValueView, shape: Shape)
    requires
        scalar_fits(v, shape),
    ensures
        plain_text(v) matches Ok(Some(text)) && decode_plain(shape, text) == Ok::<_, ErrorView>(v),
{
    match v {
        ValueView::Bool(b) => {
            lemma_truth(b);
        },
        ValueView::Int(i) => {
            lemma_decimal_signed(i);
        },
        ValueView::UInt(u) => {
            lemma_decimal_unsigned(u as nat);
        },
        _ => {},
    }
}

/// A value that can stand in an attribute and has a text is read back
/// from its text.
pub proof fn lemma_plain_back(v: ValueView, shape: Shape)
    requires
        plain_fits(v, shape),
        !(v is Absent),
    ensures
        plain_text(v) matches Ok(Some(text)) && decode_plain(shape, text) == Ok::<_, ErrorView>(v),
{
    match v {
        ValueView::Present(x) => {
            lemma_scalar_back(*x, *shape->Optional_0);
        },
        ValueView::Variant { .. } => {},
        _ => {
            lemma_scalar_back(v, shape);
        },
    }
}

/// The scalars of a tuple that fits are read back from their texts.
pub proof fn lemma_tokens_back(items: Seq<ValueView>, shapes: Seq<Shape>, k: int)
    requires
        tuple_fits(items, shapes),
        0 <= k <= items.len(),
    ensures
        decode_tokens(shapes.take(k), texts_of(items)) == Ok::<_, ErrorView>(items.take(k)),
    decreases k,
{
    if k == 0 {
        assert(items.take(0) =~= Seq::empty());
    } else {
        lemma_tokens_back(items, shapes, k - 1);
        assert(shapes.take(k).drop_last() =~= shapes.take(k - 1));
        lemma_scalar_back(items[k - 1], shapes[k - 1]);
        assert(items.take(k - 1).push(items[k - 1]) =~= items.take(k));
    }
}

/// The text of every scalar of a tuple that fits is a single token.
pub proof fn lemma_tuple_tokens(items: Seq<ValueView>, shapes: Seq<Shape>)
    requires
        tuple_fits(items, shapes),
    ensures
        forall|i: int| 0 <= i < items.len() ==> is_token(#[trigger] texts_of(items)[i]),
{
    assert forall|i: int| 0 <= i < items.len() implies is_token(#[trigger] texts_of(items)[i]) by {
        assert(scalar_fits(items[i], shapes[i]));
        match items[i] {
            ValueView::Bool(b) => {
                lemma_truth(b);
            },
            ValueView::Int(v) => {
                lemma_decimal_token(v);
            },
            ValueView::UInt(v) => {
                lemma_decimal_token(v);
            },
            _ => {},
        }
    }
}

/// A tuple that fits is read back from the text that it makes.
pub proof fn lemma_tuple_back(
    items: Seq<ValueView>,
    shapes: Seq<Shape>,
    d: DecoderView,
    more: Seq<EventView>,
)
    requires
        tuple_fits(items, shapes),
        d.stream == replayed(seq![EventView::Characters(joined(texts_of(items)))] + more),
    ensures
        decode_tuple(shapes, d) == Ok::<_, ErrorView>(
            (items, DecoderView { stream: replayed(more), ..d }),
        ),
{
    let events = seq![EventView::Characters(joined(texts_of(items)))] + more;
    lemma_replayed(events);
    assert(events.skip(1) =~= more);
    lemma_tuple_tokens(items, shapes);
    lemma_tokens_of_joined(texts_of(items));
    lemma_tokens_back(items, shapes, items.len() as int);
    assert(shapes.take(items.len() as int) =~= shapes);
    assert(items.take(items.len() as int) =~= items);
}

/// The place of a key among fields none of which shares it.
pub proof fn lemma_field_found(shapes: Seq<FieldShape>, fields: Seq<EntryView>, at: int, from: int)
    requires
        fields.len() == shapes.len(),
        distinct_keys(fields),
        forall|i: int| 0 <= i < fields.len() ==> (#[trigger] fields[i]).key == shapes[i].key@,
        0 <= from <= at < fields.len(),
    ensures
        field_from(shapes, fields[at].key, from) == Some(at),
    decreases at - from,
{
    if from < at {
        assert(fields[from].key != fields[at].key);
        lemma_field_found(shapes, fields, at, from + 1);
    }
}

/// Whether events begin with the start tag of an element named `key`.
pub open spec fn led_by(events: Seq<EventView>, key: Seq<char>) -> bool {
    events.len() > 0 && events[0] is StartElement && events[0]->StartElement_name == key
}

/// Whether a field shows in the document of its record: an attribute and
/// the text of the element unless absent, a child unless it is a sequence
/// without items.
pub open spec fn shown(key: Seq<char>, v: ValueView) -> bool {
    if is_attribute_key(key) || key == text_key() {
        !(v is Absent)
    } else {
        !(v is Sequence && v->Sequence_0.len() == 0)
    }
}

/// What the fields of a record from `from` on make does not begin with
/// an element under a key that none of them has.
pub proof fn lemma_not_led(fields: Seq<EntryView>, shapes: Seq<FieldShape>, from: int, key: Seq<char>, more: Seq<EventView>)
    requires
        fields_fit(fields, shapes),
        0 <= from <= fields.len(),
        forall|j: int| from <= j < fields.len() ==> (#[trigger] fields[j]).key != key,
        more.len() > 0,
        more[0] is EndElement,
    ensures
        !led_by(body_of(fields, from) + more, key),
        (body_of(fields, from) + more).len() > 0,
    decreases fields.len() - from,
{
    if from < fields.len() {
        let k = fields[from].key;
        let v = fields[from].value;
        let first = field_of(k, v);
        lemma_not_led(fields, shapes, from + 1, key, more);
    }
}

/// What the fields of a record from `from` on make does not begin with
/// an end tag.
pub proof fn lemma_body_head(fields: Seq<EntryView>, shapes: Seq<FieldShape>, from: int)
    requires
        fields_fit(fields, shapes),
        0 <= from <= fields.len(),
        body_of(fields, from).len() > 0,
    ensures
        !(body_of(fields, from)[0] is EndElement),
    decreases fields.len() - from,
{
    if from < fields.len() {
        let k = fields[from].key;
        let v = fields[from].value;
        let first = field_of(k, v);
        assert(body_of(fields, from) == first + body_of(fields, from + 1));
        assert(field_fits(k, v, shapes[from].shape));
        if first.len() == 0 {
            assert(first + body_of(fields, from + 1) =~= body_of(fields, from + 1));
            lemma_body_head(fields, shapes, from + 1);
        } else {
            assert((first + body_of(fields, from + 1))[0] == first[0]);
            if !is_attribute_key(k) && k != text_key() {
                match v {
                    ValueView::Sequence(items) => {
                        assert(first == items_of(k, items, 0));
                        assert(items.len() > 0);
                        assert(first[0] == element(k, items[0])[0]);
                    },
                    _ => {
                        assert(first == element(k, v));
                    },
                }
            }
        }
    }
}

/// The content of a value that fits does not begin with an end tag.
pub proof fn lemma_content_head(v: ValueView, shape: Shape)
    requires
        fits(v, shape),
        content(v).len() > 0,
    ensures
        !(content(v)[0] is EndElement),
    decreases v,
{
    match v {
        ValueView::Present(x) => {
            lemma_content_head(*x, *shape->Optional_0);
        },
        ValueView::Struct { name, fields } => {
            lemma_body_head(fields, shape->Struct_fields@, 0);
        },
        ValueView::Mapping(entries) => {
            assert(content(v) == entries_of(entries, 0));
            if entries.len() > 0 {
                assert(entries_of(entries, 0) == element(entries[0].key, entries[0].value)
                    + entries_of(entries, 1));
            }
        },
        ValueView::Variant { name, content: c } => {
            match c {
                ContentView::Newtype(x) => {
                    assert(content(v) == element(name, *x));
                },
                _ => {},
            }
        },
        _ => {},
    }
}

/// A decoder past the root that has `events` to read, and that no
/// sequence has left behind an end tag.
pub open spec fn reading(d: DecoderView, events: Seq<EventView>) -> bool {
    d.stream == replayed(events) && !d.root && !d.closed
}

/// Events that close the element around what comes before them.
pub open spec fn closing(more: Seq<EventView>) -> bool {
    more.len() > 0 && more[0] is EndElement
}

/// What is found for a field in the document of its record.
pub open spec fn slot_of(field: EntryView) -> Option<ValueView> {
    if shown(field.key, field.value) {
        Some(field.value)
    } else {
        None
    }
}

/// The state in which the fields from `from` on are still to be read.
pub open spec fn fields_ready(
    fields: Seq<EntryView>,
    shapes: Seq<FieldShape>,
    from: int,
    m: MapView,
    d: DecoderView,
    slots: Seq<Option<ValueView>>,
    more: Seq<EventView>,
) -> bool {
    &&& fields_fit(fields, shapes)
    &&& 0 <= from <= fields.len()
    &&& m.value is None
    &&& m.attributes == attributes_of(fields, from)
    &&& reading(d, body_of(fields, from) + more)
    &&& closing(more)
    &&& slots.len() == fields.len()
    &&& forall|j: int| from <= j < fields.len() ==> (#[trigger] slots[j]) is None
}

/// That the fields from `from` on are read as they are.
pub open spec fn fields_read(
    fields: Seq<EntryView>,
    shapes: Vec<FieldShape>,
    from: int,
    m: MapView,
    d: DecoderView,
    slots: Seq<Option<ValueView>>,
    more: Seq<EventView>,
) -> bool {
    decode_fields(shapes, m, d, slots) matches Ok((slots1, d1)) && reading(d1, more)
        && slots1.len() == fields.len() && forall|j: int|
        0 <= j < fields.len() ==> (#[trigger] slots1[j]) == (if j < from {
            slots[j]
        } else {
            slot_of(fields[j])
        })
}

/// The fields of a record are assembled from what was found for them.
pub proof fn lemma_assemble(
    fields: Seq<EntryView>,
    shapes: Seq<FieldShape>,
    slots: Seq<Option<ValueView>>,
    k: int,
)
    requires
        fields_fit(fields, shapes),
        slots.len() == fields.len(),
        forall|j: int| 0 <= j < fields.len() ==> (#[trigger] slots[j]) == slot_of(fields[j]),
        0 <= k <= fields.len(),
    ensures
        assemble(shapes.take(k), slots) == Ok::<_, ErrorView>(fields.take(k)),
    decreases k,
{
    if k == 0 {
        assert(fields.take(0) =~= Seq::empty());
    } else {
        lemma_assemble(fields, shapes, slots, k - 1);
        assert(shapes.take(k).drop_last() =~= shapes.take(k - 1));
        let f = fields[k - 1];
        if !shown(f.key, f.value) {
            if !(is_attribute_key(f.key) || f.key == text_key()) {
                assert(f.value->Sequence_0 =~= Seq::<ValueView>::empty());
            }
        }
        assert(fields.take(k - 1).push(EntryView { key: f.key, value: f.value }) =~= fields.take(
            k,
        ));
    }
}

/// A value that fits is read back from its content, up to the end tag of
/// its element.
pub proof fn lemma_decode_value(v: ValueView, shape: Shape, d: DecoderView, more: Seq<EventView>)
    requires
        fits(v, shape),
        reading(d, content(v) + more),
        d.attributes == Some(attributes(v)),
        closing(more),
    ensures
        decode(shape, d) matches Ok((w, d1)) && w == v && reading(d1, more),
    decreases v, 0nat,
{
    let events = content(v) + more;
    lemma_replayed(events);
    match v {
        ValueView::Bool(b) => {
            lemma_scalar_back(v, shape);
            assert(events.skip(1) =~= more);
        },
        ValueView::Int(i) => {
            lemma_scalar_back(v, shape);
            assert(events.skip(1) =~= more);
        },
        ValueView::UInt(u) => {
            lemma_scalar_back(v, shape);
            assert(events.skip(1) =~= more);
        },
        ValueView::Text(t) => {
            assert(events.skip(1) =~= more);
        },
        ValueView::Present(x) => {
            let inner = *shape->Optional_0;
            lemma_content_head(*x, inner);
            lemma_decode_value(*x, inner, d, more);
        },
        ValueView::Tuple(items) => {
            lemma_tuple_back(items, shape->Tuple_0@, d, more);
        },
        ValueView::Struct { name, fields } => {
            lemma_decode_record(fields, shape->Struct_fields, d, more);
        },
        ValueView::Mapping(entries) => {
            let value = *shape->Mapping_0;
            let d0 = DecoderView { attributes: None, ..d };
            assert(entries.take(0) =~= Seq::<EntryView>::empty());
            lemma_decode_pairs(
                entries,
                value,
                0,
                MapView::begin(Seq::empty()),
                d0,
                Seq::empty(),
                more,
            );
            assert(decode_map(value, d) matches Ok((all, d1)) && all == entries && reading(
                d1,
                more,
            ));
        },
        ValueView::Variant { name, content: c } => {
            lemma_decode_variant(name, c, shape->Enum_variants, d, more);
        },
        _ => {},
    }
}

/// A case that is found has the name that was looked for.
pub proof fn lemma_variant_found(variants: Seq<VariantShape>, name: Seq<char>, from: int)
    requires
        0 <= from,
    ensures
        variant_from(variants, name, from) matches Some(i) ==> from <= i < variants.len()
            && variants[i].name@ == name,
    decreases variants.len() - from,
{
    if from < variants.len() && variants[from].name@ != name {
        lemma_variant_found(variants, name, from + 1);
    }
}

/// A case of an enumeration that fits is read back from its content.
pub proof fn lemma_decode_variant(
    name: Seq<char>,
    c: ContentView,
    variants: Vec<VariantShape>,
    d: DecoderView,
    more: Seq<EventView>,
)
    requires
        fits(ValueView::Variant { name, content: c }, Shape::Enum { variants }),
        reading(d, content(ValueView::Variant { name, content: c }) + more),
        closing(more),
    ensures
        decode_enum(variants, d) matches Ok((w, d1)) && w == (ValueView::Variant {
            name,
            content: c,
        }) && reading(d1, more),
    decreases c, 0nat,
{
    let v = ValueView::Variant { name, content: c };
    let events = content(v) + more;
    lemma_replayed(events);
    let i = variant_from(variants@, name, 0)->0;
    let expected = variants@[i].content;
    match c {
        ContentView::Unit => {
            assert(events.skip(1) =~= more);
        },
        ContentView::Newtype(x) => {
            let behind = seq![end(name)] + more;
            assert(content(v) == element(name, *x));
            assert(events.skip(1) =~= content(*x) + behind);
            let d1 = d.advance().enter(name, attributes(*x));
            lemma_decode_value(*x, *expected->Newtype_0, d1, behind);
            lemma_replayed(behind);
            assert(behind.skip(1) =~= more);
        },
        ContentView::Tuple(items) => {
            let behind = seq![end(name)] + more;
            let inside = seq![EventView::Characters(joined(texts_of(items)))] + behind;
            assert(events.skip(1) =~= inside);
            let d1 = d.advance().enter(name, Seq::empty());
            lemma_tuple_back(items, expected->Tuple_0@, d1, behind);
            lemma_replayed(behind);
            assert(behind.skip(1) =~= more);
        },
        ContentView::Struct(fields) => {
            let behind = seq![end(name)] + more;
            assert(events.skip(1) =~= body_of(fields, 0) + behind);
            let d1 = d.advance().enter(name, attributes_of(fields, 0));
            lemma_decode_record(fields, expected->Struct_0, d1, behind);
            lemma_replayed(behind);
            assert(behind.skip(1) =~= more);
        },
    }
}

/// A record that fits is read back from what its fields make, up to the
/// end tag of its element.
pub proof fn lemma_decode_record(
    fields: Seq<EntryView>,
    shapes: Vec<FieldShape>,
    d: DecoderView,
    more: Seq<EventView>,
)
    requires
        fields_fit(fields, shapes@),
        reading(d, body_of(fields, 0) + more),
        d.attributes == Some(attributes_of(fields, 0)),
        closing(more),
    ensures
        decode_struct(shapes, d) matches Ok((entries, d1)) && entries == fields && reading(
            d1,
            more,
        ),
    decreases fields, fields.len() + 2,
{
    let d0 = DecoderView { attributes: None, ..d };
    let m = MapView::begin(attributes_of(fields, 0));
    let slots = no_slots(shapes@);
    lemma_decode_fields(fields, shapes, 0, m, d0, slots, more);
    let (slots1, d1) = decode_fields(shapes, m, d0, slots)->Ok_0;
    lemma_assemble(fields, shapes@, slots1, fields.len() as int);
    assert(shapes@.take(fields.len() as int) =~= shapes@);
}

/// The fields of a record from `from` on are read as they are.
pub proof fn lemma_decode_fields(
    fields: Seq<EntryView>,
    shapes: Vec<FieldShape>,
    from: int,
    m: MapView,
    d: DecoderView,
    slots: Seq<Option<ValueView>>,
    more: Seq<EventView>,
)
    requires
        fields_ready(fields, shapes@, from, m, d, slots, more),
    ensures
        fields_read(fields, shapes, from, m, d, slots, more),
    decreases fields, fields.len() - from, 1nat,
{
    if from < fields.len() {
        let key = fields[from].key;
        let v = fields[from].value;
        if !shown(key, v) {
            lemma_decode_hidden(fields, shapes, from, m, d, slots, more);
        } else if is_attribute_key(key) {
            lemma_decode_attribute(fields, shapes, from, m, d, slots, more);
        } else if key == text_key() {
            lemma_decode_text(fields, shapes, from, m, d, slots, more);
        } else if v is Sequence {
            lemma_decode_repeated(fields, shapes, from, m, d, slots, more);
        } else {
            lemma_decode_child(fields, shapes, from, m, d, slots, more);
        }
    }
}

/// A field that does not show is passed over.
pub proof fn lemma_decode_hidden(
    fields: Seq<EntryView>,
    shapes: Vec<FieldShape>,
    from: int,
    m: MapView,
    d: DecoderView,
    slots: Seq<Option<ValueView>>,
    more: Seq<EventView>,
)
    requires
        fields_ready(fields, shapes@, from, m, d, slots, more),
        from < fields.len(),
        !shown(fields[from].key, fields[from].value),
    ensures
        fields_read(fields, shapes, from, m, d, slots, more),
    decreases fields, fields.len() - from, 0nat,
{
    let key = fields[from].key;
    let v = fields[from].value;
    assert(body_of(fields, from) == field_of(key, v) + body_of(fields, from + 1));
    lemma_decode_fields(fields, shapes, from + 1, m, d, slots, more);
}

/// An attribute that shows is read back from its text.
pub proof fn lemma_decode_attribute(
    fields: Seq<EntryView>,
    shapes: Vec<FieldShape>,
    from: int,
    m: MapView,
    d: DecoderView,
    slots: Seq<Option<ValueView>>,
    more: Seq<EventView>,
)
    requires
        fields_ready(fields, shapes@, from, m, d, slots, more),
        from < fields.len(),
        shown(fields[from].key, fields[from].value),
        is_attribute_key(fields[from].key),
    ensures
        fields_read(fields, shapes, from, m, d, slots, more),
    decreases fields, fields.len() - from, 0nat,
{
    let key = fields[from].key;
    let v = fields[from].value;
    let shape = shapes@[from].shape;
    lemma_plain_back(v, shape);
    assert(m.attributes.skip(1) =~= attributes_of(fields, from + 1));
    lemma_attribute_key(key);
    lemma_field_found(shapes@, fields, from, 0);
    assert(body_of(fields, from) == field_of(key, v) + body_of(fields, from + 1));
    let m1 = MapView { attributes: attributes_of(fields, from + 1), value: None, ..m };
    let slots1 = slots.update(from, Some(v));
    lemma_decode_fields(fields, shapes, from + 1, m1, d, slots1, more);
}

/// The text of the element is read back where it shows.
pub proof fn lemma_decode_text(
    fields: Seq<EntryView>,
    shapes: Vec<FieldShape>,
    from: int,
    m: MapView,
    d: DecoderView,
    slots: Seq<Option<ValueView>>,
    more: Seq<EventView>,
)
    requires
        fields_ready(fields, shapes@, from, m, d, slots, more),
        from < fields.len(),
        shown(fields[from].key, fields[from].value),
        !is_attribute_key(fields[from].key),
        fields[from].key == text_key(),
    ensures
        fields_read(fields, shapes, from, m, d, slots, more),
    decreases fields, fields.len() - from, 0nat,
{
    let key = fields[from].key;
    let v = fields[from].value;
    let shape = shapes@[from].shape;
    lemma_plain_back(v, shape);
    lemma_attributes_over(fields, from, from);
    lemma_field_found(shapes@, fields, from, 0);
    let rest = body_of(fields, from + 1) + more;
    let events = body_of(fields, from) + more;
    assert(body_of(fields, from) == field_of(key, v) + body_of(fields, from + 1));
    lemma_replayed(events);
    assert(events.skip(1) =~= rest);
    let m1 = MapView { value: None, ..m };
    let slots1 = slots.update(from, Some(v));
    lemma_decode_fields(fields, shapes, from + 1, m1, d.advance(), slots1, more);
}

/// A child that is no sequence is read back from its element.
pub proof fn lemma_decode_child(
    fields: Seq<EntryView>,
    shapes: Vec<FieldShape>,
    from: int,
    m: MapView,
    d: DecoderView,
    slots: Seq<Option<ValueView>>,
    more: Seq<EventView>,
)
    requires
        fields_ready(fields, shapes@, from, m, d, slots, more),
        from < fields.len(),
        !is_attribute_key(fields[from].key),
        fields[from].key != text_key(),
        !(fields[from].value is Sequence),
    ensures
        fields_read(fields, shapes, from, m, d, slots, more),
    decreases fields, fields.len() - from, 0nat,
{
    let key = fields[from].key;
    let v = fields[from].value;
    let shape = shapes@[from].shape;
    lemma_attributes_over(fields, from, from);
    lemma_field_found(shapes@, fields, from, 0);
    let rest = body_of(fields, from + 1) + more;
    let events = body_of(fields, from) + more;
    assert(body_of(fields, from) == field_of(key, v) + body_of(fields, from + 1));
    let behind = seq![end(key)] + rest;
    lemma_replayed(events);
    assert(events.skip(1) =~= content(v) + behind);
    let d1 = d.advance().enter(key, attributes(v));
    lemma_decode_value(v, shape, d1, behind);
    let d2 = decode(shape, d1)->Ok_0.1;
    lemma_replayed(behind);
    assert(behind.skip(1) =~= rest);
    let m1 = MapView { end_tag: None, ..m };
    let slots1 = slots.update(from, Some(v));
    lemma_decode_fields(fields, shapes, from + 1, m1, d2.advance(), slots1, more);
}

/// A sequence with items is read back from the elements of its items.
pub proof fn lemma_decode_repeated(
    fields: Seq<EntryView>,
    shapes: Vec<FieldShape>,
    from: int,
    m: MapView,
    d: DecoderView,
    slots: Seq<Option<ValueView>>,
    more: Seq<EventView>,
)
    requires
        fields_ready(fields, shapes@, from, m, d, slots, more),
        from < fields.len(),
        shown(fields[from].key, fields[from].value),
        !is_attribute_key(fields[from].key),
        fields[from].key != text_key(),
        fields[from].value is Sequence,
    ensures
        fields_read(fields, shapes, from, m, d, slots, more),
    decreases fields, fields.len() - from, 0nat,
{
    let key = fields[from].key;
    let v = fields[from].value;
    let items = v->Sequence_0;
    let shape = shapes@[from].shape;
    let item_shape = *shape->Sequence_0;
    lemma_attributes_over(fields, from, from);
    lemma_field_found(shapes@, fields, from, 0);
    let rest = body_of(fields, from + 1) + more;
    let events = body_of(fields, from) + more;
    assert(body_of(fields, from) == field_of(key, v) + body_of(fields, from + 1));
    lemma_not_led(fields, shapes@, from + 1, key, more);
    let behind = seq![end(key)] + (items_of(key, items, 1) + rest);
    lemma_replayed(events);
    assert(events.skip(1) =~= content(items[0]) + behind);
    let d1 = d.advance().enter(key, attributes(items[0]));
    lemma_decode_value(items[0], item_shape, d1, behind);
    let d2 = decode(item_shape, d1)->Ok_0.1;
    let q = SeqView { tag: key, first: false };
    assert(Seq::<ValueView>::empty().push(items[0]) =~= items.take(1));
    lemma_decode_items(items, item_shape, 1, q, d2, rest);
    let d3 = decode_items(item_shape, q, d2, items.take(1))->Ok_0.1;
    assert(decode_seq(item_shape, d1) == Ok::<_, ErrorView>((items, d3)));
    assert(decode(shape, d1) == Ok::<_, ErrorView>((v, d3)));
    let m1 = MapView { end_tag: None, ..m };
    let slots1 = slots.update(from, Some(v));
    let d4 = DecoderView { closed: false, ..d3 };
    lemma_decode_fields(fields, shapes, from + 1, m1, d4, slots1, more);
}

/// The items of a sequence from `from` on are read back, behind the end
/// tag of the item before them.
pub proof fn lemma_decode_items(
    items: Seq<ValueView>,
    shape: Shape,
    from: int,
    q: SeqView,
    d: DecoderView,
    rest: Seq<EventView>,
)
    requires
        forall|i: int| 0 <= i < items.len() ==> fits(#[trigger] items[i], shape),
        1 <= from <= items.len(),
        !q.first,
        reading(d, seq![end(q.tag)] + (items_of(q.tag, items, from) + rest)),
        rest.len() > 0,
        !led_by(rest, q.tag),
    ensures
        decode_items(shape, q, d, items.take(from)) matches Ok((all, d1)) && all == items
            && d1.stream == replayed(rest) && !d1.root && d1.closed,
    decreases items, items.len() - from,
{
    let key = q.tag;
    let events = seq![end(key)] + (items_of(key, items, from) + rest);
    lemma_replayed(events);
    assert(events.skip(1) =~= items_of(key, items, from) + rest);
    let d0 = d.advance();
    if from < items.len() {
        let item = items[from];
        let behind = seq![end(key)] + (items_of(key, items, from + 1) + rest);
        assert(items_of(key, items, from) == element(key, item) + items_of(key, items, from + 1));
        let inside = items_of(key, items, from) + rest;
        lemma_replayed(inside);
        assert(inside.skip(1) =~= content(item) + behind);
        let d1 = d0.advance().enter(key, attributes(item));
        lemma_decode_value(item, shape, d1, behind);
        let d2 = decode(shape, d1)->Ok_0.1;
        assert(items.take(from).push(item) =~= items.take(from + 1));
        lemma_decode_items(items, shape, from + 1, q, d2, rest);
    }
}

/// The entries of a map from `from` on are read back from their
/// elements.
pub proof fn lemma_decode_pairs(
    entries: Seq<EntryView>,
    value: Shape,
    from: int,
    m: MapView,
    d: DecoderView,
    read: Seq<EntryView>,
    more: Seq<EventView>,
)
    requires
        forall|i: int| 0 <= i < entries.len() ==> fits((#[trigger] entries[i]).value, value),
        0 <= from <= entries.len(),
        m.value is None,
        m.attributes.len() == 0,
        reading(d, entries_of(entries, from) + more),
        closing(more),
        read == entries.take(from),
    ensures
        decode_pairs(value, m, d, read) matches Ok((all, d1)) && all == entries && reading(
            d1,
            more,
        ),
    decreases entries, entries.len() - from,
{
    let events = entries_of(entries, from) + more;
    lemma_replayed(events);
    if from < entries.len() {
        let key = entries[from].key;
        let v = entries[from].value;
        let rest = entries_of(entries, from + 1) + more;
        let behind = seq![end(key)] + rest;
        assert(entries_of(entries, from) == element(key, v) + entries_of(entries, from + 1));
        assert(events.skip(1) =~= content(v) + behind);
        let d1 = d.advance().enter(key, attributes(v));
        lemma_decode_value(v, value, d1, behind);
        let d2 = decode(value, d1)->Ok_0.1;
        lemma_replayed(behind);
        assert(behind.skip(1) =~= rest);
        let m1 = MapView { end_tag: None, ..m };
        assert(read.push(EntryView { key, value: v }) =~= entries.take(from + 1));
        lemma_decode_pairs(entries, value, from + 1, m1, d2.advance(), entries.take(from + 1), more);
    }
}

} // verus!
