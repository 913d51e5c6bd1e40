//! No decoding leaves more to read than it found.

use vstd::prelude::*;
use crate::de::map::MapView;
use crate::de::semantics::{
    Decoded, decode, decode_enum, decode_fields, decode_items, decode_map, decode_pairs,
    decode_seq, decode_struct, field_from, map_begin, variant_from, within,
};
use crate::de::seq::SeqView;
use crate::de::DecoderView;
use crate::event::EventView;
use crate::value::{ContentShape, EntryView, FieldShape, Shape, ValueView, VariantShape};

verus! {

/// Whether an outcome left no more to read than there was in `d`.
pub open spec fn shrinks<T>(r: Decoded<T>, d: DecoderView) -> bool {
    r matches Ok((_, d1)) ==> d1.stream.len() <= d.stream.len()
}

/// An outcome that left no more to read than there was is what `within`
/// makes of it.
pub proof fn lemma_within<T>(r: Decoded<T>, d: DecoderView)
    requires
        shrinks(r, d),
    ensures
        within(r, d) == r,
{
}

/// Decoding a value leaves no more to read than there was.
pub proof fn lemma_decode_shrinks(shape: Shape, d: DecoderView)
    ensures
        shrinks(decode(shape, d), d),
        within(decode(shape, d), d) == decode(shape, d),
    decreases d.stream.len(), shape, 2nat, 0nat,
{
    match shape {
        Shape::Optional(inner) => {
            lemma_decode_shrinks(*inner, d);
        },
        Shape::Sequence(element) => {
            lemma_seq_shrinks(*element, d);
        },
        Shape::Struct { name, fields } => {
            lemma_struct_shrinks(fields, d);
        },
        Shape::Mapping(value) => {
            lemma_map_shrinks(*value, d);
        },
        Shape::Enum { variants } => {
            lemma_enum_shrinks(variants, d);
        },
        Shape::Any => {
            lemma_map_shrinks(shape, d);
        },
        _ => {},
    }
}

/// Decoding a sequence leaves no more to read than there was.
pub proof fn lemma_seq_shrinks(element: Shape, d: DecoderView)
    ensures
        shrinks(decode_seq(element, d), d),
    decreases d.stream.len(), element, 4nat, 0nat,
{
    match SeqView::begin(d) {
        Ok(q) => {
            lemma_items_shrink(element, q, d, Seq::empty());
        },
        Err(_) => {},
    }
}

/// Decoding the elements of a sequence leaves no more to read than there
/// was.
pub proof fn lemma_items_shrink(element: Shape, q: SeqView, d: DecoderView, items: Seq<ValueView>)
    ensures
        shrinks(decode_items(element, q, d, items), d),
    decreases d.stream.len(), element, 3nat, (if q.first {
        1nat
    } else {
        0nat
    }),
{
    match q.next_element(d) {
        Ok((more, q1, d1)) => {
            if more {
                match within(decode(element, d1), d1) {
                    Ok((v, d2)) => {
                        lemma_items_shrink(element, q1, d2, items.push(v));
                    },
                    Err(_) => {},
                }
            }
        },
        Err(_) => {},
    }
}

/// Decoding a record leaves no more to read than there was.
pub proof fn lemma_struct_shrinks(fields: Vec<FieldShape>, d: DecoderView)
    ensures
        shrinks(decode_struct(fields, d), d),
    decreases d.stream.len(), fields, 1nat, 0nat,
{
    match map_begin(d) {
        Ok((root_tag, attributes, d1)) => {
            let m = MapView::begin(attributes);
            let slots = crate::de::semantics::no_slots(fields@);
            lemma_fields_shrink(fields, m, d1, slots);
        },
        Err(_) => {},
    }
}

/// Decoding the fields of a record leaves no more to read than there
/// was.
pub proof fn lemma_fields_shrink(
    fields: Vec<FieldShape>,
    m: MapView,
    d: DecoderView,
    slots: Seq<Option<ValueView>>,
)
    ensures
        shrinks(decode_fields(fields, m, d, slots), d),
    decreases d.stream.len(), fields, 0nat, m.attributes.len(),
{
    match m.next_key(d) {
        Ok((Some(key), m1, d1)) => {
            let at = field_from(fields@, key, 0);
            let shape = match at {
                Some(i) => fields@[i].shape,
                None => Shape::Any,
            };
            if !(at is Some && slots[at->0] is Some) {
                let put = |v: ValueView|
                    match at {
                        Some(i) => slots.update(i, Some(v)),
                        None => slots,
                    };
                match m1.value {
                    Some(text) => match crate::de::semantics::decode_plain(shape, text) {
                        Ok(v) => {
                            lemma_fields_shrink(
                                fields,
                                MapView { value: None, ..m1 },
                                d1,
                                put(v),
                            );
                        },
                        Err(_) => {},
                    },
                    None => {
                        match within(decode(shape, d1), d1) {
                            Ok((v, d2)) => match m1.finish_value(d2) {
                                Ok((m2, d3)) => {
                                    lemma_fields_shrink(fields, m2, d3, put(v));
                                },
                                Err(_) => {},
                            },
                            Err(_) => {},
                        }
                    },
                }
            }
        },
        _ => {},
    }
}

/// Decoding a map leaves no more to read than there was.
pub proof fn lemma_map_shrinks(value: Shape, d: DecoderView)
    ensures
        shrinks(decode_map(value, d), d),
    decreases d.stream.len(), value, 1nat, 0nat,
{
    match map_begin(d) {
        Ok((root_tag, attributes, d1)) => {
            lemma_pairs_shrink(value, MapView::begin(attributes), d1, Seq::empty());
        },
        Err(_) => {},
    }
}

/// Decoding the entries of a map leaves no more to read than there was.
pub proof fn lemma_pairs_shrink(
    value: Shape,
    m: MapView,
    d: DecoderView,
    entries: Seq<EntryView>,
)
    ensures
        shrinks(decode_pairs(value, m, d, entries), d),
    decreases d.stream.len(), value, 0nat, m.attributes.len(),
{
    match m.next_key(d) {
        Ok((Some(key), m1, d1)) => match m1.value {
            Some(text) => match crate::de::semantics::decode_plain(value, text) {
                Ok(v) => {
                    lemma_pairs_shrink(
                        value,
                        MapView { value: None, ..m1 },
                        d1,
                        entries.push(EntryView { key, value: v }),
                    );
                },
                Err(_) => {},
            },
            None => {
                match within(decode(value, d1), d1) {
                    Ok((v, d2)) => match m1.finish_value(d2) {
                        Ok((m2, d3)) => {
                            lemma_pairs_shrink(
                                value,
                                m2,
                                d3,
                                entries.push(EntryView { key, value: v }),
                            );
                        },
                        Err(_) => {},
                    },
                    Err(_) => {},
                }
            },
        },
        _ => {},
    }
}

/// Decoding a case of an enumeration leaves no more to read than there
/// was.
pub proof fn lemma_enum_shrinks(variants: Vec<VariantShape>, d: DecoderView)
    ensures
        shrinks(decode_enum(variants, d), d),
    decreases d.stream.len(), variants, 1nat, 0nat,
{
    match d.head() {
        Some(EventView::StartElement { .. }) => match d.open_tag() {
            Ok((name, d1)) => match variant_from(variants@, name, 0) {
                Some(i) => match variants@[i].content {
                    ContentShape::Newtype(inner) => {
                        lemma_decode_shrinks(*inner, d1);
                    },
                    ContentShape::Struct(fields) => {
                        lemma_struct_shrinks(fields, d1);
                    },
                    _ => {},
                },
                None => {},
            },
            Err(_) => {},
        },
        _ => {},
    }
}

} // verus!
