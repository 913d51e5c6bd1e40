//! What decoding means: the value of a shape that a stream of events
//! holds, as a function of the decoder's state.

use vstd::prelude::*;
use crate::de::map::MapView;
use crate::de::seq::SeqView;
use crate::de::tuple::tuple_begin;
use crate::de::var::expected_unit_variant;
use crate::de::DecoderView;
use crate::error::Outcome;
use crate::error::ErrorView;
use crate::event::{AttributeView, EventView};
use crate::source::{Stream, settle};
use crate::text::{read_bool, read_i64, read_u64};
use crate::value::{ContentShape, ContentView, EntryView, FieldShape, Shape, ValueView, VariantShape};

verus! {

/// The outcome of decoding a part of the stream: what was decoded and the
/// state behind it.
pub type Decoded<T> = Outcome<(T, DecoderView)>;

/// The outcome `r` of a decoding that began in `d`. No decoding leaves
/// more to read than it found (`progress::lemma_decode_shrinks`), so this
/// is `r`; that it says so makes plain that the definitions below come to
/// an end.
pub open spec fn within<T>(r: Decoded<T>, d: DecoderView) -> Decoded<T> {
    match r {
        Ok((_, d1)) => if d1.stream.len() <= d.stream.len() {
            r
        } else {
            Err(ErrorView::Message("the stream grew"@))
        },
        Err(_) => r,
    }
}

/// The first field from `from` on that has the key `key`.
pub open spec fn field_from(fields: Seq<FieldShape>, key: Seq<char>, from: int) -> Option<int>
    decreases fields.len() - from,
{
    if from < 0 || from >= fields.len() {
        None
    } else if fields[from].key@ == key {
        Some(from)
    } else {
        field_from(fields, key, from + 1)
    }
}

/// The first case from `from` on that has the name `name`.
pub open spec fn variant_from(variants: Seq<VariantShape>, name: Seq<char>, from: int) -> Option<
    int,
>
    decreases variants.len() - from,
{
    if from < 0 || from >= variants.len() {
        None
    } else if variants[from].name@ == name {
        Some(from)
    } else {
        variant_from(variants, name, from + 1)
    }
}

/// The error for a name that no case has.
pub open spec fn unknown_variant(name: Seq<char>) -> ErrorView {
    ErrorView::Message("unknown variant "@ + name)
}

/// The error for a field that the document lacks.
pub open spec fn missing_field(key: Seq<char>) -> ErrorView {
    ErrorView::Message("missing field "@ + key)
}

/// The error for a field that the document holds twice.
pub open spec fn duplicate_field(key: Seq<char>) -> ErrorView {
    ErrorView::Message("duplicate field "@ + key)
}

/// The case without content that a text names.
pub open spec fn named_unit(variants: Seq<VariantShape>, name: Seq<char>) -> Outcome<ValueView> {
    match variant_from(variants, name, 0) {
        None => Err(unknown_variant(name)),
        Some(i) => if variants[i].content is Unit {
            Ok(ValueView::Variant { name, content: ContentView::Unit })
        } else {
            Err(expected_unit_variant())
        },
    }
}

/// The value of a shape that a text holds: a scalar in its textual form,
/// a case without content by its name; under an optional shape the value
/// is there.
pub open spec fn decode_plain(shape: Shape, text: Seq<char>) -> Outcome<ValueView>
    decreases shape,
{
    match shape {
        Shape::Text => Ok(ValueView::Text(text)),
        Shape::Any => Ok(ValueView::Text(text)),
        Shape::Bool => match read_bool(text) {
            Ok(b) => Ok(ValueView::Bool(b)),
            Err(e) => Err(e),
        },
        Shape::Int => match read_i64(text) {
            Ok(i) => Ok(ValueView::Int(i)),
            Err(e) => Err(e),
        },
        Shape::UInt => match read_u64(text) {
            Ok(u) => Ok(ValueView::UInt(u)),
            Err(e) => Err(e),
        },
        Shape::Optional(inner) => match decode_plain(*inner, text) {
            Ok(v) => Ok(ValueView::Present(Box::new(v))),
            Err(e) => Err(e),
        },
        Shape::Enum { variants } => named_unit(variants@, text),
        _ => Err(ErrorView::Message("expected a scalar"@)),
    }
}

/// The values of the shapes `shapes` that the tokens hold, position by
/// position. Tokens behind the last shape are of no concern; a shape
/// without a token is an error.
pub open spec fn decode_tokens(shapes: Seq<Shape>, tokens: Seq<Seq<char>>) -> Outcome<
    Seq<ValueView>,
>
    decreases shapes.len(),
{
    if shapes.len() == 0 {
        Ok(Seq::empty())
    } else {
        match decode_tokens(shapes.drop_last(), tokens) {
            Err(e) => Err(e),
            Ok(values) => if tokens.len() < shapes.len() {
                Err(ErrorView::Message("invalid length"@))
            } else {
                match decode_plain(shapes.last(), tokens[shapes.len() - 1]) {
                    Ok(v) => Ok(values.push(v)),
                    Err(e) => Err(e),
                }
            },
        }
    }
}

/// A scalar: one run of character data in the scalar's textual form.
pub open spec fn decode_scalar(shape: Shape, d: DecoderView) -> Decoded<ValueView> {
    match d.characters() {
        Err(e) => Err(e),
        Ok((text, d1)) => match decode_plain(shape, text) {
            Ok(v) => Ok((v, d1)),
            Err(e) => Err(e),
        },
    }
}

/// A tuple: the tokens of one run of character data.
pub open spec fn decode_tuple(shapes: Seq<Shape>, d: DecoderView) -> Decoded<Seq<ValueView>> {
    match tuple_begin(d) {
        Err(e) => Err(e),
        Ok((tokens, d1)) => match decode_tokens(shapes, tokens) {
            Ok(values) => Ok((values, d1)),
            Err(e) => Err(e),
        },
    }
}

/// Entering a map-shaped value. The first one is the root: the document
/// starts and the root tag is read, which is to be closed in the end.
/// Every other one takes the attributes of the tag context.
pub open spec fn map_begin(d: DecoderView) -> Outcome<
    (Option<Seq<char>>, Seq<AttributeView>, DecoderView),
> {
    if d.root {
        match (DecoderView { root: false, ..d }).start_document() {
            Err(e) => Err(e),
            Ok(d1) => match d1.start_tag() {
                Err(e) => Err(e),
                Ok((name, attributes, d2)) => Ok((Some(name), attributes, d2)),
            },
        }
    } else {
        Ok(
            (
                None,
                match d.attributes {
                    Some(a) => a,
                    None => Seq::empty(),
                },
                DecoderView { attributes: None, ..d },
            ),
        )
    }
}

/// Leaving a map-shaped value: behind the root its end tag and the end of
/// the document are read.
pub open spec fn map_end(root_tag: Option<Seq<char>>, d: DecoderView) -> Outcome<DecoderView> {
    match root_tag {
        None => Ok(d),
        Some(name) => match d.end_tag(name) {
            Err(e) => Err(e),
            Ok(d1) => d1.end_document(),
        },
    }
}

/// What a field holds that the document lacks: an optional value is
/// absent, a sequence is empty, and nothing else can be missing.
pub open spec fn missing(shape: Shape) -> Option<ValueView> {
    match shape {
        Shape::Optional(_) => Some(ValueView::Absent),
        Shape::Sequence(_) => Some(ValueView::Sequence(Seq::empty())),
        _ => None,
    }
}

/// The fields of a record in the order of their declaration, from the
/// values that were found for them.
pub open spec fn assemble(fields: Seq<FieldShape>, slots: Seq<Option<ValueView>>) -> Outcome<
    Seq<EntryView>,
>
    decreases fields.len(),
{
    if fields.len() == 0 {
        Ok(Seq::empty())
    } else {
        match assemble(fields.drop_last(), slots) {
            Err(e) => Err(e),
            Ok(entries) => {
                let field = fields.last();
                let found = if fields.len() <= slots.len() {
                    slots[fields.len() - 1]
                } else {
                    None
                };
                let value = match found {
                    Some(v) => Some(v),
                    None => missing(field.shape),
                };
                match value {
                    Some(v) => Ok(entries.push(EntryView { key: field.key@, value: v })),
                    None => Err(missing_field(field.key@)),
                }
            },
        }
    }
}

/// Leaving a record for whose fields the values `slots` were found.
pub open spec fn struct_end(
    fields: Seq<FieldShape>,
    root_tag: Option<Seq<char>>,
    slots: Seq<Option<ValueView>>,
    d: DecoderView,
) -> Decoded<Seq<EntryView>> {
    match assemble(fields, slots) {
        Err(e) => Err(e),
        Ok(entries) => match map_end(root_tag, d) {
            Err(e) => Err(e),
            Ok(d1) => Ok((entries, d1)),
        },
    }
}

/// Leaving a map that held the entries `entries`.
pub open spec fn pairs_end(root_tag: Option<Seq<char>>, entries: Seq<EntryView>, d: DecoderView)
    -> Decoded<Seq<EntryView>> {
    match map_end(root_tag, d) {
        Err(e) => Err(e),
        Ok(d1) => Ok((entries, d1)),
    }
}

/// As many empty slots as there are fields.
pub open spec fn no_slots(fields: Seq<FieldShape>) -> Seq<Option<ValueView>> {
    Seq::new(fields.len(), |i: int| None)
}

/// The value of the shape `shape` that the stream holds where the decoder
/// stands.
pub open spec fn decode(shape: Shape, d: DecoderView) -> Decoded<ValueView>
    decreases d.stream.len(), shape, 2nat, 0nat,
{
    match shape {
        Shape::Unit => Ok((ValueView::Unit, d)),
        Shape::Bool => decode_scalar(shape, d),
        Shape::Int => decode_scalar(shape, d),
        Shape::UInt => decode_scalar(shape, d),
        Shape::Text => decode_scalar(shape, d),
        Shape::Optional(inner) => match d.head() {
            None => Err(ErrorView::Reader),
            Some(EventView::EndElement { .. }) => Ok((ValueView::Absent, d)),
            Some(_) => match decode(*inner, d) {
                Ok((v, d1)) => Ok((ValueView::Present(Box::new(v)), d1)),
                Err(e) => Err(e),
            },
        },
        Shape::Sequence(element) => match decode_seq(*element, d) {
            Ok((items, d1)) => Ok((ValueView::Sequence(items), d1)),
            Err(e) => Err(e),
        },
        Shape::Tuple(shapes) => match decode_tuple(shapes@, d) {
            Ok((values, d1)) => Ok((ValueView::Tuple(values), d1)),
            Err(e) => Err(e),
        },
        Shape::Struct { name, fields } => match decode_struct(fields, d) {
            Ok((entries, d1)) => Ok((ValueView::Struct { name: name@, fields: entries }, d1)),
            Err(e) => Err(e),
        },
        Shape::Mapping(value) => match decode_map(*value, d) {
            Ok((entries, d1)) => Ok((ValueView::Mapping(entries), d1)),
            Err(e) => Err(e),
        },
        Shape::Enum { variants } => decode_enum(variants, d),
        Shape::Any => match d.head() {
            None => Err(ErrorView::Reader),
            Some(EventView::StartElement { .. }) => match decode_map(shape, d) {
                Ok((entries, d1)) => Ok((ValueView::Mapping(entries), d1)),
                Err(e) => Err(e),
            },
            Some(EventView::EndElement { .. }) => Ok((ValueView::Unit, d)),
            Some(_) => decode_scalar(Shape::Text, d),
        },
    }
}

/// A sequence: the elements under the tag of the tag context, as long as
/// it repeats.
pub open spec fn decode_seq(element: Shape, d: DecoderView) -> Decoded<Seq<ValueView>>
    decreases d.stream.len(), element, 4nat, 0nat,
{
    match SeqView::begin(d) {
        Err(e) => Err(e),
        Ok(q) => decode_items(element, q, d, Seq::empty()),
    }
}

/// The value of the shape `shape` that a whole stream holds: what a new
/// decoder finds in what a reader sees of the stream.
pub open spec fn decode_document(shape: Shape, stream: Stream) -> Outcome<ValueView> {
    match decode(shape, DecoderView::begin(settle(stream))) {
        Ok((v, _)) => Ok(v),
        Err(e) => Err(e),
    }
}

/// The elements of a sequence from where the decoder stands, behind the
/// elements `items`.
pub open spec fn decode_items(element: Shape, q: SeqView, d: DecoderView, items: Seq<ValueView>)
    -> Decoded<Seq<ValueView>>
    decreases d.stream.len(), element, 3nat, (if q.first { 1nat } else { 0nat }),
{
    match q.next_element(d) {
        Err(e) => Err(e),
        Ok((more, q1, d1)) => if !more {
            Ok((items, d1))
        } else {
            match within(decode(element, d1), d1) {
                Err(e) => Err(e),
                Ok((v, d2)) => decode_items(element, q1, d2, items.push(v)),
            }
        },
    }
}

/// A record with the fields `fields`.
pub open spec fn decode_struct(fields: Vec<FieldShape>, d: DecoderView) -> Decoded<
    Seq<EntryView>,
>
    decreases d.stream.len(), fields, 1nat, 0nat,
{
    match map_begin(d) {
        Err(e) => Err(e),
        Ok((root_tag, attributes, d1)) => match decode_fields(
            fields,
            MapView::begin(attributes),
            d1,
            no_slots(fields@),
        ) {
            Err(e) => Err(e),
            Ok((slots, d2)) => struct_end(fields@, root_tag, slots, d2),
        },
    }
}

/// The values of the fields `fields` from where the map access stands,
/// beside the values `slots` that were found already. A key that no field
/// has is passed over with its value; a key that comes twice is an error.
pub open spec fn decode_fields(
    fields: Vec<FieldShape>,
    m: MapView,
    d: DecoderView,
    slots: Seq<Option<ValueView>>,
) -> Decoded<Seq<Option<ValueView>>>
    decreases d.stream.len(), fields, 0nat, m.attributes.len(),
{
    match m.next_key(d) {
        Err(e) => Err(e),
        Ok((None, _, d1)) => Ok((slots, d1)),
        Ok((Some(key), m1, d1)) => {
            let at = field_from(fields@, key, 0);
            let shape = match at {
                Some(i) => fields[i].shape,
                None => Shape::Any,
            };
            if at is Some && slots[at->0] is Some {
                Err(duplicate_field(key))
            } else {
                let put = |v: ValueView|
                    match at {
                        Some(i) => slots.update(i, Some(v)),
                        None => slots,
                    };
                match m1.value {
                    Some(text) => match decode_plain(shape, text) {
                        Err(e) => Err(e),
                        Ok(v) => decode_fields(
                            fields,
                            MapView { value: None, ..m1 },
                            d1,
                            put(v),
                        ),
                    },
                    None => match within(decode(shape, d1), d1) {
                        Err(e) => Err(e),
                        Ok((v, d2)) => match m1.finish_value(d2) {
                            Err(e) => Err(e),
                            Ok((m2, d3)) => decode_fields(fields, m2, d3, put(v)),
                        },
                    },
                }
            }
        },
    }
}

/// A map whose values have the shape `value`.
pub open spec fn decode_map(value: Shape, d: DecoderView) -> Decoded<Seq<EntryView>>
    decreases d.stream.len(), value, 1nat, 0nat,
{
    match map_begin(d) {
        Err(e) => Err(e),
        Ok((root_tag, attributes, d1)) => match decode_pairs(
            value,
            MapView::begin(attributes),
            d1,
            Seq::empty(),
        ) {
            Err(e) => Err(e),
            Ok((entries, d2)) => pairs_end(root_tag, entries, d2),
        },
    }
}

/// The entries of a map from where the map access stands, behind the
/// entries `entries`.
pub open spec fn decode_pairs(
    value: Shape,
    m: MapView,
    d: DecoderView,
    entries: Seq<EntryView>,
) -> Decoded<Seq<EntryView>>
    decreases d.stream.len(), value, 0nat, m.attributes.len(),
{
    match m.next_key(d) {
        Err(e) => Err(e),
        Ok((None, _, d1)) => Ok((entries, d1)),
        Ok((Some(key), m1, d1)) => match m1.value {
            Some(text) => match decode_plain(value, text) {
                Err(e) => Err(e),
                Ok(v) => decode_pairs(
                    value,
                    MapView { value: None, ..m1 },
                    d1,
                    entries.push(EntryView { key, value: v }),
                ),
            },
            None => match within(decode(value, d1), d1) {
                Err(e) => Err(e),
                Ok((v, d2)) => match m1.finish_value(d2) {
                    Err(e) => Err(e),
                    Ok((m2, d3)) => decode_pairs(
                        value,
                        m2,
                        d3,
                        entries.push(EntryView { key, value: v }),
                    ),
                },
            },
        },
    }
}

/// A case of an enumeration: a start tag names a case that holds
/// something, and its element is left behind the content; a text names a
/// case that holds nothing.
pub open spec fn decode_enum(variants: Vec<VariantShape>, d: DecoderView) -> Decoded<ValueView>
    decreases d.stream.len(), variants, 1nat, 0nat,
{
    match d.head() {
        None => Err(ErrorView::Reader),
        Some(EventView::StartElement { .. }) => match d.open_tag() {
            Err(e) => Err(e),
            Ok((name, d1)) => match variant_from(variants@, name, 0) {
                None => Err(unknown_variant(name)),
                Some(i) => {
                    let content: Decoded<ContentView> = match variants[i].content {
                        ContentShape::Unit => Err(ErrorView::Message("expected variant content"@)),
                        ContentShape::Newtype(inner) => match decode(*inner, d1) {
                            Ok((v, d2)) => Ok((ContentView::Newtype(Box::new(v)), d2)),
                            Err(e) => Err(e),
                        },
                        ContentShape::Tuple(shapes) => match decode_tuple(shapes@, d1) {
                            Ok((values, d2)) => Ok((ContentView::Tuple(values), d2)),
                            Err(e) => Err(e),
                        },
                        ContentShape::Struct(fields) => match decode_struct(fields, d1) {
                            Ok((entries, d2)) => Ok((ContentView::Struct(entries), d2)),
                            Err(e) => Err(e),
                        },
                    };
                    match content {
                        Err(e) => Err(e),
                        Ok((c, d2)) => match d2.finish_element(name) {
                            Err(e) => Err(e),
                            Ok(d3) => Ok((ValueView::Variant { name, content: c }, d3)),
                        },
                    }
                },
            },
        },
        Some(EventView::Characters(_)) => match d.characters() {
            Err(e) => Err(e),
            Ok((text, d1)) => match named_unit(variants@, text) {
                Ok(v) => Ok((v, d1)),
                Err(e) => Err(e),
            },
        },
        Some(_) => Err(ErrorView::Message("expected enum value"@)),
    }
}

} // verus!
