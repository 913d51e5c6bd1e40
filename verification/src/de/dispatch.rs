//! Decoding by shape: what the decoder does where a value of a given
//! shape is asked for.

use vstd::prelude::*;
use crate::de::map::{MapAccess, MapView};
use crate::de::plain::find_variant;
use crate::de::plain::unit_variant_named;
use crate::de::semantics::{
    assemble, decode, decode_enum, decode_fields, decode_items, decode_map, decode_pairs,
    decode_scalar, decode_seq, decode_struct, decode_tokens, decode_tuple, field_from,
    missing, missing_field, no_slots, pairs_end, struct_end,
};
use crate::text::text_view;
use crate::de::seq::SeqAccess;
use crate::de::tuple::TupleAccess;
use crate::de::var::{UnitVariantAccess, VariantAccess};
use crate::de::{DecoderView, Deserializer, Route};
use crate::error::{ErrorView, Result, message, named};
use crate::list::reversed;
use crate::text::{parse_i64, parse_truth, parse_u64};
use crate::value::{
    Content, ContentShape, ContentView, Entry, EntryView, FieldShape, Shape, Value, ValueView,
    VariantShape, entries_view, values_view,
};

verus! {

/// The values that were found for the fields of a record.
pub open spec fn slots_view(slots: Seq<Option<Value>>) -> Seq<Option<ValueView>> {
    Seq::new(
        slots.len(),
        |i: int|
            match slots[i] {
                Some(v) => Some(v@),
                None => None,
            },
    )
}

/// The first field that has the key `key`.
pub fn find_field(fields: &Vec<FieldShape>, key: &str) -> (r: Option<usize>)
    ensures
        match r {
            Some(i) => field_from(fields@, key@, 0) == Some(i as int) && i < fields@.len(),
            None => field_from(fields@, key@, 0) is None,
        },
{
    let wanted = String::from_str(key);
    let mut i: usize = 0;
    while i < fields.len()
        invariant
            i <= fields.len(),
            wanted@ == key@,
            field_from(fields@, key@, i as int) == field_from(fields@, key@, 0),
        decreases fields.len() - i,
    {
        if fields[i].key == wanted {
            return Some(i);
        }
        i = i + 1;
    }
    None
}

/// An error in the tokens of the first shapes is the error of them all.
pub proof fn lemma_tokens_error(shapes: Seq<Shape>, tokens: Seq<Seq<char>>, k: int)
    requires
        0 <= k <= shapes.len(),
        decode_tokens(shapes.take(k), tokens) is Err,
    ensures
        decode_tokens(shapes, tokens) == decode_tokens(shapes.take(k), tokens),
    decreases shapes.len() - k,
{
    if k < shapes.len() {
        assert(shapes.take(k + 1).drop_last() =~= shapes.take(k));
        lemma_tokens_error(shapes, tokens, k + 1);
    } else {
        assert(shapes.take(k) =~= shapes);
    }
}

/// A field among the first ones that is missing is missing from them
/// all.
pub proof fn lemma_assemble_error(
    fields: Seq<FieldShape>,
    slots: Seq<Option<ValueView>>,
    k: int,
)
    requires
        0 <= k <= fields.len(),
        assemble(fields.take(k), slots) is Err,
    ensures
        assemble(fields, slots) == assemble(fields.take(k), slots),
    decreases fields.len() - k,
{
    if k < fields.len() {
        assert(fields.take(k + 1).drop_last() =~= fields.take(k));
        lemma_assemble_error(fields, slots, k + 1);
    } else {
        assert(fields.take(k) =~= fields);
    }
}

/// What a field holds that the document lacks.
pub fn missing_value(shape: &Shape) -> (r: Option<Value>)
    ensures
        match r {
            Some(v) => missing(*shape) == Some(v@),
            None => missing(*shape) is None,
        },
{
    match shape {
        Shape::Optional(_) => Some(Value::Absent),
        Shape::Sequence(_) => {
            let items: Vec<Value> = Vec::new();
            assert(values_view(items@) =~= Seq::empty());
            Some(Value::Sequence(items))
        },
        _ => None,
    }
}

/// The fields of a record in the order of their declaration, from the
/// values that were found for them.
fn assemble_fields(fields: &Vec<FieldShape>, slots: Vec<Option<Value>>) -> (r: Result<
    Vec<Entry>,
>)
    requires
        slots@.len() == fields@.len(),
    ensures
        match r {
            Ok(entries) => assemble(fields@, slots_view(slots@)) == Ok::<_, ErrorView>(
                entries_view(entries@),
            ),
            Err(e) => assemble(fields@, slots_view(slots@)) == Err::<Seq<EntryView>, _>(e@),
        },
{
    let ghost found = slots_view(slots@);
    let ghost given = slots@;
    let mut rest = reversed(slots);
    let mut entries: Vec<Entry> = Vec::new();
    let mut i: usize = 0;
    assert(entries_view(entries@) =~= Seq::empty());
    while i < fields.len()
        invariant
            i <= fields.len(),
            given == slots@,
            given.len() == fields@.len(),
            found == slots_view(given),
            rest@ == given.reverse().take(fields@.len() - i),
            assemble(fields@.take(i as int), found) == Ok::<_, ErrorView>(entries_view(entries@)),
        decreases fields.len() - i,
    {
        let ghost before = entries_view(entries@);
        let slot = rest.pop().unwrap();
        proof {
            assert(fields@.take(i + 1).drop_last() =~= fields@.take(i as int));
        }
        let value = match slot {
            Some(v) => Some(v),
            None => missing_value(&fields[i].shape),
        };
        match value {
            Some(v) => {
                entries.push(Entry { key: fields[i].key.clone(), value: v });
                assert(entries_view(entries@) =~= before.push(
                    EntryView { key: fields@[i as int].key@, value: v@ },
                ));
            },
            None => {
                proof {
                    lemma_assemble_error(fields@, found, i + 1);
                }
                return Err(named("missing field ", fields[i].key.as_str()));
            },
        }
        i = i + 1;
    }
    assert(fields@.take(i as int) =~= fields@);
    Ok(entries)
}

/// Whether a map access has come nearer to its end: less of the stream is
/// left, or as much of it and fewer attributes.
pub open spec fn nearer(d: DecoderView, m: MapView, d0: DecoderView, m0: MapView) -> bool {
    d.stream.len() < d0.stream.len() || (d.stream.len() == d0.stream.len() && m.attributes.len()
        < m0.attributes.len())
}

/// As many empty slots as there are fields.
pub fn empty_slots(fields: &Vec<FieldShape>) -> (slots: Vec<Option<Value>>)
    ensures
        slots@.len() == fields@.len(),
        slots_view(slots@) == no_slots(fields@),
{
    let mut slots: Vec<Option<Value>> = Vec::new();
    while slots.len() < fields.len()
        invariant
            slots@.len() <= fields@.len(),
            forall|i: int| 0 <= i < slots@.len() ==> slots@[i] is None,
        decreases fields.len() - slots.len(),
    {
        slots.push(None);
    }
    slots
}

/// The values of the shapes `shapes` that the tokens of a tuple hold.
fn tuple_values(shapes: &Vec<Shape>, access: TupleAccess) -> (r: Result<Vec<Value>>)
    ensures
        match r {
            Ok(values) => decode_tokens(shapes@, access@) == Ok::<_, ErrorView>(
                values_view(values@),
            ),
            Err(e) => decode_tokens(shapes@, access@) == Err::<Seq<ValueView>, _>(e@),
        },
{
    let ghost tokens = access@;
    let mut rest = access;
    let mut values: Vec<Value> = Vec::new();
    let mut i: usize = 0;
    assert(values_view(values@) =~= Seq::empty());
    while i < shapes.len()
        invariant
            i <= shapes.len(),
            i <= tokens.len(),
            tokens == access@,
            rest@ == tokens.skip(i as int),
            decode_tokens(shapes@.take(i as int), tokens) == Ok::<_, ErrorView>(
                values_view(values@),
            ),
        decreases shapes.len() - i,
    {
        let ghost before = values_view(values@);
        proof {
            assert(shapes@.take(i + 1).drop_last() =~= shapes@.take(i as int));
        }
        match rest.next_element() {
            None => {
                proof {
                    lemma_tokens_error(shapes@, tokens, i + 1);
                }
                return Err(message("invalid length"));
            },
            Some(plain) => {
                match plain.deserialize(&shapes[i]) {
                    Ok(v) => {
                        values.push(v);
                        assert(values_view(values@) =~= before.push(v@));
                    },
                    Err(e) => {
                        proof {
                            lemma_tokens_error(shapes@, tokens, i + 1);
                        }
                        return Err(e);
                    },
                }
            },
        }
        i = i + 1;
    }
    assert(shapes@.take(i as int) =~= shapes@);
    Ok(values)
}

impl Deserializer {
    /// Decodes the value of the shape `shape` that comes next.
    pub fn deserialize(&mut self, shape: &Shape) -> (r: Result<Value>)
        ensures
            match r {
                Ok(v) => decode(*shape, old(self)@) == Ok::<_, ErrorView>((v@, final(self)@))
                    && final(self)@.stream.len() <= old(self)@.stream.len(),
                Err(e) => decode(*shape, old(self)@) == Err::<(ValueView, DecoderView), _>(e@),
            },
        decreases old(self)@.stream.len(), *shape, 2nat, 0nat,
    {
        match shape {
            Shape::Unit => self.deserialize_unit(),
            Shape::Bool => self.deserialize_bool(),
            Shape::Int => self.deserialize_i64(),
            Shape::UInt => self.deserialize_u64(),
            Shape::Text => self.deserialize_string(),
            Shape::Optional(inner) => self.deserialize_option(inner),
            Shape::Sequence(element) => {
                let items = self.deserialize_seq(element)?;
                Ok(Value::Sequence(items))
            },
            Shape::Tuple(shapes) => {
                let values = self.deserialize_tuple(shapes)?;
                Ok(Value::Tuple(values))
            },
            Shape::Struct { name, fields } => {
                let entries = self.deserialize_struct(fields)?;
                Ok(Value::Struct { name: name.clone(), fields: entries })
            },
            Shape::Mapping(value) => {
                let entries = self.deserialize_map(value)?;
                Ok(Value::Mapping(entries))
            },
            Shape::Enum { variants } => self.deserialize_enum(variants),
            Shape::Any => self.deserialize_any(),
        }
    }

    /// Decodes whatever comes next: a map where an element begins, no
    /// content where one ends, and a text else.
    pub fn deserialize_any(&mut self) -> (r: Result<Value>)
        ensures
            match r {
                Ok(v) => decode(Shape::Any, old(self)@) == Ok::<_, ErrorView>((v@, final(self)@))
                    && final(self)@.stream.len() <= old(self)@.stream.len(),
                Err(e) => decode(Shape::Any, old(self)@) == Err::<(ValueView, DecoderView), _>(
                    e@,
                ),
            },
        decreases old(self)@.stream.len(), Shape::Any, 1nat, 1nat,
    {
        let any = Shape::Any;
        match self.any_route()? {
            Route::Mapping => {
                let entries = self.deserialize_map(&any)?;
                Ok(Value::Mapping(entries))
            },
            Route::Unit => self.deserialize_unit(),
            Route::Text => self.deserialize_string(),
        }
    }

    /// Decodes a truth value.
    pub fn deserialize_bool(&mut self) -> (r: Result<Value>)
        ensures
            match r {
                Ok(v) => decode_scalar(Shape::Bool, old(self)@) == Ok::<_, ErrorView>(
                    (v@, final(self)@),
                ) && final(self)@.stream.len() <= old(self)@.stream.len(),
                Err(e) => decode_scalar(Shape::Bool, old(self)@) == Err::<
                    (ValueView, DecoderView),
                    _,
                >(e@),
            },
    {
        let text = self.characters()?;
        Ok(Value::Bool(parse_truth(text.as_str())?))
    }

    /// Decodes a signed integer.
    pub fn deserialize_i64(&mut self) -> (r: Result<Value>)
        ensures
            match r {
                Ok(v) => decode_scalar(Shape::Int, old(self)@) == Ok::<_, ErrorView>(
                    (v@, final(self)@),
                ) && final(self)@.stream.len() <= old(self)@.stream.len(),
                Err(e) => decode_scalar(Shape::Int, old(self)@) == Err::<
                    (ValueView, DecoderView),
                    _,
                >(e@),
            },
    {
        let text = self.characters()?;
        Ok(Value::Int(parse_i64(text.as_str())?))
    }

    /// Decodes an unsigned integer.
    pub fn deserialize_u64(&mut self) -> (r: Result<Value>)
        ensures
            match r {
                Ok(v) => decode_scalar(Shape::UInt, old(self)@) == Ok::<_, ErrorView>(
                    (v@, final(self)@),
                ) && final(self)@.stream.len() <= old(self)@.stream.len(),
                Err(e) => decode_scalar(Shape::UInt, old(self)@) == Err::<
                    (ValueView, DecoderView),
                    _,
                >(e@),
            },
    {
        let text = self.characters()?;
        Ok(Value::UInt(parse_u64(text.as_str())?))
    }

    /// Decodes a text.
    pub fn deserialize_string(&mut self) -> (r: Result<Value>)
        ensures
            match r {
                Ok(v) => decode_scalar(Shape::Text, old(self)@) == Ok::<_, ErrorView>(
                    (v@, final(self)@),
                ) && final(self)@.stream.len() <= old(self)@.stream.len(),
                Err(e) => decode_scalar(Shape::Text, old(self)@) == Err::<
                    (ValueView, DecoderView),
                    _,
                >(e@),
            },
    {
        let text = self.characters()?;
        Ok(Value::Text(text))
    }

    /// Decodes the value without content: nothing is read.
    pub fn deserialize_unit(&mut self) -> (r: Result<Value>)
        ensures
            r matches Ok(v) && v@ == ValueView::Unit,
            final(self)@ == old(self)@,
    {
        Ok(Value::Unit)
    }

    /// Decodes an optional value: it is absent where an end tag comes
    /// next, and there otherwise.
    pub fn deserialize_option(&mut self, inner: &Shape) -> (r: Result<Value>)
        ensures
            match r {
                Ok(v) => decode(Shape::Optional(Box::new(*inner)), old(self)@) == Ok::<
                    _,
                    ErrorView,
                >((v@, final(self)@)) && final(self)@.stream.len() <= old(self)@.stream.len(),
                Err(e) => decode(Shape::Optional(Box::new(*inner)), old(self)@) == Err::<
                    (ValueView, DecoderView),
                    _,
                >(e@),
            },
        decreases old(self)@.stream.len(), *inner, 2nat, 1nat,
    {
        if self.option_route()? {
            let v = self.deserialize(inner)?;
            Ok(Value::Present(Box::new(v)))
        } else {
            Ok(Value::Absent)
        }
    }

    /// Decodes a sequence: the elements under the tag of the tag context,
    /// as long as it repeats.
    pub fn deserialize_seq(&mut self, element: &Shape) -> (r: Result<Vec<Value>>)
        ensures
            match r {
                Ok(items) => decode_seq(*element, old(self)@) == Ok::<_, ErrorView>(
                    (values_view(items@), final(self)@),
                ) && final(self)@.stream.len() <= old(self)@.stream.len(),
                Err(e) => decode_seq(*element, old(self)@) == Err::<
                    (Seq<ValueView>, DecoderView),
                    _,
                >(e@),
            },
        decreases old(self)@.stream.len(), *element, 4nat, 0nat,
    {
        let mut access = SeqAccess::new(self)?;
        let mut items: Vec<Value> = Vec::new();
        assert(values_view(items@) =~= Seq::empty());
        loop
            invariant
                self@.stream.len() <= old(self)@.stream.len(),
                decode_items(*element, access@, self@, values_view(items@)) == decode_seq(
                    *element,
                    old(self)@,
                ),
            decreases self@.stream.len(), (if access@.first { 1nat } else { 0nat }),
        {
            if !access.next_element(self)? {
                return Ok(items);
            }
            let ghost before = values_view(items@);
            let v = self.deserialize(element)?;
            items.push(v);
            assert(values_view(items@) =~= before.push(v@));
        }
    }

    /// Decodes a tuple: the tokens of one run of character data, each
    /// read as the scalar of its position.
    pub fn deserialize_tuple(&mut self, shapes: &Vec<Shape>) -> (r: Result<Vec<Value>>)
        ensures
            match r {
                Ok(values) => decode_tuple(shapes@, old(self)@) == Ok::<_, ErrorView>(
                    (values_view(values@), final(self)@),
                ) && final(self)@.stream.len() <= old(self)@.stream.len(),
                Err(e) => decode_tuple(shapes@, old(self)@) == Err::<
                    (Seq<ValueView>, DecoderView),
                    _,
                >(e@),
            },
    {
        let access = TupleAccess::new(self)?;
        let values = tuple_values(shapes, access)?;
        Ok(values)
    }

    /// Decodes a record with the fields `fields`.
    pub fn deserialize_struct(&mut self, fields: &Vec<FieldShape>) -> (r: Result<Vec<Entry>>)
        ensures
            match r {
                Ok(entries) => decode_struct(*fields, old(self)@) == Ok::<_, ErrorView>(
                    (entries_view(entries@), final(self)@),
                ) && final(self)@.stream.len() <= old(self)@.stream.len(),
                Err(e) => decode_struct(*fields, old(self)@) == Err::<
                    (Seq<EntryView>, DecoderView),
                    _,
                >(e@),
            },
        decreases old(self)@.stream.len(), *fields, 1nat, 0nat,
    {
        let (root_tag, mut access) = self.map_begin()?;
        let mut slots = empty_slots(fields);
        loop
            invariant
                access@.value is None,
                slots@.len() == fields@.len(),
                self@.stream.len() <= old(self)@.stream.len(),
                decode_struct(*fields, old(self)@) == match decode_fields(
                    *fields,
                    access@,
                    self@,
                    slots_view(slots@),
                ) {
                    Err(e) => Err(e),
                    Ok((found, after)) => struct_end(fields@, text_view(root_tag), found, after),
                },
            decreases self@.stream.len(), access@.attributes.len(),
        {
            if !self.next_field(fields, &mut access, &mut slots)? {
                let entries = assemble_fields(fields, slots)?;
                self.map_end(root_tag)?;
                return Ok(entries);
            }
        }
    }

    /// Decodes the next field of a record, if there is one.
    fn next_field(
        &mut self,
        fields: &Vec<FieldShape>,
        access: &mut MapAccess,
        slots: &mut Vec<Option<Value>>,
    ) -> (r: Result<bool>)
        requires
            old(access)@.value is None,
            old(slots)@.len() == fields@.len(),
        ensures
            match r {
                Ok(more) => {
                    &&& final(access)@.value is None
                    &&& final(slots)@.len() == fields@.len()
                    &&& final(self)@.stream.len() <= old(self)@.stream.len()
                    &&& if more {
                        &&& decode_fields(
                            *fields,
                            old(access)@,
                            old(self)@,
                            slots_view(old(slots)@),
                        ) == decode_fields(
                            *fields,
                            final(access)@,
                            final(self)@,
                            slots_view(final(slots)@),
                        )
                        &&& nearer(final(self)@, final(access)@, old(self)@, old(access)@)
                    } else {
                        decode_fields(*fields, old(access)@, old(self)@, slots_view(old(slots)@))
                            == Ok::<_, ErrorView>((slots_view(final(slots)@), final(self)@))
                    }
                },
                Err(e) => decode_fields(*fields, old(access)@, old(self)@, slots_view(old(slots)@))
                    == Err::<(Seq<Option<ValueView>>, DecoderView), _>(e@),
            },
        decreases old(self)@.stream.len(), *fields, 0nat, old(access)@.attributes.len(),
    {
        let ghost found = slots_view(slots@);
        let key = match access.next_key(self)? {
            Some(key) => key,
            None => {
                return Ok(false);
            },
        };
        let at = find_field(fields, key.as_str());
        let any = Shape::Any;
        let shape = match at {
            Some(i) => {
                if slots[i].is_some() {
                    return Err(named("duplicate field ", key.as_str()));
                }
                &fields[i].shape
            },
            None => &any,
        };
        let value = match access.next_value() {
            Some(plain) => plain.deserialize(shape)?,
            None => {
                let v = self.deserialize(shape)?;
                access.finish_value(self)?;
                v
            },
        };
        match at {
            Some(i) => {
                slots[i] = Some(value);
                assert(slots_view(slots@) =~= found.update(i as int, Some(value@)));
            },
            None => {},
        }
        Ok(true)
    }

    /// Decodes a map whose values have the shape `value`.
    pub fn deserialize_map(&mut self, value: &Shape) -> (r: Result<Vec<Entry>>)
        ensures
            match r {
                Ok(entries) => decode_map(*value, old(self)@) == Ok::<_, ErrorView>(
                    (entries_view(entries@), final(self)@),
                ) && final(self)@.stream.len() <= old(self)@.stream.len(),
                Err(e) => decode_map(*value, old(self)@) == Err::<
                    (Seq<EntryView>, DecoderView),
                    _,
                >(e@),
            },
        decreases old(self)@.stream.len(), *value, 1nat, 0nat,
    {
        let (root_tag, mut access) = self.map_begin()?;
        let mut entries: Vec<Entry> = Vec::new();
        assert(entries_view(entries@) =~= Seq::empty());
        loop
            invariant
                access@.value is None,
                self@.stream.len() <= old(self)@.stream.len(),
                decode_map(*value, old(self)@) == match decode_pairs(
                    *value,
                    access@,
                    self@,
                    entries_view(entries@),
                ) {
                    Err(e) => Err(e),
                    Ok((found, after)) => pairs_end(text_view(root_tag), found, after),
                },
            decreases self@.stream.len(), access@.attributes.len(),
        {
            if !self.next_entry(value, &mut access, &mut entries)? {
                self.map_end(root_tag)?;
                return Ok(entries);
            }
        }
    }

    /// Decodes the next entry of a map, if there is one.
    fn next_entry(&mut self, value: &Shape, access: &mut MapAccess, entries: &mut Vec<Entry>) -> (r:
        Result<bool>)
        requires
            old(access)@.value is None,
        ensures
            match r {
                Ok(more) => {
                    &&& final(access)@.value is None
                    &&& final(self)@.stream.len() <= old(self)@.stream.len()
                    &&& if more {
                        &&& decode_pairs(
                            *value,
                            old(access)@,
                            old(self)@,
                            entries_view(old(entries)@),
                        ) == decode_pairs(
                            *value,
                            final(access)@,
                            final(self)@,
                            entries_view(final(entries)@),
                        )
                        &&& nearer(final(self)@, final(access)@, old(self)@, old(access)@)
                    } else {
                        decode_pairs(*value, old(access)@, old(self)@, entries_view(old(entries)@))
                            == Ok::<_, ErrorView>((entries_view(final(entries)@), final(self)@))
                    }
                },
                Err(e) => decode_pairs(
                    *value,
                    old(access)@,
                    old(self)@,
                    entries_view(old(entries)@),
                ) == Err::<(Seq<EntryView>, DecoderView), _>(e@),
            },
        decreases old(self)@.stream.len(), *value, 0nat, old(access)@.attributes.len(),
    {
        let ghost before = entries_view(entries@);
        let key = match access.next_key(self)? {
            Some(key) => key,
            None => {
                return Ok(false);
            },
        };
        let v = match access.next_value() {
            Some(plain) => plain.deserialize(value)?,
            None => {
                let v = self.deserialize(value)?;
                access.finish_value(self)?;
                v
            },
        };
        entries.push(Entry { key, value: v });
        assert(entries_view(entries@) =~= before.push(EntryView { key: key@, value: v@ }));
        Ok(true)
    }

    /// Decodes a case of an enumeration: a start tag names a case that
    /// holds something, a text names a case that holds nothing.
    pub fn deserialize_enum(&mut self, variants: &Vec<VariantShape>) -> (r: Result<Value>)
        ensures
            match r {
                Ok(v) => decode_enum(*variants, old(self)@) == Ok::<_, ErrorView>(
                    (v@, final(self)@),
                ) && final(self)@.stream.len() <= old(self)@.stream.len(),
                Err(e) => decode_enum(*variants, old(self)@) == Err::<
                    (ValueView, DecoderView),
                    _,
                >(e@),
            },
        decreases old(self)@.stream.len(), *variants, 1nat, 0nat,
    {
        if self.enum_route()? {
            let _ = self.open_tag()?;
            let access = VariantAccess::new(self)?;
            let name = access.variant();
            let content = match find_variant(variants, name.as_str()) {
                None => {
                    return Err(named("unknown variant ", name.as_str()));
                },
                Some(i) => match &variants[i].content {
                    ContentShape::Unit => {
                        access.unit_variant()?;
                        Content::Unit
                    },
                    ContentShape::Newtype(inner) => {
                        let v = self.deserialize(inner)?;
                        assert(Content::Newtype(Box::new(v))@ == ContentView::Newtype(
                            Box::new(v@),
                        ));
                        Content::Newtype(Box::new(v))
                    },
                    ContentShape::Tuple(shapes) => {
                        let values = self.deserialize_tuple(shapes)?;
                        Content::Tuple(values)
                    },
                    ContentShape::Struct(fields) => {
                        let entries = self.deserialize_struct(fields)?;
                        Content::Struct(entries)
                    },
                },
            };
            self.finish_element(name.as_str())?;
            Ok(Value::Variant { name, content })
        } else {
            let access = UnitVariantAccess::new();
            let name = access.variant(self)?;
            unit_variant_named(variants, name)
        }
    }
}

} // verus!
