//! Encoding by kind: what the encoder does for every kind of value.

use vstd::prelude::*;
use crate::error::{ErrorView, Result};
use crate::ser::map::{MapSerializer, StructSerializer, StructView};
use crate::ser::semantics::{
    encode, encode_empty, encode_entries, encode_fields, encode_items, encode_seq,
    encode_text, encode_tuple, plain_texts, seq_tag, struct_end,
};
use crate::ser::seq::SeqSerializer;
use crate::ser::tuple::{TupleSerializer, TupleView};
use crate::ser::{EncoderView, Serializer};
use crate::text::{decimal, format_i64, format_truth, format_u64, truth_text};
use crate::value::{Content, ContentView, Entry, Value, ValueView, entries_view, values_view};

verus! {

/// A scalar without a text among the first ones is one among them all.
pub proof fn lemma_texts_error(items: Seq<ValueView>, k: int)
    requires
        0 <= k <= items.len(),
        plain_texts(items.take(k)) is Err,
    ensures
        plain_texts(items) == plain_texts(items.take(k)),
    decreases items.len() - k,
{
    if k < items.len() {
        assert(items.take(k + 1).drop_last() =~= items.take(k));
        lemma_texts_error(items, k + 1);
    } else {
        assert(items.take(k) =~= items);
    }
}

/// Gathers the texts of the scalars `items`.
fn gather(tuple: &mut TupleSerializer, items: &Vec<Value>) -> (r: Result<()>)
    requires
        old(tuple)@.texts.len() == 0,
    ensures
        match r {
            Ok(_) => plain_texts(values_view(items@)) == Ok::<_, ErrorView>(final(tuple)@.texts)
                && final(tuple)@ == (TupleView { texts: final(tuple)@.texts, ..old(tuple)@ }),
            Err(e) => plain_texts(values_view(items@)) == Err::<Seq<Seq<char>>, _>(e@),
        },
{
    let mut i: usize = 0;
    assert(tuple@.texts =~= Seq::empty());
    while i < items.len()
        invariant
            i <= items.len(),
            tuple@ == (TupleView { texts: tuple@.texts, ..old(tuple)@ }),
            plain_texts(values_view(items@).take(i as int)) == Ok::<_, ErrorView>(tuple@.texts),
        decreases items.len() - i,
    {
        proof {
            let all = values_view(items@);
            assert(all.take(i + 1).drop_last() =~= all.take(i as int));
        }
        match tuple.serialize_element(&items[i]) {
            Ok(_) => {},
            Err(e) => {
                proof {
                    lemma_texts_error(values_view(items@), i + 1);
                }
                return Err(e);
            },
        }
        i = i + 1;
    }
    assert(values_view(items@).take(i as int) =~= values_view(items@));
    Ok(())
}

impl Serializer {
    /// Encodes a value.
    pub fn serialize(&mut self, value: &Value) -> (r: Result<()>)
        ensures
            old(self)@.sink.leads_to(final(self)@.sink),
            match r {
                Ok(_) => encode(value@, old(self)@) == Ok::<_, ErrorView>(final(self)@),
                Err(e) => encode(value@, old(self)@) == Err::<
                    EncoderView,
                    _,
                >(e@),
            },
        decreases *value, 0nat,
    {
        match value {
            Value::Unit => self.serialize_unit(),
            Value::Absent => self.serialize_none(),
            Value::Bool(b) => self.serialize_bool(*b),
            Value::Int(i) => self.serialize_i64(*i),
            Value::UInt(u) => self.serialize_u64(*u),
            Value::Text(s) => self.serialize_str(s.as_str()),
            Value::Present(inner) => self.serialize(inner),
            Value::Sequence(items) => self.serialize_items(items),
            Value::Tuple(items) => self.serialize_scalars(items),
            Value::Struct { name, fields } => {
                let record = self.serialize_struct(name.as_str())?;
                self.serialize_fields(record, fields)
            },
            Value::Mapping(entries) => {
                let map = self.serialize_map()?;
                self.serialize_entries(map, entries)
            },
            Value::Variant { name, content } => self.serialize_variant(name.as_str(), content),
        }
    }

    /// Encodes a case of an enumeration: its name as a text where it holds
    /// nothing, and else what it holds under a tag named after the case.
    fn serialize_variant(&mut self, name: &str, content: &Content) -> (r: Result<()>)
        ensures
            old(self)@.sink.leads_to(final(self)@.sink),
            match r {
                Ok(_) => encode(ValueView::Variant { name: name@, content: content@ }, old(self)@)
                    == Ok::<_, ErrorView>(final(self)@),
                Err(e) => encode(
                    ValueView::Variant { name: name@, content: content@ },
                    old(self)@,
                ) == Err::<EncoderView, _>(e@),
            },
        decreases *content, 1nat,
    {
        match content {
            Content::Unit => {
                self.serialize_unit_variant(name)
            },
            Content::Newtype(inner) => {
                self.serialize_newtype_variant(name, inner)
            },
            Content::Tuple(items) => {
                let mut tuple = self.serialize_tuple_variant(name)?;
                gather(&mut tuple, items)?;
                tuple.end(self)
            },
            Content::Struct(fields) => {
                let record = self.serialize_struct_variant(name)?;
                self.serialize_fields(record, fields)
            },
        }
    }

    /// Encodes a case that holds one value: the tag that was opened last
    /// is written, and the value stands under a tag named after the case.
    pub fn serialize_newtype_variant(&mut self, variant: &str, value: &Value) -> (r: Result<()>)
        ensures
            old(self)@.sink.leads_to(final(self)@.sink),
            match r {
                Ok(_) => encode(
                    ValueView::Variant {
                        name: variant@,
                        content: ContentView::Newtype(Box::new(value@)),
                    },
                    old(self)@,
                ) == Ok::<_, ErrorView>(final(self)@),
                Err(e) => encode(
                    ValueView::Variant {
                        name: variant@,
                        content: ContentView::Newtype(Box::new(value@)),
                    },
                    old(self)@,
                ) == Err::<EncoderView, _>(e@),
            },
        decreases *value, 1nat,
    {
        let must_close_tag = self.build_start_tag()?;
        self.open_tag(variant)?;
        self.serialize(value)?;
        self.close(must_close_tag)
    }

    /// Encodes a truth value.
    pub fn serialize_bool(&mut self, v: bool) -> (r: Result<()>)
        ensures
            old(self)@.sink.leads_to(final(self)@.sink),
            match r {
                Ok(_) => encode_text(truth_text(v), old(self)@) == Ok::<_, ErrorView>(
                    final(self)@,
                ),
                Err(e) => encode_text(truth_text(v), old(self)@)
                    == Err::<EncoderView, _>(e@),
            },
    {
        self.serialize_str(format_truth(v).as_str())
    }

    /// Encodes a signed integer.
    pub fn serialize_i64(&mut self, v: i64) -> (r: Result<()>)
        ensures
            old(self)@.sink.leads_to(final(self)@.sink),
            match r {
                Ok(_) => encode_text(decimal(v as int), old(self)@) == Ok::<_, ErrorView>(
                    final(self)@,
                ),
                Err(e) => encode_text(decimal(v as int), old(self)@)
                    == Err::<EncoderView, _>(e@),
            },
    {
        self.serialize_str(format_i64(v).as_str())
    }

    /// Encodes an unsigned integer.
    pub fn serialize_u64(&mut self, v: u64) -> (r: Result<()>)
        ensures
            old(self)@.sink.leads_to(final(self)@.sink),
            match r {
                Ok(_) => encode_text(decimal(v as int), old(self)@) == Ok::<_, ErrorView>(
                    final(self)@,
                ),
                Err(e) => encode_text(decimal(v as int), old(self)@)
                    == Err::<EncoderView, _>(e@),
            },
    {
        let must_close_tag = self.build_start_tag()?;
        self.characters(format_u64(v).as_str())?;
        self.close(must_close_tag)
    }

    /// Encodes a text.
    pub fn serialize_str(&mut self, v: &str) -> (r: Result<()>)
        ensures
            old(self)@.sink.leads_to(final(self)@.sink),
            match r {
                Ok(_) => encode_text(v@, old(self)@) == Ok::<_, ErrorView>(final(self)@),
                Err(e) => encode_text(v@, old(self)@) == Err::<
                    EncoderView,
                    _,
                >(e@),
            },
    {
        let must_close_tag = self.build_start_tag()?;
        self.characters(v)?;
        self.close(must_close_tag)
    }

    /// Encodes an optional value that is absent.
    pub fn serialize_none(&mut self) -> (r: Result<()>)
        ensures
            old(self)@.sink.leads_to(final(self)@.sink),
            match r {
                Ok(_) => encode_empty(old(self)@) == Ok::<_, ErrorView>(final(self)@),
                Err(e) => encode_empty(old(self)@) == Err::<
                    EncoderView,
                    _,
                >(e@),
            },
    {
        let must_close_tag = self.build_start_tag()?;
        self.close(must_close_tag)
    }

    /// Encodes the value without content.
    pub fn serialize_unit(&mut self) -> (r: Result<()>)
        ensures
            old(self)@.sink.leads_to(final(self)@.sink),
            match r {
                Ok(_) => encode_empty(old(self)@) == Ok::<_, ErrorView>(final(self)@),
                Err(e) => encode_empty(old(self)@) == Err::<
                    EncoderView,
                    _,
                >(e@),
            },
    {
        let must_close_tag = self.build_start_tag()?;
        self.close(must_close_tag)
    }

    /// Encodes a case without content: its name as a text.
    pub fn serialize_unit_variant(&mut self, variant: &str) -> (r: Result<()>)
        ensures
            old(self)@.sink.leads_to(final(self)@.sink),
            match r {
                Ok(_) => encode_text(variant@, old(self)@) == Ok::<_, ErrorView>(final(self)@),
                Err(e) => encode_text(variant@, old(self)@) == Err::<
                    EncoderView,
                    _,
                >(e@),
            },
    {
        self.serialize_str(variant)
    }

    /// Begins a sequence. Nothing is written.
    pub fn serialize_seq(&mut self) -> (r: Result<SeqSerializer>)
        ensures
            old(self)@.sink.leads_to(final(self)@.sink),
            r matches Ok(seq) && seq@ == seq_tag(old(self)@),
            final(self)@ == old(self)@,
    {
        Ok(SeqSerializer::new(self))
    }

    /// Begins a tuple: the tag that was opened last is written.
    pub fn serialize_tuple(&mut self) -> (r: Result<TupleSerializer>)
        ensures
            old(self)@.sink.leads_to(final(self)@.sink),
            r matches Ok(tuple) && old(self)@.build_start_tag() == (tuple@.opened, final(self)@)
                && !tuple@.variant && tuple@.texts.len() == 0,
    {
        let must_close_tag = self.build_start_tag()?;
        Ok(TupleSerializer::new(must_close_tag, false))
    }

    /// Begins a case that holds a tuple: the tag that was opened last is
    /// written, and behind it a tag named after the case.
    pub fn serialize_tuple_variant(&mut self, variant: &str) -> (r: Result<TupleSerializer>)
        ensures
            old(self)@.sink.leads_to(final(self)@.sink),
            r matches Ok(tuple) && old(self)@.build_start_tag().0 == tuple@.opened && final(self)@
                == old(self)@.build_start_tag().1.start_tag(variant@, Seq::empty())
                && tuple@.variant && tuple@.texts.len() == 0,
    {
        let must_close_tag = self.build_start_tag()?;
        let attributes: Vec<crate::event::Attribute> = Vec::new();
        assert(crate::event::attributes_view(attributes@) =~= Seq::empty());
        self.start_tag(variant, attributes)?;
        Ok(TupleSerializer::new(must_close_tag, true))
    }

    /// Begins a map: the tag that was opened last is written.
    pub fn serialize_map(&mut self) -> (r: Result<MapSerializer>)
        ensures
            old(self)@.sink.leads_to(final(self)@.sink),
            r matches Ok(map) && old(self)@.build_start_tag() == (map@, final(self)@),
    {
        let must_close_tag = self.build_start_tag()?;
        Ok(MapSerializer::new(must_close_tag))
    }

    /// Begins a record. The first one is the root: the document starts
    /// and the root tag is opened under the name of the record.
    pub fn serialize_struct(&mut self, name: &str) -> (r: Result<StructSerializer>)
        ensures
            old(self)@.sink.leads_to(final(self)@.sink),
            match r {
                Ok(record) => old(self)@.open_root_tag(name@) == Ok::<_, ErrorView>(final(self)@)
                    && record@ == (StructView { owed: false, flushed: false }),
                Err(e) => old(self)@.open_root_tag(name@) == Err::<EncoderView, _>(e@),
            },
    {
        self.open_root_tag(name)?;
        Ok(StructSerializer::new(false))
    }

    /// Begins a case that holds a record: the tag that was opened last is
    /// written, and a tag named after the case is opened.
    pub fn serialize_struct_variant(&mut self, variant: &str) -> (r: Result<StructSerializer>)
        ensures
            old(self)@.sink.leads_to(final(self)@.sink),
            r matches Ok(record) && final(self)@ == old(self)@.build_start_tag().1.open_tag(
                variant@,
            ) && record@ == (StructView { owed: old(self)@.build_start_tag().0, flushed: false }),
    {
        let must_close_tag = self.build_start_tag()?;
        self.open_tag(variant)?;
        Ok(StructSerializer::new(must_close_tag))
    }

    /// Encodes a tuple of scalars.
    fn serialize_scalars(&mut self, items: &Vec<Value>) -> (r: Result<()>)
        ensures
            old(self)@.sink.leads_to(final(self)@.sink),
            match r {
                Ok(_) => encode_tuple(values_view(items@), old(self)@) == Ok::<_, ErrorView>(
                    final(self)@,
                ),
                Err(e) => encode_tuple(values_view(items@), old(self)@)
                    == Err::<EncoderView, _>(e@),
            },
    {
        let mut tuple = self.serialize_tuple()?;
        gather(&mut tuple, items)?;
        tuple.end(self)
    }

    /// Encodes the elements of a sequence.
    fn serialize_items(&mut self, items: &Vec<Value>) -> (r: Result<()>)
        ensures
            old(self)@.sink.leads_to(final(self)@.sink),
            match r {
                Ok(_) => encode_seq(values_view(items@), old(self)@) == Ok::<_, ErrorView>(
                    final(self)@,
                ),
                Err(e) => encode_seq(values_view(items@), old(self)@)
                    == Err::<EncoderView, _>(e@),
            },
        decreases *items, 1nat,
    {
        let seq = self.serialize_seq()?;
        let mut i: usize = 0;
        while i < items.len()
            invariant
                old(self)@.sink.leads_to(self@.sink),
                i <= items.len(),
                seq@ == seq_tag(old(self)@),
                encode_items(values_view(items@), i as int, seq@, self@) == encode_items(
                    values_view(items@),
                    0,
                    seq@,
                    old(self)@,
                ),
            decreases items.len() - i,
        {
            self.serialize(&items[i])?;
            seq.next(self)?;
            i = i + 1;
        }
        seq.end(self)
    }

    /// Encodes the fields of a record and closes it.
    fn serialize_fields(&mut self, record: StructSerializer, fields: &Vec<Entry>) -> (r: Result<
        (),
    >)
        requires
            !record@.flushed,
        ensures
            old(self)@.sink.leads_to(final(self)@.sink),
            match r {
                Ok(_) => (match encode_fields(entries_view(fields@), 0, false, old(self)@) {
                    Err(x) => Err(x),
                    Ok((flushed, after)) => struct_end(flushed, record@.owed, after),
                }) == Ok::<_, ErrorView>(final(self)@),
                Err(e) => (match encode_fields(
                    entries_view(fields@),
                    0,
                    false,
                    old(self)@,
                ) {
                    Err(x) => Err(x),
                    Ok((flushed, after)) => struct_end(flushed, record@.owed, after),
                }) == Err::<EncoderView, _>(e@),
            },
        decreases *fields, 1nat,
    {
        let mut state = record;
        let mut i: usize = 0;
        while i < fields.len()
            invariant
                old(self)@.sink.leads_to(self@.sink),
                i <= fields.len(),
                state@.owed == record@.owed,
                encode_fields(entries_view(fields@), i as int, state@.flushed, self@)
                    == encode_fields(entries_view(fields@), 0, false, old(self)@),
            decreases fields.len() - i,
        {
            state.serialize_field(self, fields[i].key.as_str(), &fields[i].value)?;
            i = i + 1;
        }
        state.end(self)
    }

    /// Encodes the entries of a map and closes it.
    fn serialize_entries(&mut self, map: MapSerializer, entries: &Vec<Entry>) -> (r: Result<()>)
        ensures
            old(self)@.sink.leads_to(final(self)@.sink),
            match r {
                Ok(_) => (match encode_entries(entries_view(entries@), 0, old(self)@) {
                    Err(x) => Err(x),
                    Ok(after) => after.close(map@),
                }) == Ok::<_, ErrorView>(final(self)@),
                Err(e) => (match encode_entries(
                    entries_view(entries@),
                    0,
                    old(self)@,
                ) {
                    Err(x) => Err(x),
                    Ok(after) => after.close(map@),
                }) == Err::<EncoderView, _>(e@),
            },
        decreases *entries, 1nat,
    {
        let mut state = map;
        let mut i: usize = 0;
        while i < entries.len()
            invariant
                old(self)@.sink.leads_to(self@.sink),
                i <= entries.len(),
                state@ == map@,
                encode_entries(entries_view(entries@), i as int, self@) == encode_entries(
                    entries_view(entries@),
                    0,
                    old(self)@,
                ),
            decreases entries.len() - i,
        {
            state.serialize_key(self, entries[i].key.as_str())?;
            state.serialize_value(self, &entries[i].value)?;
            i = i + 1;
        }
        state.end(self)
    }
}

} // verus!
