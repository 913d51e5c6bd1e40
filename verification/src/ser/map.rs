//! Encoding maps and records.

use vstd::prelude::*;
use crate::text::same_text;
use crate::error::{ErrorView, Result};
use crate::ser::plain::to_plain_string;
use crate::ser::semantics::{encode, encode_field, field_begin, is_attribute_key, struct_end};
use crate::ser::{EncoderView, Serializer};
use crate::value::Value;

verus! {

/// The state of one map: whether the end tag of its element is owed.
pub struct MapSerializer {
    must_close_tag: bool,
}

impl View for MapSerializer {
    type V = bool;

    closed spec fn view(&self) -> bool {
        self.must_close_tag
    }
}

impl MapSerializer {
    /// A map in an element whose end tag is owed or not.
    pub fn new(must_close_tag: bool) -> (r: Self)
        ensures
            r@ == must_close_tag,
    {
        MapSerializer { must_close_tag }
    }

    /// Opens the tag of the next entry, named by its key.
    pub fn serialize_key(&mut self, ser: &mut Serializer, key: &str) -> (r: Result<()>)
        ensures
            old(ser)@.sink.leads_to(final(ser)@.sink),
            r is Ok,
            final(self)@ == old(self)@,
            final(ser)@ == old(ser)@.open_tag(key@),
    {
        ser.open_tag(key)
    }

    /// Writes the value of the entry under the tag of its key.
    pub fn serialize_value(&mut self, ser: &mut Serializer, value: &Value) -> (r: Result<()>)
        ensures
            old(ser)@.sink.leads_to(final(ser)@.sink),
            final(self)@ == old(self)@,
            match r {
                Ok(_) => encode(value@, old(ser)@) == Ok::<_, ErrorView>(final(ser)@),
                Err(e) => encode(value@, old(ser)@) == Err::<
                    EncoderView,
                    _,
                >(e@),
            },
        decreases *value, 1nat,
    {
        ser.serialize(value)
    }

    /// Closes the element of the map if that is owed.
    pub fn end(self, ser: &mut Serializer) -> (r: Result<()>)
        ensures
            old(ser)@.sink.leads_to(final(ser)@.sink),
            match r {
                Ok(_) => old(ser)@.close(self@) == Ok::<_, ErrorView>(final(ser)@),
                Err(e) => old(ser)@.close(self@) == Err::<
                    EncoderView,
                    _,
                >(e@),
            },
    {
        ser.close(self.must_close_tag)
    }
}

/// The state of one record: whether the start tag of its element is
/// written, and whether the end tag of the element around it is owed.
pub struct StructSerializer {
    must_close_tag: bool,
    flushed: bool,
}

/// The mathematical state of a [`StructSerializer`].
pub struct StructView {
    /// Whether the end tag of the element around the record is owed.
    pub owed: bool,
    /// Whether a field had the start tag of the record written.
    pub flushed: bool,
}

impl View for StructSerializer {
    type V = StructView;

    closed spec fn view(&self) -> StructView {
        StructView { owed: self.must_close_tag, flushed: self.flushed }
    }
}

/// Whether a key names an attribute.
fn names_attribute(key: &str) -> (r: bool)
    ensures
        r == is_attribute_key(key@),
{
    key.unicode_len() > 0 && key.get_char(0) == '@'
}

/// The name of the attribute that a key names.
fn attribute_name(key: &str) -> (name: &str)
    requires
        is_attribute_key(key@),
    ensures
        name@ == key@.skip(1),
{
    let name = key.substring_char(1, key.unicode_len());
    name
}

impl StructSerializer {
    /// A record in an element around which an end tag is owed or not.
    pub fn new(must_close_tag: bool) -> (r: Self)
        ensures
            r@ == (StructView { owed: must_close_tag, flushed: false }),
    {
        StructSerializer { must_close_tag, flushed: false }
    }

    /// Prepares for the value of a field. For an attribute nothing
    /// happens, and the name of the attribute is handed out. For the text
    /// and for a child the start tag of the record is written if it was
    /// not, and the tag of a child is opened.
    pub fn serialize_key(&mut self, ser: &mut Serializer, key: &str) -> (r: Result<Option<String>>)
        ensures
            old(ser)@.sink.leads_to(final(ser)@.sink),
            final(self)@.owed == old(self)@.owed,
            r matches Ok(named) && match named {
                Some(name) => is_attribute_key(key@) && name@ == key@.skip(1) && final(ser)@
                    == old(ser)@ && final(self)@ == old(self)@,
                None => !is_attribute_key(key@) && field_begin(
                    key@,
                    old(self)@.flushed,
                    old(ser)@,
                ) == (final(self)@.flushed, final(ser)@),
            },
    {
        if names_attribute(key) {
            Ok(Some(String::from_str(attribute_name(key))))
        } else {
            if ser.build_start_tag()? {
                self.flushed = true;
            }
            proof {
                reveal_strlit(".");
                assert("."@ =~= seq!['.']);
            }
            if !same_text(key, ".") {
                ser.open_tag(key)?;
            }
            Ok(None)
        }
    }

    /// Encodes one field: an attribute joins the tag of the record, the
    /// text and the children come behind its start tag.
    pub fn serialize_field(&mut self, ser: &mut Serializer, key: &str, value: &Value) -> (r:
        Result<()>)
        ensures
            old(ser)@.sink.leads_to(final(ser)@.sink),
            final(self)@.owed == old(self)@.owed,
            match r {
                Ok(_) => encode_field(key@, value@, old(self)@.flushed, old(ser)@) == Ok::<
                    _,
                    ErrorView,
                >((final(self)@.flushed, final(ser)@)),
                Err(e) => encode_field(
                    key@,
                    value@,
                    old(self)@.flushed,
                    old(ser)@,
                ) == Err::<(bool, EncoderView), _>(e@),
            },
        decreases *value, 1nat,
    {
        match self.serialize_key(ser, key)? {
            Some(name) => match to_plain_string(value)? {
                None => Ok(()),
                Some(text) => ser.add_attr(name.as_str(), text),
            },
            None => ser.serialize(value),
        }
    }

    /// Closes the element of the record, and the element around it if
    /// that is owed.
    pub fn end(self, ser: &mut Serializer) -> (r: Result<()>)
        ensures
            old(ser)@.sink.leads_to(final(ser)@.sink),
            match r {
                Ok(_) => struct_end(self@.flushed, self@.owed, old(ser)@) == Ok::<_, ErrorView>(
                    final(ser)@,
                ),
                Err(e) => struct_end(
                    self@.flushed,
                    self@.owed,
                    old(ser)@,
                ) == Err::<EncoderView, _>(e@),
            },
    {
        let opened = ser.build_start_tag()?;
        ser.close(opened || self.flushed)?;
        ser.close(self.must_close_tag)
    }
}

} // verus!
