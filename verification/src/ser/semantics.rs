//! What encoding means: the events that a value makes, as a function of
//! the encoder's state.

use vstd::prelude::*;
use crate::error::Outcome;
use crate::de::map::text_key;
use crate::error::ErrorView;
use crate::ser::EncoderView;
use crate::text::{decimal, joined, truth_text};
use crate::value::{ContentView, EntryView, ValueView};

verus! {

/// Whether a key names an attribute: it begins with `@`.
pub open spec fn is_attribute_key(key: Seq<char>) -> bool {
    key.len() > 0 && key[0] == '@'
}

/// The error for a value that has no text.
pub open spec fn expected_scalar() -> ErrorView {
    ErrorView::Message("expected a scalar"@)
}

/// The text of a scalar: of a truth value, an integer or a text, of a
/// case without content its name. An optional value that is absent has
/// none.
pub open spec fn plain_text(v: ValueView) -> Outcome<Option<Seq<char>>>
    decreases v,
{
    match v {
        ValueView::Bool(b) => Ok(Some(truth_text(b))),
        ValueView::Int(i) => Ok(Some(decimal(i))),
        ValueView::UInt(u) => Ok(Some(decimal(u))),
        ValueView::Text(s) => Ok(Some(s)),
        ValueView::Absent => Ok(None),
        ValueView::Present(inner) => plain_text(*inner),
        ValueView::Variant { name, content: ContentView::Unit } => Ok(Some(name)),
        _ => Err(expected_scalar()),
    }
}

/// The texts of the scalars `items`, every one of which has a text.
pub open spec fn plain_texts(items: Seq<ValueView>) -> Outcome<Seq<Seq<char>>>
    decreases items.len(),
{
    if items.len() == 0 {
        Ok(Seq::empty())
    } else {
        match plain_texts(items.drop_last()) {
            Err(e) => Err(e),
            Ok(texts) => match plain_text(items.last()) {
                Err(e) => Err(e),
                Ok(None) => Err(expected_scalar()),
                Ok(Some(text)) => Ok(texts.push(text)),
            },
        }
    }
}

/// A text: the tag that was opened last is written, then the text, and
/// the element is closed if it was opened now.
pub open spec fn encode_text(text: Seq<char>, e: EncoderView) -> Outcome<EncoderView> {
    let (opened, e1) = e.build_start_tag();
    e1.characters(text).close(opened)
}

/// No content: the tag that was opened last is written and its element
/// closed at once.
pub open spec fn encode_empty(e: EncoderView) -> Outcome<EncoderView> {
    let (opened, e1) = e.build_start_tag();
    e1.close(opened)
}

/// The end of a tuple whose texts are `texts`: they are written as one
/// text, joined by single spaces.
pub open spec fn tuple_end(texts: Seq<Seq<char>>, variant: bool, opened: bool, e: EncoderView)
    -> Outcome<EncoderView> {
    match e.characters(joined(texts)).close(variant) {
        Err(x) => Err(x),
        Ok(e1) => e1.close(opened),
    }
}

/// A tuple: the tag that was opened last is written, then the texts of
/// the scalars as one text.
pub open spec fn encode_tuple(items: Seq<ValueView>, e: EncoderView) -> Outcome<EncoderView> {
    let (opened, e1) = e.build_start_tag();
    match plain_texts(items) {
        Err(x) => Err(x),
        Ok(texts) => tuple_end(texts, false, opened, e1),
    }
}

/// A case that holds a tuple: behind the tag that was opened last, a tag
/// named after the case holds the texts.
pub open spec fn encode_tuple_variant(name: Seq<char>, items: Seq<ValueView>, e: EncoderView)
    -> Outcome<EncoderView> {
    let (opened, e1) = e.build_start_tag();
    let e2 = e1.start_tag(name, Seq::empty());
    match plain_texts(items) {
        Err(x) => Err(x),
        Ok(texts) => tuple_end(texts, true, opened, e2),
    }
}

/// The tag under which the elements of a sequence repeat: the tag that
/// is open and not written where the sequence begins, if there is one.
pub open spec fn seq_tag(e: EncoderView) -> Option<Seq<char>> {
    if e.pending is Some {
        Some(e.tag)
    } else {
        None
    }
}

/// The state between two elements of a sequence: the tag is opened
/// again.
pub open spec fn seq_next(tag: Option<Seq<char>>, e: EncoderView) -> EncoderView {
    match tag {
        Some(name) => e.open_tag(name),
        None => e,
    }
}

/// The state behind a sequence: the tag that was opened for an element
/// that did not come is given up.
pub open spec fn seq_end(tag: Option<Seq<char>>, e: EncoderView) -> EncoderView {
    match tag {
        Some(_) => e.abandon_tag(),
        None => e,
    }
}

/// The end of a record: its element is closed, at once if none of its
/// fields had its start tag written; and so is the element around it if
/// that is owed.
pub open spec fn struct_end(flushed: bool, owed: bool, e: EncoderView) -> Outcome<EncoderView> {
    let (opened, e1) = e.build_start_tag();
    match e1.close(opened || flushed) {
        Err(x) => Err(x),
        Ok(e2) => e2.close(owed),
    }
}

/// The events that the value `v` makes.
pub open spec fn encode(v: ValueView, e: EncoderView) -> Outcome<EncoderView>
    decreases v, 0nat,
{
    match v {
        ValueView::Unit => encode_empty(e),
        ValueView::Absent => encode_empty(e),
        ValueView::Bool(b) => encode_text(truth_text(b), e),
        ValueView::Int(i) => encode_text(decimal(i), e),
        ValueView::UInt(u) => encode_text(decimal(u), e),
        ValueView::Text(s) => encode_text(s, e),
        ValueView::Present(inner) => encode(*inner, e),
        ValueView::Sequence(items) => encode_seq(items, e),
        ValueView::Tuple(items) => encode_tuple(items, e),
        ValueView::Struct { name, fields } => match e.open_root_tag(name) {
            Err(x) => Err(x),
            Ok(e0) => match encode_fields(fields, 0, false, e0) {
                Err(x) => Err(x),
                Ok((flushed, e1)) => struct_end(flushed, false, e1),
            },
        },
        ValueView::Mapping(entries) => {
            let (opened, e1) = e.build_start_tag();
            match encode_entries(entries, 0, e1) {
                Err(x) => Err(x),
                Ok(e2) => e2.close(opened),
            }
        },
        ValueView::Variant { name, content } => match content {
            ContentView::Unit => encode_text(name, e),
            ContentView::Newtype(inner) => {
                let (opened, e1) = e.build_start_tag();
                match encode(*inner, e1.open_tag(name)) {
                    Err(x) => Err(x),
                    Ok(e2) => e2.close(opened),
                }
            },
            ContentView::Tuple(items) => encode_tuple_variant(name, items, e),
            ContentView::Struct(fields) => {
                let (opened, e1) = e.build_start_tag();
                match encode_fields(fields, 0, false, e1.open_tag(name)) {
                    Err(x) => Err(x),
                    Ok((flushed, e2)) => struct_end(flushed, opened, e2),
                }
            },
        },
    }
}

/// A sequence: its elements, each under the tag that was open where the
/// sequence began.
pub open spec fn encode_seq(items: Seq<ValueView>, e: EncoderView) -> Outcome<EncoderView>
    decreases items, items.len() + 1,
{
    match encode_items(items, 0, seq_tag(e), e) {
        Err(x) => Err(x),
        Ok(e1) => Ok(seq_end(seq_tag(e), e1)),
    }
}

/// The elements of a sequence from the place `from` on.
pub open spec fn encode_items(
    items: Seq<ValueView>,
    from: int,
    tag: Option<Seq<char>>,
    e: EncoderView,
) -> Outcome<EncoderView>
    decreases items, items.len() - from,
{
    if from < 0 || from >= items.len() {
        Ok(e)
    } else {
        match encode(items[from], e) {
            Err(x) => Err(x),
            Ok(e1) => encode_items(items, from + 1, tag, seq_next(tag, e1)),
        }
    }
}

/// The state in front of the value of a field that is no attribute: the
/// start tag of the record is written if it was not, and for a child its
/// tag is opened.
pub open spec fn field_begin(key: Seq<char>, flushed: bool, e: EncoderView) -> (bool, EncoderView) {
    let (opened, e1) = e.build_start_tag();
    (
        flushed || opened,
        if key == text_key() {
            e1
        } else {
            e1.open_tag(key)
        },
    )
}

/// One field of a record. An attribute joins the tag of the record,
/// unless its value is absent. The text of the element and a child come
/// behind the start tag of the record; the child stands under a tag of its
/// own, named by its key. The truth value says whether the start tag of
/// the record is written.
pub open spec fn encode_field(key: Seq<char>, v: ValueView, flushed: bool, e: EncoderView)
    -> Outcome<(bool, EncoderView)>
    decreases v, 1nat,
{
    if is_attribute_key(key) {
        match plain_text(v) {
            Err(x) => Err(x),
            Ok(None) => Ok((flushed, e)),
            Ok(Some(text)) => match e.add_attr(key.skip(1), text) {
                Err(x) => Err(x),
                Ok(e1) => Ok((flushed, e1)),
            },
        }
    } else {
        let (flushed1, e1) = field_begin(key, flushed, e);
        match encode(v, e1) {
            Err(x) => Err(x),
            Ok(e2) => Ok((flushed1, e2)),
        }
    }
}

/// The fields of a record from the place `from` on.
pub open spec fn encode_fields(fields: Seq<EntryView>, from: int, flushed: bool, e: EncoderView)
    -> Outcome<(bool, EncoderView)>
    decreases fields, fields.len() - from,
{
    if from < 0 || from >= fields.len() {
        Ok((flushed, e))
    } else {
        match encode_field(fields[from].key, fields[from].value, flushed, e) {
            Err(x) => Err(x),
            Ok((flushed1, e1)) => encode_fields(fields, from + 1, flushed1, e1),
        }
    }
}

/// The entries of a map from the place `from` on, each under a tag named
/// by its key.
pub open spec fn encode_entries(entries: Seq<EntryView>, from: int, e: EncoderView) -> Outcome<
    EncoderView,
>
    decreases entries, entries.len() - from,
{
    if from < 0 || from >= entries.len() {
        Ok(e)
    } else {
        match encode(entries[from].value, e.open_tag(entries[from].key)) {
            Err(x) => Err(x),
            Ok(e1) => encode_entries(entries, from + 1, e1),
        }
    }
}

} // verus!
