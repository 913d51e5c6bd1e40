//! Encoding a tuple: the texts of its scalars, joined into one text.

use vstd::prelude::*;
use crate::error::{ErrorView, Result, message};
use crate::ser::plain::to_plain_string;
use crate::ser::semantics::{expected_scalar, plain_text, tuple_end};
use crate::ser::{EncoderView, Serializer};
use crate::text::{join_spaced, texts_view};
use crate::value::Value;

verus! {

/// The state of one tuple: the texts that were gathered, and the end tags
/// that are owed in the end.
pub struct TupleSerializer {
    must_close_tag: bool,
    variant: bool,
    items: Vec<String>,
}

/// The mathematical state of a [`TupleSerializer`].
pub struct TupleView {
    /// Whether the end tag of the element around the tuple is owed.
    pub opened: bool,
    /// Whether the tuple stands under a tag of its own, whose end tag is
    /// owed.
    pub variant: bool,
    /// The texts that were gathered.
    pub texts: Seq<Seq<char>>,
}

impl View for TupleSerializer {
    type V = TupleView;

    closed spec fn view(&self) -> TupleView {
        TupleView {
            opened: self.must_close_tag,
            variant: self.variant,
            texts: texts_view(self.items@),
        }
    }
}

impl TupleSerializer {
    /// A tuple without texts yet.
    pub fn new(must_close_tag: bool, variant: bool) -> (r: Self)
        ensures
            r@ == (TupleView { opened: must_close_tag, variant, texts: Seq::empty() }),
    {
        let items: Vec<String> = Vec::new();
        assert(texts_view(items@) =~= Seq::empty());
        TupleSerializer { must_close_tag, variant, items }
    }

    /// Gathers the text of the next scalar.
    pub fn serialize_element(&mut self, value: &Value) -> (r: Result<()>)
        ensures
            match r {
                Ok(_) => plain_text(value@) matches Ok(Some(text)) && final(self)@ == (TupleView {
                    texts: old(self)@.texts.push(text),
                    ..old(self)@
                }),
                Err(e) => match plain_text(value@) {
                    Ok(Some(_)) => false,
                    Ok(None) => e@ == expected_scalar(),
                    Err(x) => e@ == x,
                },
            },
    {
        match to_plain_string(value)? {
            None => Err(message("expected a scalar")),
            Some(text) => {
                let ghost before = texts_view(self.items@);
                self.items.push(text);
                assert(texts_view(self.items@) =~= before.push(text@));
                Ok(())
            },
        }
    }

    /// Writes the texts as one text, joined by single spaces, and the end
    /// tags that are owed.
    pub fn end(self, ser: &mut Serializer) -> (r: Result<()>)
        ensures
            old(ser)@.sink.leads_to(final(ser)@.sink),
            match r {
                Ok(_) => tuple_end(self@.texts, self@.variant, self@.opened, old(ser)@) == Ok::<
                    _,
                    ErrorView,
                >(final(ser)@),
                Err(e) => tuple_end(
                    self@.texts,
                    self@.variant,
                    self@.opened,
                    old(ser)@,
                ) == Err::<EncoderView, _>(e@),
            },
    {
        let text = join_spaced(&self.items);
        ser.characters(text.as_str())?;
        ser.close(self.variant)?;
        ser.close(self.must_close_tag)
    }
}

} // verus!
