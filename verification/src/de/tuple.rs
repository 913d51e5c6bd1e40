//! Access to a tuple: the tokens of one run of character data.

use vstd::prelude::*;
use crate::de::plain::PlainStringDeserializer;
use crate::de::{DecoderView, Deserializer};
use crate::error::Outcome;
use crate::error::{ErrorView, Result};
use crate::list::reversed;
use crate::text::{split_whitespace, texts_view, tokens};

verus! {

/// The cursor of one tuple.
pub struct TupleAccess {
    items: Vec<String>,
}

impl View for TupleAccess {
    type V = Seq<Seq<char>>;

    /// The tokens that are left, in order.
    closed spec fn view(&self) -> Seq<Seq<char>> {
        texts_view(self.items@).reverse()
    }
}

/// Reading the text of a tuple: its tokens.
pub open spec fn tuple_begin(d: DecoderView) -> Outcome<(Seq<Seq<char>>, DecoderView)> {
    match d.characters() {
        Err(e) => Err(e),
        Ok((text, d1)) => Ok((tokens(text), d1)),
    }
}

impl TupleAccess {
    /// Access to the tuple that the next run of character data holds.
    pub fn new(de: &mut Deserializer) -> (r: Result<Self>)
        ensures
            match r {
                Ok(access) => tuple_begin(old(de)@) == Ok::<_, ErrorView>((access@, final(de)@)),
                Err(e) => tuple_begin(old(de)@) == Err::<(Seq<Seq<char>>, DecoderView), _>(e@),
            },
            final(de)@ == old(de)@.advance(),
    {
        let text = de.characters()?;
        let items = split_whitespace(text.as_str());
        let ghost given = texts_view(items@);
        let items = reversed(items);
        assert(texts_view(items@).reverse() =~= given);
        Ok(TupleAccess { items })
    }

    /// The next token, or none where the tokens have run out.
    pub fn next_element(&mut self) -> (r: Option<PlainStringDeserializer>)
        ensures
            match r {
                Some(item) => old(self)@.len() > 0 && item@ == old(self)@[0] && final(self)@
                    == old(self)@.skip(1),
                None => old(self)@.len() == 0 && final(self)@ == old(self)@,
            },
    {
        match self.items.pop() {
            None => None,
            Some(item) => {
                Some(PlainStringDeserializer(item))
            },
        }
    }
}

} // verus!
