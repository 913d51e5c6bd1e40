//! Encoding a sequence: every element under the same tag.

use vstd::prelude::*;
use crate::ser::semantics::{seq_end, seq_next, seq_tag};
use crate::ser::Serializer;
use crate::text::text_view;
use crate::error::Result;

verus! {

/// The state of one sequence: the tag under which its elements repeat.
pub struct SeqSerializer {
    tag: Option<String>,
}

impl View for SeqSerializer {
    type V = Option<Seq<char>>;

    closed spec fn view(&self) -> Option<Seq<char>> {
        text_view(self.tag)
    }
}

impl SeqSerializer {
    /// A sequence under the tag that is open and not written, if there is
    /// one.
    pub fn new(ser: &Serializer) -> (r: Self)
        ensures
            r@ == seq_tag(ser@),
    {
        if ser.has_pending_tag() {
            SeqSerializer { tag: Some(ser.current_tag()) }
        } else {
            SeqSerializer { tag: None }
        }
    }

    /// Opens the tag again, behind an element.
    pub fn next(&self, ser: &mut Serializer) -> (r: Result<()>)
        ensures
            old(ser)@.sink.leads_to(final(ser)@.sink),
            r is Ok,
            final(ser)@ == seq_next(self@, old(ser)@),
    {
        match &self.tag {
            Some(name) => ser.open_tag(name.as_str()),
            None => Ok(()),
        }
    }

    /// Gives up the tag that was opened for an element that did not
    /// come.
    pub fn end(self, ser: &mut Serializer) -> (r: Result<()>)
        ensures
            old(ser)@.sink.leads_to(final(ser)@.sink),
            r is Ok,
            final(ser)@ == seq_end(self@, old(ser)@),
    {
        match &self.tag {
            Some(_) => ser.abandon_tag(),
            None => Ok(()),
        }
    }
}

} // verus!
