//! Access to a sequence: the elements under one tag that repeats.

use vstd::prelude::*;
use crate::de::{DecoderView, Deserializer};
use crate::error::Outcome;
use crate::text::same_text;
use crate::error::{ErrorView, Result, message};
use crate::event::{Event, EventView};

verus! {

/// The cursor of one sequence.
pub struct SeqAccess {
    tag_name: String,
    first: bool,
}

/// The mathematical state of a [`SeqAccess`].
pub struct SeqView {
    /// The tag that every element of the sequence stands under.
    pub tag: Seq<char>,
    /// Whether the first element is still to come.
    pub first: bool,
}

impl SeqView {
    /// The state of a new sequence in the tag context of `d`; without a
    /// tag context there is no sequence.
    pub open spec fn begin(d: DecoderView) -> Outcome<SeqView> {
        match d.tag {
            Some(tag) => Ok(SeqView { tag, first: true }),
            None => Err(ErrorView::Message("expected current tag"@)),
        }
    }

    /// Whether another element follows. The first one does: its start tag
    /// was read before the sequence began. Behind an element its end tag is
    /// read; the same tag once more opens the next element, and anything
    /// else ends the sequence and stays to be read.
    pub open spec fn next_element(self, d: DecoderView) -> Outcome<(bool, SeqView, DecoderView)> {
        if self.first {
            Ok((true, SeqView { first: false, ..self }, d))
        } else {
            match d.finish_element(self.tag) {
                Err(e) => Err(e),
                Ok(d1) => match d1.head() {
                    None => Err(ErrorView::Reader),
                    Some(EventView::StartElement { name, attributes, .. }) => if name == self.tag {
                        Ok((true, self, d1.advance().enter(name, attributes)))
                    } else {
                        Ok((false, self, DecoderView { closed: true, ..d1 }))
                    },
                    Some(_) => Ok((false, self, DecoderView { closed: true, ..d1 })),
                },
            }
        }
    }
}

impl View for SeqAccess {
    type V = SeqView;

    closed spec fn view(&self) -> SeqView {
        SeqView { tag: self.tag_name@, first: self.first }
    }
}

impl SeqAccess {
    /// Access to the sequence whose first element was opened last.
    pub fn new(de: &Deserializer) -> (r: Result<Self>)
        ensures
            match r {
                Ok(access) => SeqView::begin(de@) == Ok::<_, ErrorView>(access@),
                Err(e) => SeqView::begin(de@) == Err::<SeqView, _>(e@),
            },
    {
        match de.current_tag() {
            Some(tag_name) => Ok(SeqAccess { tag_name, first: true }),
            None => Err(message("expected current tag")),
        }
    }

    /// Whether another element follows; if so, its content comes next.
    pub fn next_element(&mut self, de: &mut Deserializer) -> (r: Result<bool>)
        ensures
            match r {
                Ok(more) => old(self)@.next_element(old(de)@) == Ok::<_, ErrorView>(
                    (more, final(self)@, final(de)@),
                ),
                Err(e) => old(self)@.next_element(old(de)@) == Err::<
                    (bool, SeqView, DecoderView),
                    _,
                >(e@),
            },
    {
        if self.first {
            self.first = false;
            Ok(true)
        } else {
            de.finish_element(self.tag_name.as_str())?;
            let again = match de.peek()? {
                Event::StartElement { name, .. } => same_text(name.as_str(), self.tag_name.as_str()),
                _ => false,
            };
            if again {
                let _ = de.open_tag()?;
                Ok(true)
            } else {
                de.mark_closed();
                Ok(false)
            }
        }
    }
}

} // verus!
