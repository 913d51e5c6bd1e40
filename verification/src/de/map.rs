//! Map-shaped access to an element: its attributes first, then its text
//! or its children.

use vstd::prelude::*;
use crate::de::plain::PlainStringDeserializer;
use crate::de::{DecoderView, Deserializer};
use crate::error::Outcome;
use crate::error::{ErrorView, Result, message};
use crate::event::{Attribute, AttributeView, Event, EventView, attributes_view};
use crate::list::reversed;
use crate::text::text_view;

verus! {

/// The cursor of one map-shaped decoding.
pub struct MapAccess {
    attributes: Vec<Attribute>,
    value: Option<String>,
    end_tag: Option<String>,
}

/// The mathematical state of a [`MapAccess`].
pub struct MapView {
    /// The attributes that were not yet yielded as keys.
    pub attributes: Seq<AttributeView>,
    /// The text that the value of the last key is read from, where the key
    /// was an attribute or the text of the element.
    pub value: Option<Seq<char>>,
    /// The element that the last key opened and that is still to be left.
    pub end_tag: Option<Seq<char>>,
}

/// The key under which an attribute shows.
pub open spec fn attribute_key(name: Seq<char>) -> Seq<char> {
    seq!['@'] + name
}

/// The key under which the text of an element shows.
pub open spec fn text_key() -> Seq<char> {
    seq!['.']
}

impl MapView {
    /// The state before the first key.
    pub open spec fn begin(attributes: Seq<AttributeView>) -> MapView {
        MapView { attributes, value: None, end_tag: None }
    }

    /// The next key, or none at the end of the element: an attribute that
    /// is left; else the text of the element, or the child that comes next,
    /// which becomes the tag context.
    pub open spec fn next_key(self, d: DecoderView) -> Outcome<
        (Option<Seq<char>>, MapView, DecoderView),
    > {
        if self.attributes.len() > 0 {
            let a = self.attributes[0];
            Ok(
                (
                    Some(attribute_key(a.name)),
                    MapView { attributes: self.attributes.skip(1), value: Some(a.value), ..self },
                    d,
                ),
            )
        } else {
            match d.head() {
                None => Err(ErrorView::Reader),
                Some(EventView::EndElement { .. }) => Ok((None, self, d)),
                Some(EventView::EndDocument) => Ok((None, self, d)),
                Some(EventView::Characters(text)) => Ok(
                    (Some(text_key()), MapView { value: Some(text), ..self }, d.advance()),
                ),
                Some(EventView::StartElement { name, attributes, .. }) => Ok(
                    (
                        Some(name),
                        MapView { end_tag: Some(name), ..self },
                        d.advance().enter(name, attributes),
                    ),
                ),
                Some(_) => Err(ErrorView::Message("expected map key"@)),
            }
        }
    }

    /// Leaving the child that the last key opened.
    pub open spec fn finish_value(self, d: DecoderView) -> Outcome<(MapView, DecoderView)> {
        match self.end_tag {
            None => Err(ErrorView::Message("no open tag to close"@)),
            Some(name) => match d.finish_element(name) {
                Err(e) => Err(e),
                Ok(d1) => Ok((MapView { end_tag: None, ..self }, d1)),
            },
        }
    }
}

impl View for MapAccess {
    type V = MapView;

    closed spec fn view(&self) -> MapView {
        MapView {
            attributes: attributes_view(self.attributes@).reverse(),
            value: text_view(self.value),
            end_tag: text_view(self.end_tag),
        }
    }
}

impl MapAccess {
    /// Access to an element whose start tag held `attributes`.
    pub fn new(attributes: Vec<Attribute>) -> (r: Self)
        ensures
            r@ == MapView::begin(attributes_view(attributes@)),
    {
        let ghost given = attributes_view(attributes@);
        let rest = reversed(attributes);
        assert(attributes_view(rest@).reverse() =~= given);
        MapAccess { attributes: rest, value: None, end_tag: None }
    }

    /// The next key, or none at the end of the element.
    pub fn next_key(&mut self, de: &mut Deserializer) -> (r: Result<Option<String>>)
        ensures
            match r {
                Ok(key) => old(self)@.next_key(old(de)@) == Ok::<_, ErrorView>(
                    (text_view(key), final(self)@, final(de)@),
                ),
                Err(e) => old(self)@.next_key(old(de)@) == Err::<
                    (Option<Seq<char>>, MapView, DecoderView),
                    _,
                >(e@) && final(self)@ == old(self)@ && final(de)@ == old(de)@,
            },
    {
        let ghost before = attributes_view(self.attributes@);
        match self.attributes.pop() {
            Some(attribute) => {
                let Attribute { name, value } = attribute;
                proof {
                    assert(attributes_view(self.attributes@) =~= before.drop_last());
                    assert(before.drop_last().reverse() =~= before.reverse().skip(1));
                }
                self.value = Some(value);
                let mut key = String::from_str("@");
                key.append(name.as_str());
                proof {
                    reveal_strlit("@");
                    assert("@"@ =~= seq!['@']);
                }
                Ok(Some(key))
            },
            None => {
                match *de.peek()? {
                    Event::EndElement { .. } | Event::EndDocument => Ok(None),
                    Event::Characters(_) => {
                        self.value = Some(de.characters()?);
                        proof {
                            reveal_strlit(".");
                            assert("."@ =~= seq!['.']);
                        }
                        Ok(Some(String::from_str(".")))
                    },
                    Event::StartElement { .. } => {
                        let name = de.open_tag()?;
                        self.end_tag = Some(name.clone());
                        Ok(Some(name))
                    },
                    _ => Err(message("expected map key")),
                }
            },
        }
    }

    /// The text that the value of the last key is read from, where the key
    /// was an attribute or the text of the element; none where the value is
    /// the content of a child.
    pub fn next_value(&mut self) -> (r: Option<PlainStringDeserializer>)
        ensures
            match r {
                Some(plain) => old(self)@.value == Some(plain@),
                None => old(self)@.value is None,
            },
            final(self)@ == (MapView { value: None, ..old(self)@ }),
    {
        match self.value.take() {
            Some(text) => Some(PlainStringDeserializer(text)),
            None => None,
        }
    }

    /// Leaves the child that the last key opened, once its content was
    /// decoded.
    pub fn finish_value(&mut self, de: &mut Deserializer) -> (r: Result<()>)
        ensures
            match r {
                Ok(_) => old(self)@.finish_value(old(de)@) == Ok::<_, ErrorView>(
                    (final(self)@, final(de)@),
                ),
                Err(e) => old(self)@.finish_value(old(de)@) == Err::<(MapView, DecoderView), _>(
                    e@,
                ),
            },
    {
        match self.end_tag.take() {
            Some(name) => de.finish_element(name.as_str()),
            None => Err(message("no open tag to close")),
        }
    }
}

} // verus!
