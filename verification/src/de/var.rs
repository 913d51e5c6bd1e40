//! Access to a case of an enumeration: named by a tag, or by a text.

use vstd::prelude::*;
use crate::de::{DecoderView, Deserializer};
use crate::error::Outcome;
use crate::error::{ErrorView, Result, message};

verus! {

/// A case that the tag names which was opened last. It holds something:
/// a value, a tuple or the fields of a record.
pub struct VariantAccess {
    tag_name: String,
}

impl View for VariantAccess {
    type V = Seq<char>;

    /// The name of the case.
    closed spec fn view(&self) -> Seq<char> {
        self.tag_name@
    }
}

/// The name of the case in the tag context of `d`; without a tag context
/// there is none.
pub open spec fn variant_begin(d: DecoderView) -> Outcome<Seq<char>> {
    match d.tag {
        Some(tag) => Ok(tag),
        None => Err(ErrorView::Message("expected current tag"@)),
    }
}

impl VariantAccess {
    /// Access to the case that the tag names which was opened last.
    pub fn new(de: &Deserializer) -> (r: Result<Self>)
        ensures
            match r {
                Ok(access) => variant_begin(de@) == Ok::<_, ErrorView>(access@),
                Err(e) => variant_begin(de@) == Err::<Seq<char>, _>(e@),
            },
    {
        match de.current_tag() {
            Some(tag_name) => Ok(VariantAccess { tag_name }),
            None => Err(message("expected current tag")),
        }
    }

    /// The name of the case.
    pub fn variant(&self) -> (name: String)
        ensures
            name@ == self@,
    {
        self.tag_name.clone()
    }

    /// A case without content does not come as a tag.
    pub fn unit_variant(self) -> (r: Result<()>)
        ensures
            r matches Err(e) && e@ == ErrorView::Message("expected variant content"@),
    {
        Err(message("expected variant content"))
    }
}

/// A case that a text names. It holds nothing.
pub struct UnitVariantAccess {}

/// Reading the text that names a case.
pub open spec fn unit_variant_begin(d: DecoderView) -> Outcome<(Seq<char>, DecoderView)> {
    d.characters()
}

/// What asking a case that a text names for any content comes to.
pub open spec fn expected_unit_variant() -> ErrorView {
    ErrorView::Message("expected unit variant"@)
}

impl UnitVariantAccess {
    /// Access to the case that the next run of character data names.
    pub fn new() -> (r: Self) {
        UnitVariantAccess {  }
    }

    /// The name of the case: the text that comes next.
    pub fn variant(&self, de: &mut Deserializer) -> (r: Result<String>)
        ensures
            match r {
                Ok(name) => unit_variant_begin(old(de)@) == Ok::<_, ErrorView>(
                    (name@, final(de)@),
                ),
                Err(e) => unit_variant_begin(old(de)@) == Err::<(Seq<char>, DecoderView), _>(e@),
            },
            final(de)@ == old(de)@.advance(),
    {
        de.characters()
    }

    /// The case holds nothing, as it should.
    pub fn unit_variant(self) -> (r: Result<()>)
        ensures
            r is Ok,
    {
        Ok(())
    }

    /// The case cannot hold a value.
    pub fn newtype_variant(self) -> (r: Result<()>)
        ensures
            r matches Err(e) && e@ == expected_unit_variant(),
    {
        Err(message("expected unit variant"))
    }

    /// The case cannot hold a tuple.
    pub fn tuple_variant(self) -> (r: Result<()>)
        ensures
            r matches Err(e) && e@ == expected_unit_variant(),
    {
        Err(message("expected unit variant"))
    }

    /// The case cannot hold the fields of a record.
    pub fn struct_variant(self) -> (r: Result<()>)
        ensures
            r matches Err(e) && e@ == expected_unit_variant(),
    {
        Err(message("expected unit variant"))
    }
}

} // verus!
