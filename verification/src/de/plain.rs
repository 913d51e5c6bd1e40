//! Decoding from a text that was set aside: the value of an attribute, or
//! the text of an element.

use vstd::prelude::*;
use crate::de::semantics::{decode_plain, named_unit, variant_from};
use crate::de::var::UnitVariantAccess;
use crate::error::{ErrorView, Result, message, named};
use crate::text::{parse_i64, parse_truth, parse_u64};
use crate::value::{Content, ContentShape, ContentView, Shape, Value, ValueView, VariantShape};

verus! {

/// A text from which one value is decoded.
pub struct PlainStringDeserializer(pub String);

impl View for PlainStringDeserializer {
    type V = Seq<char>;

    open spec fn view(&self) -> Seq<char> {
        self.0@
    }
}

impl PlainStringDeserializer {
    /// The text.
    pub fn characters(self) -> (r: Result<String>)
        ensures
            r matches Ok(text) && text@ == self@,
    {
        Ok(self.0)
    }
}

/// The first case that has the name `name`.
pub fn find_variant(variants: &Vec<VariantShape>, name: &str) -> (r: Option<usize>)
    ensures
        match r {
            Some(i) => variant_from(variants@, name@, 0) == Some(i as int) && i < variants@.len(),
            None => variant_from(variants@, name@, 0) is None,
        },
{
    let wanted = String::from_str(name);
    let mut i: usize = 0;
    while i < variants.len()
        invariant
            i <= variants.len(),
            wanted@ == name@,
            variant_from(variants@, name@, i as int) == variant_from(variants@, name@, 0),
        decreases variants.len() - i,
    {
        if variants[i].name == wanted {
            return Some(i);
        }
        i = i + 1;
    }
    None
}

/// The case without content that `name` names.
pub fn unit_variant_named(variants: &Vec<VariantShape>, name: String) -> (r: Result<Value>)
    ensures
        match r {
            Ok(v) => named_unit(variants@, name@) == Ok::<_, ErrorView>(v@),
            Err(e) => named_unit(variants@, name@) == Err::<ValueView, _>(e@),
        },
{
    match find_variant(variants, name.as_str()) {
        None => Err(named("unknown variant ", name.as_str())),
        Some(i) => {
            let access = UnitVariantAccess::new();
            match &variants[i].content {
                ContentShape::Unit => {
                    access.unit_variant()?;
                    assert(Content::Unit@ == ContentView::Unit);
                    Ok(Value::Variant { name, content: Content::Unit })
                },
                ContentShape::Newtype(_) => {
                    access.newtype_variant()?;
                    Err(message("expected unit variant"))
                },
                ContentShape::Tuple(_) => {
                    access.tuple_variant()?;
                    Err(message("expected unit variant"))
                },
                ContentShape::Struct(_) => {
                    access.struct_variant()?;
                    Err(message("expected unit variant"))
                },
            }
        },
    }
}

impl PlainStringDeserializer {
    /// Decodes the value of the shape `shape` that the text holds.
    pub fn deserialize(self, shape: &Shape) -> (r: Result<Value>)
        ensures
            match r {
                Ok(v) => decode_plain(*shape, self@) == Ok::<_, ErrorView>(v@),
                Err(e) => decode_plain(*shape, self@) == Err::<ValueView, _>(e@),
            },
        decreases *shape,
    {
        match shape {
            Shape::Text => Ok(Value::Text(self.characters()?)),
            Shape::Any => Ok(Value::Text(self.characters()?)),
            Shape::Bool => Ok(Value::Bool(parse_truth(self.characters()?.as_str())?)),
            Shape::Int => Ok(Value::Int(parse_i64(self.characters()?.as_str())?)),
            Shape::UInt => Ok(Value::UInt(parse_u64(self.characters()?.as_str())?)),
            Shape::Optional(inner) => Ok(Value::Present(Box::new(self.deserialize(inner)?))),
            Shape::Enum { variants } => unit_variant_named(variants, self.characters()?),
            _ => Err(message("expected a scalar")),
        }
    }
}

} // verus!
