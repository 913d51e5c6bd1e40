//! The text of a scalar, for an attribute or for a place in a tuple.

use vstd::prelude::*;
use crate::text::text_view;
use crate::error::{ErrorView, Result, message};
use crate::ser::semantics::plain_text;
use crate::text::{format_i64, format_truth, format_u64};
use crate::value::{Content, ContentView, Value};

verus! {

/// The text of a scalar; none for an optional value that is absent.
pub fn to_plain_string(value: &Value) -> (r: Result<Option<String>>)
    ensures
        match r {
            Ok(text) => plain_text(value@) == Ok::<_, ErrorView>(text_view(text)),
            Err(e) => plain_text(value@) == Err::<Option<Seq<char>>, _>(e@),
        },
    decreases *value,
{
    match value {
        Value::Bool(b) => Ok(Some(format_truth(*b))),
        Value::Int(i) => Ok(Some(format_i64(*i))),
        Value::UInt(u) => Ok(Some(format_u64(*u))),
        Value::Text(s) => Ok(Some(s.clone())),
        Value::Absent => Ok(None),
        Value::Present(inner) => to_plain_string(inner),
        Value::Variant { name, content } => match content {
            Content::Unit => {
                assert(content@ == ContentView::Unit);
                Ok(Some(name.clone()))
            },
            Content::Newtype(_) => {
                Err(message("expected a scalar"))
            },
            Content::Tuple(_) => {
                Err(message("expected a scalar"))
            },
            Content::Struct(_) => {
                Err(message("expected a scalar"))
            },
        },
        _ => Err(message("expected a scalar")),
    }
}

} // verus!
