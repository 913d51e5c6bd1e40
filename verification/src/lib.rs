//! A codec between typed values and XML documents.
//!
//! The decoder reads a stream of markup events under one event of lookahead
//! and builds a [`value::Value`] of a requested [`value::Shape`]; the encoder
//! walks a value and emits markup events behind a one-tag write-behind
//! buffer, so that attributes can still join a tag after it was opened.

pub mod de;
pub mod error;
pub mod event;
pub mod list;
pub mod ser;
pub mod sink;
pub mod source;
pub mod symmetry;
pub mod text;
pub mod value;

pub use de::{from_reader, from_str, Deserializer};
pub use error::{Error, Result};
pub use ser::{to_string, to_writer, Serializer};
