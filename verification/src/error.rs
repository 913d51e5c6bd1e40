//! What can go wrong while decoding or encoding.

use vstd::prelude::*;
use xml::reader::Error as ParserFailure;
use xml::writer::Error as EmitterFailure;

verus! {

/// `xml::reader::Error`: why a parser could not go on. It is carried
/// through as it is.
#[verifier::external_type_specification]
#[verifier::external_body]
pub struct ExParserFailure(ParserFailure);

/// `xml::writer::Error`: why an emitter refused an event. It is carried
/// through as it is.
#[verifier::external_type_specification]
#[verifier::external_body]
pub struct ExEmitterFailure(EmitterFailure);

/// `std::num::ParseIntError`: why a text is no integer. It is carried
/// through as it is.
#[verifier::external_type_specification]
#[verifier::external_body]
pub struct ExParseIntError(std::num::ParseIntError);

/// `std::num::ParseFloatError`: why a text is no decimal fraction. It is
/// carried through as it is.
#[verifier::external_type_specification]
#[verifier::external_body]
pub struct ExParseFloatError(std::num::ParseFloatError);

/// `std::str::ParseBoolError`: why a text is no truth value. It is
/// carried through as it is.
#[verifier::external_type_specification]
#[verifier::external_body]
pub struct ExParseBoolError(std::str::ParseBoolError);

/// `std::string::FromUtf8Error`: why bytes are no text. It is carried
/// through as it is.
#[verifier::external_type_specification]
#[verifier::external_body]
pub struct ExFromUtf8Error(std::string::FromUtf8Error);

/// What the codec hands back: a value, or the error that ended the
/// work.
pub type Result<T> = std::result::Result<T, Error>;

/// The one error type of the codec: a cause, and for a text that could
/// not be read the text and what it was to be read as.
#[derive(Debug)]
pub struct Error(Box<ErrorImpl>, Option<Offence>);

/// A text that could not be read, and the type that it was to be read as.
#[derive(Debug, PartialEq, Eq)]
pub struct Offence {
    pub text: String,
    pub target: String,
}

/// The mathematical value of an [`Offence`].
pub struct OffenceView {
    pub text: Seq<char>,
    pub target: Seq<char>,
}

impl View for Offence {
    type V = OffenceView;

    open spec fn view(&self) -> OffenceView {
        OffenceView { text: self.text@, target: self.target@ }
    }
}

/// The causes of an [`Error`].
#[derive(Debug)]
pub enum ErrorImpl {
    /// A breach of the document's structure or of the codec's protocol,
    /// described in words.
    Message(String),
    /// The event source could not go on.
    Reader(xml::reader::Error),
    /// The event sink refused an event.
    Writer(xml::writer::Error),
    /// A text that should have been an integer is none.
    ParseIntError(std::num::ParseIntError),
    /// A text that should have been a decimal fraction is none.
    ParseFloatError(std::num::ParseFloatError),
    /// A text that should have been `true` or `false` is neither.
    ParseBoolError(std::str::ParseBoolError),
    /// The encoded document is not UTF-8.
    FromUtf8Error(std::string::FromUtf8Error),
}

/// The kind of an [`Error`], with the message where it carries one, and
/// with the offending text where it names one.
pub enum ErrorView {
    Message(Seq<char>),
    Reader,
    Writer,
    ParseInt(Option<OffenceView>),
    ParseFloat(Option<OffenceView>),
    ParseBool(Option<OffenceView>),
    FromUtf8,
}

impl ErrorView {
    /// The error with `offence` for what it names, where it is of a kind
    /// that names a text.
    pub open spec fn about(self, offence: Option<OffenceView>) -> ErrorView {
        match self {
            ErrorView::ParseInt(_) => ErrorView::ParseInt(offence),
            ErrorView::ParseFloat(_) => ErrorView::ParseFloat(offence),
            ErrorView::ParseBool(_) => ErrorView::ParseBool(offence),
            _ => self,
        }
    }

    /// The text that the error names and what it was to be read as.
    pub open spec fn offence(self) -> Option<OffenceView> {
        match self {
            ErrorView::ParseInt(o) => o,
            ErrorView::ParseFloat(o) => o,
            ErrorView::ParseBool(o) => o,
            _ => None,
        }
    }

    /// The error for a text that could not be read as `target`.
    pub open spec fn naming(self, text: Seq<char>, target: Seq<char>) -> ErrorView {
        self.about(Some(OffenceView { text, target }))
    }
}

/// What a step of the codec comes to in the model: its result, or the
/// error that ends the work.
pub type Outcome<T> = std::result::Result<T, ErrorView>;

impl View for ErrorImpl {
    type V = ErrorView;

    open spec fn view(&self) -> ErrorView {
        match *self {
            ErrorImpl::Message(m) => ErrorView::Message(m@),
            ErrorImpl::Reader(_) => ErrorView::Reader,
            ErrorImpl::Writer(_) => ErrorView::Writer,
            ErrorImpl::ParseIntError(_) => ErrorView::ParseInt(None),
            ErrorImpl::ParseFloatError(_) => ErrorView::ParseFloat(None),
            ErrorImpl::ParseBoolError(_) => ErrorView::ParseBool(None),
            ErrorImpl::FromUtf8Error(_) => ErrorView::FromUtf8,
        }
    }
}

impl View for Error {
    type V = ErrorView;

    closed spec fn view(&self) -> ErrorView {
        (*self.0)@.about(
            match self.1 {
                Some(offence) => Some(offence@),
                None => None,
            },
        )
    }
}

/// `ToString::to_string` of `xml::reader::Error`: the error in words.
#[verifier::external_body]
fn parser_failure_text(err: &ParserFailure) -> (text: String) {
    err.to_string()
}

/// `ToString::to_string` of `xml::writer::Error`: the error in words.
#[verifier::external_body]
fn emitter_failure_text(err: &EmitterFailure) -> (text: String) {
    err.to_string()
}

/// `ToString::to_string` of `std::num::ParseIntError`: the error in
/// words.
#[verifier::external_body]
fn parse_int_text(err: &std::num::ParseIntError) -> (text: String) {
    err.to_string()
}

/// `ToString::to_string` of `std::num::ParseFloatError`: the error in
/// words.
#[verifier::external_body]
fn parse_float_text(err: &std::num::ParseFloatError) -> (text: String) {
    err.to_string()
}

/// `ToString::to_string` of `std::str::ParseBoolError`: the error in
/// words.
#[verifier::external_body]
fn parse_bool_text(err: &std::str::ParseBoolError) -> (text: String) {
    err.to_string()
}

/// `ToString::to_string` of `std::string::FromUtf8Error`: the error in
/// words.
#[verifier::external_body]
fn from_utf8_text(err: &std::string::FromUtf8Error) -> (text: String) {
    err.to_string()
}

impl Error {
    /// The error in words: the message of an error that carries one, and
    /// else what the cause says of itself.
    pub fn to_text(&self) -> (text: String)
        ensures
            self@ matches ErrorView::Message(m) ==> text@ == m,
    {
        match &*self.0 {
            ErrorImpl::Message(m) => m.clone(),
            ErrorImpl::Reader(err) => parser_failure_text(err),
            ErrorImpl::Writer(err) => emitter_failure_text(err),
            ErrorImpl::ParseIntError(err) => parse_int_text(err),
            ErrorImpl::ParseFloatError(err) => parse_float_text(err),
            ErrorImpl::ParseBoolError(err) => parse_bool_text(err),
            ErrorImpl::FromUtf8Error(err) => from_utf8_text(err),
        }
    }

    /// The cause of the error.
    pub fn into_inner(self) -> (cause: ErrorImpl)
        ensures
            cause@ == self@.about(None),
    {
        *self.0
    }

    /// The error with the text named that could not be read as `target`.
    /// An error of another kind names no text.
    pub fn naming(self, text: &str, target: &str) -> (e: Error)
        ensures
            e@ == self@.naming(text@, target@),
    {
        let offence = Offence { text: String::from_str(text), target: String::from_str(target) };
        Error(self.0, Some(offence))
    }

    /// The text that could not be read and what it was to be read as,
    /// where the error names them.
    pub fn offence(&self) -> (r: Option<Offence>)
        ensures
            match r {
                Some(offence) => self@.offence() == Some(offence@),
                None => self@.offence() is None,
            },
    {
        match &*self.0 {
            ErrorImpl::ParseIntError(_) => {},
            ErrorImpl::ParseFloatError(_) => {},
            ErrorImpl::ParseBoolError(_) => {},
            _ => {
                return None;
            },
        }
        match &self.1 {
            Some(offence) => Some(
                Offence { text: offence.text.clone(), target: offence.target.clone() },
            ),
            None => None,
        }
    }
}

/// An error that carries the message `s`.
pub fn with_message(s: String) -> (e: Error)
    ensures
        e@ == ErrorView::Message(s@),
{
    Error(Box::new(ErrorImpl::Message(s)), None)
}

/// The error for a text that is no integer.
pub fn parse_int(err: std::num::ParseIntError) -> (e: Error)
    ensures
        e@ == ErrorView::ParseInt(None),
{
    Error(Box::new(ErrorImpl::ParseIntError(err)), None)
}

/// The error for a text that is no decimal fraction.
pub fn parse_float(err: std::num::ParseFloatError) -> (e: Error)
    ensures
        e@ == ErrorView::ParseFloat(None),
{
    Error(Box::new(ErrorImpl::ParseFloatError(err)), None)
}

/// The error for a text that is neither `true` nor `false`.
pub fn parse_bool(err: std::str::ParseBoolError) -> (e: Error)
    ensures
        e@ == ErrorView::ParseBool(None),
{
    Error(Box::new(ErrorImpl::ParseBoolError(err)), None)
}

/// The error for an event source that could not go on.
pub fn reader(err: xml::reader::Error) -> (e: Error)
    ensures
        e@ == ErrorView::Reader,
{
    Error(Box::new(ErrorImpl::Reader(err)), None)
}

/// The error for an event sink that refused an event.
pub fn writer(err: xml::writer::Error) -> (e: Error)
    ensures
        e@ == ErrorView::Writer,
{
    Error(Box::new(ErrorImpl::Writer(err)), None)
}

/// The error for an encoded document that is not UTF-8.
pub fn from_utf8(err: std::string::FromUtf8Error) -> (e: Error)
    ensures
        e@ == ErrorView::FromUtf8,
{
    Error(Box::new(ErrorImpl::FromUtf8Error(err)), None)
}

/// An error that carries the message `about` followed by `name`.
pub fn named(about: &str, name: &str) -> (e: Error)
    ensures
        e@ == ErrorView::Message(about@ + name@),
{
    let mut text = String::from_str(about);
    text.append(name);
    with_message(text)
}

/// An error that carries the message `s`.
pub fn message(s: &str) -> (e: Error)
    ensures
        e@ == ErrorView::Message(s@),
{
    with_message(String::from_str(s))
}

} // verus!
