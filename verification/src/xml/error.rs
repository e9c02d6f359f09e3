//! Errors of XML reading.

use crate::text::IntErrorKind;
use vstd::prelude::*;

verus! {

/// Declares `quick_xml::Error` to the verifier; its values are carried, never inspected.
#[verifier::external_type_specification]
#[verifier::external_body]
pub struct ExQuickXmlError(quick_xml::Error);

/// Declares `quick_xml::events::attributes::AttrError` to the verifier.
#[verifier::external_type_specification]
#[verifier::external_body]
pub struct ExQuickXmlAttrError(quick_xml::events::attributes::AttrError);

/// A text is no property name of an enum.
#[derive(Debug, Clone, Copy, PartialEq, Eq, Structural)]
pub struct FromStrError;

/// Why a text value could not be read as a value of its type.
#[derive(Debug)]
pub enum ParseValueError {
    /// The text is not the decimal text of an integer of the type's range.
    ParseIntError(IntErrorKind),
    /// The text is not the text of a floating-point number.
    ParseFloatError,
    /// Any other reason, in words.
    Other(String),
}

/// Errors of XML reading.
#[derive(Debug)]
pub enum XmlError {
    /// The XML reader failed.
    QuickXmlError(quick_xml::Error),
    /// An attribute could not be read.
    QuickXmlAttrError(quick_xml::events::attributes::AttrError),
    /// The root element is not the one expected: found namespace, found
    /// name, expected namespace, expected name.
    InvalidTag(String, String, String, String),
    /// A required field did not occur.
    MissingField(&'static str),
    /// The document ended before the open elements were closed.
    Eof,
    /// An event that the reader does not handle at that place.
    UnsupportedEvent(&'static str),
    /// Any other error, in words.
    Other(String),
    /// No variant of an enum matches the element.
    InvalidVariant(String),
    /// An element that is no field of the struct: the struct, and the element.
    InvalidFieldName(&'static str, String),
    /// A text value could not be read.
    InvalidValue(ParseValueError),
}

} // verus!
