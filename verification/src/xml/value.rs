//! Text values: how numbers and strings are written as XML text and read back.

use crate::text::{chars_of, format_i64, format_u64, int_text, lemma_parse_int_text, parse_integer, parse_integer_spec};
use crate::xml::error::{ParseValueError, XmlError};
use vstd::prelude::*;

verus! {

/// A value that is written as XML text.
pub trait ValueSerialize {
    /// The text of the value.
    spec fn value_text(&self) -> Seq<char>;

    /// Writes the value as text.
    fn serialize(&self) -> (res: String)
        ensures
            res@ == self.value_text(),
    ;
}

/// A value that is read from XML text.
pub trait ValueDeserialize: Sized {
    /// Whether reading `text` gives `res`. For every text exactly one result
    /// satisfies it.
    spec fn deserializes_to(text: Seq<char>, res: Result<Self, XmlError>) -> bool;

    /// Reads a value from its text.
    fn deserialize(val: &str) -> (res: Result<Self, XmlError>)
        ensures
            Self::deserializes_to(val@, res),
    ;
}

fn read_integer(val: &str, min: i128, max: i128) -> (res: Result<i128, XmlError>)
    requires
        -0x1_0000_0000_0000_0000 <= min <= 0,
        0 <= max <= 0x1_0000_0000_0000_0000,
    ensures
        match parse_integer_spec(val@, min as int, max as int) {
            Ok(v) => res == Ok::<i128, XmlError>(v as i128) && min <= v <= max,
            Err(k) => res == Err::<i128, XmlError>(XmlError::InvalidValue(ParseValueError::ParseIntError(k))),
        },
{
    let chars = chars_of(val);
    match parse_integer(&chars, min, max) {
        Ok(v) => {
            proof {
                lemma_parse_range(val@, min as int, max as int);
            }
            Ok(v)
        },
        Err(k) => Err(XmlError::InvalidValue(ParseValueError::ParseIntError(k))),
    }
}

proof fn lemma_parse_range(s: Seq<char>, min: int, max: int)
    requires
        min <= 0 <= max,
    ensures
        parse_integer_spec(s, min, max) matches Ok(v) ==> min <= v <= max,
{
    crate::text::lemma_parse_in_range(s, min, max);
}

impl ValueSerialize for String {
    open spec fn value_text(&self) -> Seq<char> {
        self@
    }

    fn serialize(&self) -> (res: String) {
        self.clone()
    }
}

impl<'a> ValueSerialize for &'a str {
    open spec fn value_text(&self) -> Seq<char> {
        (*self)@
    }

    fn serialize(&self) -> (res: String) {
        (*self).to_owned()
    }
}

impl ValueDeserialize for String {
    open spec fn deserializes_to(text: Seq<char>, res: Result<String, XmlError>) -> bool {
        res matches Ok(s) && s@ == text
    }

    fn deserialize(val: &str) -> (res: Result<String, XmlError>) {
        Ok(val.to_owned())
    }
}

/// Reading back the text of a string gives the string.
pub proof fn law_string_value_roundtrip(s: String, res: Result<String, XmlError>)
    requires
        <String as ValueDeserialize>::deserializes_to(s.value_text(), res),
    ensures
        res matches Ok(r) && r@ == s@,
{
}

impl ValueSerialize for i8 {
    open spec fn value_text(&self) -> Seq<char> {
        int_text(*self as int)
    }

    fn serialize(&self) -> (res: String) {
        format_i64(*self as i64)
    }
}

impl ValueDeserialize for i8 {
    open spec fn deserializes_to(text: Seq<char>, res: Result<i8, XmlError>) -> bool {
        match parse_integer_spec(text, i8::MIN as int, i8::MAX as int) {
            Ok(v) => res == Ok::<i8, XmlError>(v as i8),
            Err(k) => res == Err::<i8, XmlError>(XmlError::InvalidValue(ParseValueError::ParseIntError(k))),
        }
    }

    fn deserialize(val: &str) -> (res: Result<i8, XmlError>) {
        match read_integer(val, i8::MIN as i128, i8::MAX as i128) {
            Ok(v) => Ok(v as i8),
            Err(e) => Err(e),
        }
    }
}

/// Reading back the text of a `i8` gives the value.
pub proof fn law_i8_value_roundtrip(v: i8)
    ensures
        <i8 as ValueDeserialize>::deserializes_to(v.value_text(), Ok::<i8, XmlError>(v)),
{
    lemma_parse_int_text(v as int, i8::MIN as int, i8::MAX as int);
}

impl ValueSerialize for u8 {
    open spec fn value_text(&self) -> Seq<char> {
        int_text(*self as int)
    }

    fn serialize(&self) -> (res: String) {
        format_u64(*self as u64)
    }
}

impl ValueDeserialize for u8 {
    open spec fn deserializes_to(text: Seq<char>, res: Result<u8, XmlError>) -> bool {
        match parse_integer_spec(text, u8::MIN as int, u8::MAX as int) {
            Ok(v) => res == Ok::<u8, XmlError>(v as u8),
            Err(k) => res == Err::<u8, XmlError>(XmlError::InvalidValue(ParseValueError::ParseIntError(k))),
        }
    }

    fn deserialize(val: &str) -> (res: Result<u8, XmlError>) {
        match read_integer(val, u8::MIN as i128, u8::MAX as i128) {
            Ok(v) => Ok(v as u8),
            Err(e) => Err(e),
        }
    }
}

/// Reading back the text of a `u8` gives the value.
pub proof fn law_u8_value_roundtrip(v: u8)
    ensures
        <u8 as ValueDeserialize>::deserializes_to(v.value_text(), Ok::<u8, XmlError>(v)),
{
    lemma_parse_int_text(v as int, u8::MIN as int, u8::MAX as int);
}

impl ValueSerialize for i16 {
    open spec fn value_text(&self) -> Seq<char> {
        int_text(*self as int)
    }

    fn serialize(&self) -> (res: String) {
        format_i64(*self as i64)
    }
}

impl ValueDeserialize for i16 {
    open spec fn deserializes_to(text: Seq<char>, res: Result<i16, XmlError>) -> bool {
        match parse_integer_spec(text, i16::MIN as int, i16::MAX as int) {
            Ok(v) => res == Ok::<i16, XmlError>(v as i16),
            Err(k) => res == Err::<i16, XmlError>(XmlError::InvalidValue(ParseValueError::ParseIntError(k))),
        }
    }

    fn deserialize(val: &str) -> (res: Result<i16, XmlError>) {
        match read_integer(val, i16::MIN as i128, i16::MAX as i128) {
            Ok(v) => Ok(v as i16),
            Err(e) => Err(e),
        }
    }
}

/// Reading back the text of a `i16` gives the value.
pub proof fn law_i16_value_roundtrip(v: i16)
    ensures
        <i16 as ValueDeserialize>::deserializes_to(v.value_text(), Ok::<i16, XmlError>(v)),
{
    lemma_parse_int_text(v as int, i16::MIN as int, i16::MAX as int);
}

impl ValueSerialize for u16 {
    open spec fn value_text(&self) -> Seq<char> {
        int_text(*self as int)
    }

    fn serialize(&self) -> (res: String) {
        format_u64(*self as u64)
    }
}

impl ValueDeserialize for u16 {
    open spec fn deserializes_to(text: Seq<char>, res: Result<u16, XmlError>) -> bool {
        match parse_integer_spec(text, u16::MIN as int, u16::MAX as int) {
            Ok(v) => res == Ok::<u16, XmlError>(v as u16),
            Err(k) => res == Err::<u16, XmlError>(XmlError::InvalidValue(ParseValueError::ParseIntError(k))),
        }
    }

    fn deserialize(val: &str) -> (res: Result<u16, XmlError>) {
        match read_integer(val, u16::MIN as i128, u16::MAX as i128) {
            Ok(v) => Ok(v as u16),
            Err(e) => Err(e),
        }
    }
}

/// Reading back the text of a `u16` gives the value.
pub proof fn law_u16_value_roundtrip(v: u16)
    ensures
        <u16 as ValueDeserialize>::deserializes_to(v.value_text(), Ok::<u16, XmlError>(v)),
{
    lemma_parse_int_text(v as int, u16::MIN as int, u16::MAX as int);
}

impl ValueSerialize for i32 {
    open spec fn value_text(&self) -> Seq<char> {
        int_text(*self as int)
    }

    fn serialize(&self) -> (res: String) {
        format_i64(*self as i64)
    }
}

impl ValueDeserialize for i32 {
    open spec fn deserializes_to(text: Seq<char>, res: Result<i32, XmlError>) -> bool {
        match parse_integer_spec(text, i32::MIN as int, i32::MAX as int) {
            Ok(v) => res == Ok::<i32, XmlError>(v as i32),
            Err(k) => res == Err::<i32, XmlError>(XmlError::InvalidValue(ParseValueError::ParseIntError(k))),
        }
    }

    fn deserialize(val: &str) -> (res: Result<i32, XmlError>) {
        match read_integer(val, i32::MIN as i128, i32::MAX as i128) {
            Ok(v) => Ok(v as i32),
            Err(e) => Err(e),
        }
    }
}

/// Reading back the text of a `i32` gives the value.
pub proof fn law_i32_value_roundtrip(v: i32)
    ensures
        <i32 as ValueDeserialize>::deserializes_to(v.value_text(), Ok::<i32, XmlError>(v)),
{
    lemma_parse_int_text(v as int, i32::MIN as int, i32::MAX as int);
}

impl ValueSerialize for u32 {
    open spec fn value_text(&self) -> Seq<char> {
        int_text(*self as int)
    }

    fn serialize(&self) -> (res: String) {
        format_u64(*self as u64)
    }
}

impl ValueDeserialize for u32 {
    open spec fn deserializes_to(text: Seq<char>, res: Result<u32, XmlError>) -> bool {
        match parse_integer_spec(text, u32::MIN as int, u32::MAX as int) {
            Ok(v) => res == Ok::<u32, XmlError>(v as u32),
            Err(k) => res == Err::<u32, XmlError>(XmlError::InvalidValue(ParseValueError::ParseIntError(k))),
        }
    }

    fn deserialize(val: &str) -> (res: Result<u32, XmlError>) {
        match read_integer(val, u32::MIN as i128, u32::MAX as i128) {
            Ok(v) => Ok(v as u32),
            Err(e) => Err(e),
        }
    }
}

/// Reading back the text of a `u32` gives the value.
pub proof fn law_u32_value_roundtrip(v: u32)
    ensures
        <u32 as ValueDeserialize>::deserializes_to(v.value_text(), Ok::<u32, XmlError>(v)),
{
    lemma_parse_int_text(v as int, u32::MIN as int, u32::MAX as int);
}

impl ValueSerialize for i64 {
    open spec fn value_text(&self) -> Seq<char> {
        int_text(*self as int)
    }

    fn serialize(&self) -> (res: String) {
        format_i64(*self as i64)
    }
}

impl ValueDeserialize for i64 {
    open spec fn deserializes_to(text: Seq<char>, res: Result<i64, XmlError>) -> bool {
        match parse_integer_spec(text, i64::MIN as int, i64::MAX as int) {
            Ok(v) => res == Ok::<i64, XmlError>(v as i64),
            Err(k) => res == Err::<i64, XmlError>(XmlError::InvalidValue(ParseValueError::ParseIntError(k))),
        }
    }

    fn deserialize(val: &str) -> (res: Result<i64, XmlError>) {
        match read_integer(val, i64::MIN as i128, i64::MAX as i128) {
            Ok(v) => Ok(v as i64),
            Err(e) => Err(e),
        }
    }
}

/// Reading back the text of a `i64` gives the value.
pub proof fn law_i64_value_roundtrip(v: i64)
    ensures
        <i64 as ValueDeserialize>::deserializes_to(v.value_text(), Ok::<i64, XmlError>(v)),
{
    lemma_parse_int_text(v as int, i64::MIN as int, i64::MAX as int);
}

impl ValueSerialize for u64 {
    open spec fn value_text(&self) -> Seq<char> {
        int_text(*self as int)
    }

    fn serialize(&self) -> (res: String) {
        format_u64(*self as u64)
    }
}

impl ValueDeserialize for u64 {
    open spec fn deserializes_to(text: Seq<char>, res: Result<u64, XmlError>) -> bool {
        match parse_integer_spec(text, u64::MIN as int, u64::MAX as int) {
            Ok(v) => res == Ok::<u64, XmlError>(v as u64),
            Err(k) => res == Err::<u64, XmlError>(XmlError::InvalidValue(ParseValueError::ParseIntError(k))),
        }
    }

    fn deserialize(val: &str) -> (res: Result<u64, XmlError>) {
        match read_integer(val, u64::MIN as i128, u64::MAX as i128) {
            Ok(v) => Ok(v as u64),
            Err(e) => Err(e),
        }
    }
}

/// Reading back the text of a `u64` gives the value.
pub proof fn law_u64_value_roundtrip(v: u64)
    ensures
        <u64 as ValueDeserialize>::deserializes_to(v.value_text(), Ok::<u64, XmlError>(v)),
{
    lemma_parse_int_text(v as int, u64::MIN as int, u64::MAX as int);
}

impl ValueSerialize for isize {
    open spec fn value_text(&self) -> Seq<char> {
        int_text(*self as int)
    }

    fn serialize(&self) -> (res: String) {
        format_i64(*self as i64)
    }
}

impl ValueDeserialize for isize {
    open spec fn deserializes_to(text: Seq<char>, res: Result<isize, XmlError>) -> bool {
        match parse_integer_spec(text, isize::MIN as int, isize::MAX as int) {
            Ok(v) => res == Ok::<isize, XmlError>(v as isize),
            Err(k) => res == Err::<isize, XmlError>(XmlError::InvalidValue(ParseValueError::ParseIntError(k))),
        }
    }

    fn deserialize(val: &str) -> (res: Result<isize, XmlError>) {
        match read_integer(val, isize::MIN as i128, isize::MAX as i128) {
            Ok(v) => Ok(v as isize),
            Err(e) => Err(e),
        }
    }
}

/// Reading back the text of a `isize` gives the value.
pub proof fn law_isize_value_roundtrip(v: isize)
    ensures
        <isize as ValueDeserialize>::deserializes_to(v.value_text(), Ok::<isize, XmlError>(v)),
{
    lemma_parse_int_text(v as int, isize::MIN as int, isize::MAX as int);
}

impl ValueSerialize for usize {
    open spec fn value_text(&self) -> Seq<char> {
        int_text(*self as int)
    }

    fn serialize(&self) -> (res: String) {
        format_u64(*self as u64)
    }
}

impl ValueDeserialize for usize {
    open spec fn deserializes_to(text: Seq<char>, res: Result<usize, XmlError>) -> bool {
        match parse_integer_spec(text, usize::MIN as int, usize::MAX as int) {
            Ok(v) => res == Ok::<usize, XmlError>(v as usize),
            Err(k) => res == Err::<usize, XmlError>(XmlError::InvalidValue(ParseValueError::ParseIntError(k))),
        }
    }

    fn deserialize(val: &str) -> (res: Result<usize, XmlError>) {
        match read_integer(val, usize::MIN as i128, usize::MAX as i128) {
            Ok(v) => Ok(v as usize),
            Err(e) => Err(e),
        }
    }
}

/// Reading back the text of a `usize` gives the value.
pub proof fn law_usize_value_roundtrip(v: usize)
    ensures
        <usize as ValueDeserialize>::deserializes_to(v.value_text(), Ok::<usize, XmlError>(v)),
{
    lemma_parse_int_text(v as int, usize::MIN as int, usize::MAX as int);
}

} // verus!
