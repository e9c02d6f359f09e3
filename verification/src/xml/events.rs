//! The events `quick_xml` reads from a document held as text, with the
//! namespaces their names resolve to.

use crate::xml::error::XmlError;
use crate::xml::namespace::NamespaceOwned;
use crate::text::{utf8_lossy, utf8_lossy_text};
use crate::xml::read::{DocumentEvent, ResolvedNs};
use crate::xml::write::{document_header, events_view, header, WriteEvent, WriteEventView};
use quick_xml::events::{BytesEnd, BytesStart, BytesText};
use quick_xml::events::Event;
use quick_xml::events::Event::{CData, Comment, Decl, DocType, Empty, End, Eof, GeneralRef, Start, Text, PI};
use quick_xml::name::ResolveResult::{Bound, Unbound, Unknown};
use quick_xml::{NsReader, Writer};
use vstd::prelude::*;
use vstd::utf8::encode_utf8;

verus! {

/// Declares `quick_xml::events::Event` to the verifier; its values are converted, never inspected.
#[verifier::external_type_specification]
#[verifier::external_body]
pub struct ExQuickXmlEvent<'a>(Event<'a>);

/// An event of a document as `quick_xml` reads it, before the namespace of
/// its name is resolved.
#[derive(Debug, Clone)]
pub enum RawEvent {
    /// A start tag, or an empty element when `empty`, with its local name.
    Start { name: Vec<u8>, empty: bool },
    Decl,
    Comment,
    Eof,
    Text,
    CData,
    DocType,
    PI,
    /// An end tag.
    End,
    /// A general (entity or character) reference.
    GeneralRef,
}

/// Whether `quick_xml`'s namespace reader, trimming text, reads the first
/// `k + 1` events of a document without error (past its end it keeps
/// reading the end of the input).
pub uninterp spec fn quick_xml_reads(input: Seq<u8>, k: nat) -> bool;

/// The event at position `k` that `quick_xml`'s namespace reader, trimming
/// text, reads from a document.
pub uninterp spec fn quick_xml_raw_event(input: Seq<u8>, k: nat) -> RawEvent;

/// The namespace that `quick_xml`'s namespace reader resolves for the event
/// at position `k` of a document: that of the element's name for a start
/// tag, end tag or empty element, unbound for any other event.
pub uninterp spec fn quick_xml_namespace(input: Seq<u8>, k: nat) -> ResolvedNs;

/// Reads the event at position `k` of a document with a fresh
/// `quick_xml::NsReader::from_str`, `trim_text(true)`, and `read_event`
/// called `k + 1` times. The contract says that the event, and whether the
/// reading fails, depend on the text and `k` alone; the reader's error is
/// returned as a `QuickXmlError`.
#[verifier::external_body]
fn read_raw_event(input: &str, k: usize) -> (res: Result<RawEvent, XmlError>)
    ensures
        res is Ok <==> quick_xml_reads(encode_utf8(input@), k as nat),
        res matches Ok(e) ==> e == quick_xml_raw_event(encode_utf8(input@), k as nat),
        res matches Err(e) ==> e is QuickXmlError,
{
    let mut reader = NsReader::from_str(input);
    reader.config_mut().trim_text(true);
    for _ in 0..k {
        reader.read_event().map_err(XmlError::QuickXmlError)?;
    }
    let e = reader.read_event().map_err(XmlError::QuickXmlError)?;
    let empty = matches!(e, Empty(_));
    Ok(match e {
        Start(s) | Empty(s) => RawEvent::Start { name: s.local_name().as_ref().to_vec(), empty },
        Decl(_) => RawEvent::Decl, Comment(_) => RawEvent::Comment, DocType(_) => RawEvent::DocType, Eof => RawEvent::Eof,
        Text(_) => RawEvent::Text, CData(_) => RawEvent::CData, PI(_) => RawEvent::PI,
        End(_) => RawEvent::End, GeneralRef(_) => RawEvent::GeneralRef,
    })
}

/// Reads the namespace of the event at position `k` of a document with a
/// fresh `quick_xml::NsReader::from_str`, `trim_text(true)`, `read_event`
/// called `k` times and `read_resolved_event`. The contract says that the
/// namespace, and whether the reading fails, depend on the text and `k`
/// alone (`read_event` and `read_resolved_event` read alike); the reader's
/// error is returned as a `QuickXmlError`.
#[verifier::external_body]
fn read_namespace(input: &str, k: usize) -> (res: Result<ResolvedNs, XmlError>)
    ensures
        res is Ok <==> quick_xml_reads(encode_utf8(input@), k as nat),
        res matches Ok(n) ==> n == quick_xml_namespace(encode_utf8(input@), k as nat),
        res matches Err(e) ==> e is QuickXmlError,
{
    let mut reader = NsReader::from_str(input);
    reader.config_mut().trim_text(true);
    for _ in 0..k {
        reader.read_event().map_err(XmlError::QuickXmlError)?;
    }
    let (r, _) = reader.read_resolved_event().map_err(XmlError::QuickXmlError)?;
    Ok(match r { Bound(n) => ResolvedNs::Bound(NamespaceOwned(n.0.to_vec())), Unbound => ResolvedNs::Unbound, Unknown(p) => ResolvedNs::Unknown(p) })
}

/// An event with the namespace its name resolves to; a general reference
/// met while looking for the root element is taken as an end tag.
pub open spec fn document_event_spec(raw: RawEvent, ns: ResolvedNs) -> DocumentEvent {
    match raw {
        RawEvent::Start { name, empty } => DocumentEvent::Start { ns, name, empty },
        RawEvent::Decl => DocumentEvent::Decl,
        RawEvent::Comment => DocumentEvent::Comment,
        RawEvent::Eof => DocumentEvent::Eof,
        RawEvent::Text => DocumentEvent::Text,
        RawEvent::CData => DocumentEvent::CData,
        RawEvent::DocType => DocumentEvent::DocType,
        RawEvent::PI => DocumentEvent::PI,
        RawEvent::End | RawEvent::GeneralRef => DocumentEvent::End,
    }
}

/// The event at position `k` of a document, with its namespace.
pub open spec fn quick_xml_event(input: Seq<u8>, k: nat) -> DocumentEvent {
    document_event_spec(quick_xml_raw_event(input, k), quick_xml_namespace(input, k))
}

fn document_event(raw: RawEvent, ns: ResolvedNs) -> (res: DocumentEvent)
    ensures
        res == document_event_spec(raw, ns),
{
    match raw {
        RawEvent::Start { name, empty } => DocumentEvent::Start { ns, name, empty },
        RawEvent::Decl => DocumentEvent::Decl,
        RawEvent::Comment => DocumentEvent::Comment,
        RawEvent::Eof => DocumentEvent::Eof,
        RawEvent::Text => DocumentEvent::Text,
        RawEvent::CData => DocumentEvent::CData,
        RawEvent::DocType => DocumentEvent::DocType,
        RawEvent::PI => DocumentEvent::PI,
        RawEvent::End | RawEvent::GeneralRef => DocumentEvent::End,
    }
}

/// Reads the event at position `k` of a document held as text, with the
/// namespace its name resolves to; it fails exactly when `quick_xml` cannot
/// read the document up to that event.
pub fn read_document_event(input: &str, k: usize) -> (res: Result<DocumentEvent, XmlError>)
    ensures
        res is Ok <==> quick_xml_reads(encode_utf8(input@), k as nat),
        res matches Ok(e) ==> e == quick_xml_event(encode_utf8(input@), k as nat),
        res matches Err(e) ==> e is QuickXmlError,
{
    let raw = match read_raw_event(input, k) {
        Ok(r) => r,
        Err(e) => return Err(e),
    };
    let ns = match read_namespace(input, k) {
        Ok(n) => n,
        Err(e) => return Err(e),
    };
    Ok(document_event(raw, ns))
}

/// Declares `std::io::Error` to the verifier; its values are carried, never inspected.
#[verifier::external_type_specification]
#[verifier::external_body]
pub struct ExIoError(std::io::Error);

/// The bytes `quick_xml`'s writer, indenting by four spaces, writes for a
/// list of events.
pub uninterp spec fn quick_xml_written(events: Seq<WriteEventView>) -> Seq<u8>;

/// Writes events with `quick_xml::Writer::new_with_indent(.., b' ', 4)` and
/// `write_event` into a fresh buffer. The contract says that the bytes
/// depend on the events alone, and that writing succeeds: `write_event`
/// fails only when its inner writer does, and writing into a `Vec<u8>`
/// does not fail.
#[verifier::external_body]
fn write_events(events: &Vec<WriteEvent>) -> (res: Result<Vec<u8>, std::io::Error>)
    ensures
        res is Ok,
        res matches Ok(b) ==> b@ == quick_xml_written(events_view(events@)),
{
    let mut buf = Vec::new();
    let mut writer = Writer::new_with_indent(&mut buf, b' ', 4);
    for event in events.iter() {
        match event {
            WriteEvent::Start { name, attributes } | WriteEvent::Empty { name, attributes } => {
                let s = BytesStart::new(name.as_str()).with_attributes(attributes.iter().map(|(k, v)| (k.as_slice(), v.as_slice())));
                writer.write_event(if matches!(event, WriteEvent::Empty { .. }) { Empty(s) } else { Start(s) })?
            },
            WriteEvent::Text(t) => writer.write_event(Text(BytesText::new(t.as_str())))?,
            WriteEvent::End(n) => writer.write_event(End(BytesEnd::new(n.as_str())))?,
        }
    }
    Ok(buf)
}

/// Writes a document as text: the XML declaration, then the events of its
/// root element written by `quick_xml` with an indentation of four spaces,
/// the whole decoded as UTF-8 (invalid bytes replaced). Writing into memory
/// does not fail.
pub fn serialize_to_string(events: &Vec<WriteEvent>) -> (res: Result<String, std::io::Error>)
    ensures
        res is Ok,
        res matches Ok(s) ==> s@ == utf8_lossy_text(encode_utf8(document_header()) + quick_xml_written(events_view(events@))),
{
    let body = match write_events(events) {
        Ok(b) => b,
        Err(e) => return Err(e),
    };
    let mut buf = vstd::slice::slice_to_vec(header().as_bytes());
    let ghost h = buf@;
    let mut rest = body;
    buf.append(&mut rest);
    Ok(utf8_lossy(buf.as_slice()))
}

} // verus!
