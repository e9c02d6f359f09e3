//! Decisions taken while reading XML: which element is the document's root,
//! and how the text content of a value element is gathered.

use crate::text::{bytes_eq, chars_of, push_char, push_str};
use crate::xml::error::XmlError;
use crate::xml::namespace::NamespaceOwned;
use crate::xml::unparsed::Unparsed;
use crate::xml::events::{quick_xml_event, quick_xml_reads, read_document_event};
use vstd::prelude::*;
use vstd::utf8::encode_utf8;

verus! {

/// How the prefix of an element name resolved.
#[derive(Debug, Clone, PartialEq, Eq)]
pub enum ResolvedNs {
    /// The name has no prefix and no default namespace is declared.
    Unbound,
    /// The name is bound to this namespace.
    Bound(NamespaceOwned),
    /// The prefix is not declared in scope.
    Unknown(Vec<u8>),
}

/// Whether `ns` is bound to the namespace named `bytes`.
pub open spec fn bound_to(ns: ResolvedNs, bytes: Seq<u8>) -> bool {
    ns matches ResolvedNs::Bound(n) && n@ == bytes
}

/// Whether an element of namespace `ns` and local name `name` is the root
/// element `root_tag` of namespace `root_ns` (any namespace when `None`).
pub open spec fn root_matches_spec(root_ns: Option<Seq<u8>>, root_tag: Seq<char>, ns: ResolvedNs, name: Seq<u8>) -> bool {
    &&& name == vstd::utf8::encode_utf8(root_tag)
    &&& match root_ns {
        Some(r) => bound_to(ns, r),
        None => true,
    }
}

/// Decides whether an element is the expected root element.
pub fn root_matches(root_ns: Option<&[u8]>, root_tag: &str, ns: &ResolvedNs, name: &[u8]) -> (res: bool)
    ensures
        res == root_matches_spec(
            match root_ns {
                Some(r) => Some(r@),
                None => None,
            },
            root_tag@,
            *ns,
            name@,
        ),
{
    if !bytes_eq(name, root_tag.as_bytes()) {
        return false;
    }
    match root_ns {
        None => true,
        Some(r) => match ns {
            ResolvedNs::Bound(n) => bytes_eq(n.as_bytes(), r),
            _ => false,
        },
    }
}

/// An event met while looking for the root element of a document.
#[derive(Debug)]
pub enum DocumentEvent {
    /// A start tag, or an empty element when `empty`, with its resolved name.
    Start { ns: ResolvedNs, name: Vec<u8>, empty: bool },
    /// The XML declaration.
    Decl,
    /// A comment.
    Comment,
    /// The end of the input.
    Eof,
    /// Character data.
    Text,
    /// A CDATA section.
    CData,
    /// A document type declaration.
    DocType,
    /// A processing instruction.
    PI,
    /// An end tag.
    End,
}

/// What to do with an event met while looking for the root element.
#[derive(Debug)]
pub enum DocumentStep {
    /// Read the next event.
    Skip,
    /// The root element starts here: read its content (none when `empty`).
    ReadRoot { empty: bool },
    /// The first element is not the expected root: fail with an invalid tag.
    WrongRoot,
    /// Fail with this error.
    Fail(XmlError),
}

/// The view of optional bytes.
pub open spec fn opt_bytes(b: Option<&[u8]>) -> Option<Seq<u8>> {
    match b {
        Some(r) => Some(r@),
        None => None,
    }
}

/// The step that an event gives while looking for the root element
/// `root_tag` of namespace `root_ns`: declarations and comments are
/// skipped, the first element is the root when its name and namespace
/// match, the end of the input fails, and any other event is refused.
pub open spec fn document_step_spec(event: DocumentEvent, root_ns: Option<Seq<u8>>, root_tag: Seq<char>) -> DocumentStep {
    match event {
        DocumentEvent::Decl | DocumentEvent::Comment => DocumentStep::Skip,
        DocumentEvent::Start { ns, name, empty } => if root_matches_spec(root_ns, root_tag, ns, name@) {
            DocumentStep::ReadRoot { empty }
        } else {
            DocumentStep::WrongRoot
        },
        DocumentEvent::Eof => DocumentStep::Fail(XmlError::Eof),
        _ => DocumentStep::Fail(XmlError::UnsupportedEvent("unknown, todo")),
    }
}

/// Looking for a document's root element: the XML declaration and
/// comments are skipped; the first element is the root when its local name
/// is the root's name and, for a root with a namespace, its name is bound
/// to that namespace, and is the wrong root otherwise; the end of the input
/// fails with `Eof`; any other event is refused.
pub proof fn law_document_step(event: DocumentEvent, root_ns: Option<Seq<u8>>, root_tag: Seq<char>)
    ensures
        (event is Decl || event is Comment) <==> document_step_spec(event, root_ns, root_tag) is Skip,
        event is Eof ==> document_step_spec(event, root_ns, root_tag) == DocumentStep::Fail(XmlError::Eof),
        (event is Text || event is CData || event is DocType || event is PI || event is End)
            ==> document_step_spec(event, root_ns, root_tag) == DocumentStep::Fail(XmlError::UnsupportedEvent("unknown, todo")),
        event matches DocumentEvent::Start { ns, name, empty } ==> {
            &&& (name@ == encode_utf8(root_tag) && (root_ns matches Some(r) ==> (ns matches ResolvedNs::Bound(n) && n@ == r)))
                ==> document_step_spec(event, root_ns, root_tag) == DocumentStep::ReadRoot { empty }
            &&& name@ != encode_utf8(root_tag) ==> document_step_spec(event, root_ns, root_tag) is WrongRoot
            &&& (root_ns matches Some(r) && !(ns matches ResolvedNs::Bound(n) && n@ == r))
                ==> document_step_spec(event, root_ns, root_tag) is WrongRoot
        },
{
}

/// Decides the next step of reading a document whose root element is
/// `root_tag` in namespace `root_ns`.
pub fn document_step(event: &DocumentEvent, root_ns: Option<&[u8]>, root_tag: &str) -> (res: DocumentStep)
    ensures
        res == document_step_spec(*event, opt_bytes(root_ns), root_tag@),
{
    match event {
        DocumentEvent::Decl | DocumentEvent::Comment => DocumentStep::Skip,
        DocumentEvent::Start { ns, name, empty } => {
            if root_matches(root_ns, root_tag, ns, name.as_slice()) {
                DocumentStep::ReadRoot { empty: *empty }
            } else {
                DocumentStep::WrongRoot
            }
        },
        DocumentEvent::Eof => DocumentStep::Fail(XmlError::Eof),
        _ => DocumentStep::Fail(XmlError::UnsupportedEvent("unknown, todo")),
    }
}

/// How looking for the root element of a document ends.
pub enum PrologOutcome {
    /// An event other than a skipped one decides this step.
    Step(DocumentStep),
    /// `quick_xml` cannot read the document up to such an event.
    ReadError,
    /// More events than the text has bytes were skipped.
    Exhausted,
}

/// How looking for the root element `root_tag` of namespace `root_ns` in
/// the document `input` ends, from the event at position `k` on: the first
/// event that is not skipped decides, unless `quick_xml` fails to read up
/// to it. Every event but the end of the input takes at least one byte, so
/// the end of the input comes by position `input.len()`.
pub open spec fn prolog_outcome(input: Seq<u8>, root_ns: Option<Seq<u8>>, root_tag: Seq<char>, k: int) -> PrologOutcome
    decreases input.len() + 1 - k,
{
    if k < 0 || k > input.len() {
        PrologOutcome::Exhausted
    } else if !quick_xml_reads(input, k as nat) {
        PrologOutcome::ReadError
    } else {
        match document_step_spec(quick_xml_event(input, k as nat), root_ns, root_tag) {
            DocumentStep::Skip => prolog_outcome(input, root_ns, root_tag, k + 1),
            step => PrologOutcome::Step(step),
        }
    }
}

/// Parses a document held as text up to its root element: the events are
/// read one after another with `quick_xml`, the XML declaration and
/// comments before the root are skipped, and the first other event decides
/// (the root element is read, the first element is the wrong root, or the
/// document is refused). Nothing past that event is read.
pub fn parse_document_str(input: &str, root_ns: Option<&[u8]>, root_tag: &str) -> (res: Result<DocumentStep, XmlError>)
    ensures
        match prolog_outcome(encode_utf8(input@), opt_bytes(root_ns), root_tag@, 0) {
            PrologOutcome::Step(step) => res == Ok::<DocumentStep, XmlError>(step),
            PrologOutcome::ReadError => res matches Err(e) && e is QuickXmlError,
            PrologOutcome::Exhausted => res == Err::<DocumentStep, XmlError>(XmlError::Eof),
        },
{
    let ghost text = encode_utf8(input@);
    let n = input.as_bytes().len();
    let mut k: usize = 0;
    while k <= n
        invariant
            text == encode_utf8(input@),
            k <= n,
            n == text.len(),
            prolog_outcome(text, opt_bytes(root_ns), root_tag@, 0) == prolog_outcome(text, opt_bytes(root_ns), root_tag@, k as int),
        decreases n + 1 - k,
    {
        let event = match read_document_event(input, k) {
            Ok(e) => e,
            Err(e) => return Err(e),
        };
        let step = document_step(&event, root_ns, root_tag);
        match step {
            DocumentStep::Skip => {},
            _ => return Ok(step),
        }
        if k == n {
            return Err(XmlError::Eof);
        }
        k = k + 1;
    }
    Err(XmlError::Eof)
}

/// Decides the next step of reading a document whose root is an enum: the
/// first element is read as the enum; declarations, comments and document
/// types are skipped; text, CDATA and processing instructions are refused.
/// An end tag cannot come before the first element.
pub fn enum_document_step(event: &DocumentEvent) -> (res: DocumentStep)
    requires
        !(*event is End),
    ensures
        match *event {
            DocumentEvent::Start { empty, .. } => res == DocumentStep::ReadRoot { empty },
            DocumentEvent::Eof => res == DocumentStep::Fail(XmlError::Eof),
            DocumentEvent::Text => res == DocumentStep::Fail(XmlError::UnsupportedEvent("Text")),
            DocumentEvent::CData => res == DocumentStep::Fail(XmlError::UnsupportedEvent("CDATA")),
            DocumentEvent::PI => res == DocumentStep::Fail(XmlError::UnsupportedEvent("Processing instruction")),
            _ => res is Skip,
        },
{
    match event {
        DocumentEvent::Start { empty, .. } => DocumentStep::ReadRoot { empty: *empty },
        DocumentEvent::Eof => DocumentStep::Fail(XmlError::Eof),
        DocumentEvent::Text => DocumentStep::Fail(XmlError::UnsupportedEvent("Text")),
        DocumentEvent::CData => DocumentStep::Fail(XmlError::UnsupportedEvent("CDATA")),
        DocumentEvent::PI => DocumentStep::Fail(XmlError::UnsupportedEvent("Processing instruction")),
        _ => DocumentStep::Skip,
    }
}

/// An event met while skipping the content of an element.
#[derive(Debug)]
pub enum SkipEvent {
    /// An end tag with its name.
    End(Vec<u8>),
    /// The end of the input.
    Eof,
    /// Any other event.
    Other,
}

/// Skips the content of an element named `start`, as reading the unit
/// value does: the content ends at the end tag of the same name.
pub fn skip_step(start: &[u8], event: &SkipEvent) -> (res: TextStep)
    ensures
        match *event {
            SkipEvent::End(name) => if name@ == start@ { res is Done } else { res is Continue },
            SkipEvent::Eof => res == TextStep::Fail(XmlError::Eof),
            SkipEvent::Other => res is Continue,
        },
{
    match event {
        SkipEvent::End(name) => {
            if bytes_eq(name.as_slice(), start) {
                TextStep::Done
            } else {
                TextStep::Continue
            }
        },
        SkipEvent::Eof => TextStep::Fail(XmlError::Eof),
        SkipEvent::Other => TextStep::Continue,
    }
}

/// The element an unparsed value records: its namespace when bound, and
/// its local name as text.
pub fn unparsed_from(ns: &ResolvedNs, name: &[u8]) -> (res: Unparsed)
    ensures
        match *ns {
            ResolvedNs::Bound(n) => res.0 matches Some(m) && m@ == n@,
            _ => res.0 is None,
        },
        res.1@ == crate::text::utf8_lossy_text(name@),
        vstd::utf8::valid_utf8(name@) ==> res.1@ == vstd::utf8::decode_utf8(name@),
{
    let n = match ns {
        ResolvedNs::Bound(n) => Some(n.duplicate()),
        _ => None,
    };
    Unparsed(n, crate::text::utf8_lossy(name))
}

/// The text that a predefined XML entity stands for.
pub open spec fn xml_entity_spec(entity: Seq<char>) -> Option<Seq<char>> {
    if entity == seq!['l', 't'] {
        Some(seq!['<'])
    } else if entity == seq!['g', 't'] {
        Some(seq!['>'])
    } else if entity == seq!['a', 'm', 'p'] {
        Some(seq!['&'])
    } else if entity == seq!['a', 'p', 'o', 's'] {
        Some(seq!['\''])
    } else if entity == seq!['q', 'u', 'o', 't'] {
        Some(seq!['"'])
    } else {
        None
    }
}

/// The predefined XML entities: `lt`, `gt`, `amp`, `apos` and `quot` stand
/// for `<`, `>`, `&`, `'` and `"`; no other name is an entity.
pub proof fn law_xml_entities(name: Seq<char>)
    ensures
        name == "lt"@ ==> xml_entity_spec(name) == Some(seq!['<']),
        name == "gt"@ ==> xml_entity_spec(name) == Some(seq!['>']),
        name == "amp"@ ==> xml_entity_spec(name) == Some(seq!['&']),
        name == "apos"@ ==> xml_entity_spec(name) == Some(seq!['\'']),
        name == "quot"@ ==> xml_entity_spec(name) == Some(seq!['"']),
        !(name == "lt"@ || name == "gt"@ || name == "amp"@ || name == "apos"@ || name == "quot"@)
            ==> xml_entity_spec(name) is None,
{
    reveal_strlit("lt");
    reveal_strlit("gt");
    reveal_strlit("amp");
    reveal_strlit("apos");
    reveal_strlit("quot");
    assert(seq!['l', 't'] =~= "lt"@);
    assert(seq!['g', 't'] =~= "gt"@);
    assert(seq!['a', 'm', 'p'] =~= "amp"@);
    assert(seq!['a', 'p', 'o', 's'] =~= "apos"@);
    assert(seq!['q', 'u', 'o', 't'] =~= "quot"@);
}

/// Resolves one of the five predefined XML entities, as
/// `quick_xml::escape::resolve_xml_entity` does.
pub fn resolve_xml_entity(entity: &str) -> (res: Option<&'static str>)
    ensures
        match xml_entity_spec(entity@) {
            Some(t) => res matches Some(r) && r@ == t,
            None => res is None,
        },
{
    let e = chars_of(entity);
    let lt = vec!['l', 't'];
    let gt = vec!['g', 't'];
    let amp = vec!['a', 'm', 'p'];
    let apos = vec!['a', 'p', 'o', 's'];
    let quot = vec!['q', 'u', 'o', 't'];
    assert(lt@ =~= seq!['l', 't']);
    assert(gt@ =~= seq!['g', 't']);
    assert(amp@ =~= seq!['a', 'm', 'p']);
    assert(apos@ =~= seq!['a', 'p', 'o', 's']);
    assert(quot@ =~= seq!['q', 'u', 'o', 't']);
    proof {
        reveal_strlit("<");
        reveal_strlit(">");
        reveal_strlit("&");
        reveal_strlit("'");
        reveal_strlit("\"");
    }
    if crate::text::chars_eq(&e, &lt) {
        Some("<")
    } else if crate::text::chars_eq(&e, &gt) {
        Some(">")
    } else if crate::text::chars_eq(&e, &amp) {
        Some("&")
    } else if crate::text::chars_eq(&e, &apos) {
        Some("'")
    } else if crate::text::chars_eq(&e, &quot) {
        Some("\"")
    } else {
        None
    }
}

/// An event met inside an element whose content is a text value.
#[derive(Debug)]
pub enum TextEvent {
    /// Decoded character data.
    Text(String),
    /// The content of a CDATA section.
    CData(String),
    /// A character reference, already resolved to its character.
    CharRef(char),
    /// An entity reference, by its name.
    EntityRef(String),
    /// The end tag of the element.
    End,
    /// The end of the input.
    Eof,
    /// Any other event.
    Other,
}

/// What gathering text does after an event.
#[derive(Debug)]
pub enum TextStep {
    /// Read the next event.
    Continue,
    /// The element is closed: the gathered text is complete.
    Done,
    /// Fail with this error.
    Fail(XmlError),
}

/// Takes one event into the text gathered so far.
pub fn text_step(acc: &mut String, event: &TextEvent) -> (res: TextStep)
    ensures
        match *event {
            TextEvent::Text(t) => res is Continue && final(acc)@ == old(acc)@ + t@,
            TextEvent::CData(t) => res is Continue && final(acc)@ == old(acc)@ + t@,
            TextEvent::CharRef(c) => res is Continue && final(acc)@ == old(acc)@.push(c),
            TextEvent::EntityRef(name) => match xml_entity_spec(name@) {
                Some(t) => res is Continue && final(acc)@ == old(acc)@ + t,
                None => res == TextStep::Fail(XmlError::UnsupportedEvent("invalid XML ref"))
                    && final(acc)@ == old(acc)@,
            },
            TextEvent::End => res is Done && final(acc)@ == old(acc)@,
            TextEvent::Eof => res == TextStep::Fail(XmlError::Eof) && final(acc)@ == old(acc)@,
            TextEvent::Other => res == TextStep::Fail(XmlError::UnsupportedEvent("todo"))
                && final(acc)@ == old(acc)@,
        },
{
    match event {
        TextEvent::Text(t) => {
            push_str(acc, t.as_str());
            TextStep::Continue
        },
        TextEvent::CData(t) => {
            push_str(acc, t.as_str());
            TextStep::Continue
        },
        TextEvent::CharRef(c) => {
            push_char(acc, *c);
            TextStep::Continue
        },
        TextEvent::EntityRef(name) => match resolve_xml_entity(name.as_str()) {
            Some(t) => {
                push_str(acc, t);
                TextStep::Continue
            },
            None => TextStep::Fail(XmlError::UnsupportedEvent("invalid XML ref")),
        },
        TextEvent::End => TextStep::Done,
        TextEvent::Eof => TextStep::Fail(XmlError::Eof),
        TextEvent::Other => TextStep::Fail(XmlError::UnsupportedEvent("todo")),
    }
}

} // verus!
