use rustical::xml::error::XmlError;
use rustical::xml::namespace::NamespaceOwned;
use rustical::xml::read::{
    document_step, enum_document_step, resolve_xml_entity, root_matches, skip_step, text_step, unparsed_from,
    DocumentEvent, DocumentStep, ResolvedNs, SkipEvent, TextEvent, TextStep,
};
use rustical::xml::unparsed::Unparsed;
use rustical::xml::write::{
    element_name, header, struct_end_event, struct_start_event, unit_events, value_events, NamespacePrefixes, WriteEvent,
};

fn ns(s: &str) -> NamespaceOwned {
    NamespaceOwned(s.as_bytes().to_vec())
}

#[test]
fn root_element_is_matched_by_name_and_namespace() {
    assert!(root_matches(None, "document", &ResolvedNs::Unbound, b"document"));
    assert!(!root_matches(None, "document", &ResolvedNs::Unbound, b"other"));
    assert!(root_matches(Some(b"DAV:"), "propfind", &ResolvedNs::Bound(ns("DAV:")), b"propfind"));
    assert!(!root_matches(Some(b"DAV:"), "propfind", &ResolvedNs::Unbound, b"propfind"));
    assert!(!root_matches(Some(b"DAV:"), "propfind", &ResolvedNs::Bound(ns("urn:x")), b"propfind"));
}

#[test]
fn document_steps() {
    assert!(matches!(document_step(&DocumentEvent::Decl, None, "document"), DocumentStep::Skip));
    assert!(matches!(document_step(&DocumentEvent::Comment, None, "document"), DocumentStep::Skip));
    let start = DocumentEvent::Start { ns: ResolvedNs::Unbound, name: b"document".to_vec(), empty: true };
    assert!(matches!(document_step(&start, None, "document"), DocumentStep::ReadRoot { empty: true }));
    let wrong = DocumentEvent::Start { ns: ResolvedNs::Unbound, name: b"doc".to_vec(), empty: false };
    assert!(matches!(document_step(&wrong, None, "document"), DocumentStep::WrongRoot));
    assert!(matches!(document_step(&DocumentEvent::Eof, None, "document"), DocumentStep::Fail(XmlError::Eof)));
    assert!(matches!(
        document_step(&DocumentEvent::Text, None, "document"),
        DocumentStep::Fail(XmlError::UnsupportedEvent("unknown, todo"))
    ));
    assert!(matches!(enum_document_step(&DocumentEvent::DocType), DocumentStep::Skip));
    assert!(matches!(enum_document_step(&DocumentEvent::Text), DocumentStep::Fail(XmlError::UnsupportedEvent("Text"))));
    assert!(matches!(enum_document_step(&DocumentEvent::CData), DocumentStep::Fail(XmlError::UnsupportedEvent("CDATA"))));
    assert!(matches!(
        enum_document_step(&DocumentEvent::PI),
        DocumentStep::Fail(XmlError::UnsupportedEvent("Processing instruction"))
    ));
}

#[test]
fn text_is_gathered_until_the_end_tag() {
    let mut acc = String::new();
    assert!(matches!(text_step(&mut acc, &TextEvent::Text("some ".into())), TextStep::Continue));
    assert!(matches!(text_step(&mut acc, &TextEvent::CData("<text>".into())), TextStep::Continue));
    assert!(matches!(text_step(&mut acc, &TextEvent::EntityRef("amp".into())), TextStep::Continue));
    assert!(matches!(text_step(&mut acc, &TextEvent::CharRef('!')), TextStep::Continue));
    assert!(matches!(text_step(&mut acc, &TextEvent::End), TextStep::Done));
    assert_eq!(acc, "some <text>&!");
    assert!(matches!(
        text_step(&mut acc, &TextEvent::EntityRef("nbsp".into())),
        TextStep::Fail(XmlError::UnsupportedEvent("invalid XML ref"))
    ));
    assert!(matches!(text_step(&mut acc, &TextEvent::Eof), TextStep::Fail(XmlError::Eof)));
    assert!(matches!(text_step(&mut acc, &TextEvent::Other), TextStep::Fail(XmlError::UnsupportedEvent("todo"))));
}

#[test]
fn predefined_entities() {
    assert_eq!(resolve_xml_entity("lt"), Some("<"));
    assert_eq!(resolve_xml_entity("gt"), Some(">"));
    assert_eq!(resolve_xml_entity("amp"), Some("&"));
    assert_eq!(resolve_xml_entity("apos"), Some("'"));
    assert_eq!(resolve_xml_entity("quot"), Some("\""));
    assert_eq!(resolve_xml_entity("copy"), None);
}

#[test]
fn content_is_skipped_to_the_matching_end_tag() {
    assert!(matches!(skip_step(b"a", &SkipEvent::End(b"b".to_vec())), TextStep::Continue));
    assert!(matches!(skip_step(b"a", &SkipEvent::Other), TextStep::Continue));
    assert!(matches!(skip_step(b"a", &SkipEvent::End(b"a".to_vec())), TextStep::Done));
    assert!(matches!(skip_step(b"a", &SkipEvent::Eof), TextStep::Fail(XmlError::Eof)));
}

#[test]
fn unparsed_elements_keep_their_name() {
    let u = unparsed_from(&ResolvedNs::Bound(ns("hello")), b"test");
    assert_eq!(u, Unparsed(Some(ns("hello")), "test".to_string()));
    assert_eq!(u.ns(), Some(&ns("hello")));
    assert_eq!(u.tag_name(), "test");
    let u = unparsed_from(&ResolvedNs::Unknown(b"x".to_vec()), b"tag");
    assert_eq!(u.ns(), None);
}

#[test]
fn element_names_and_namespace_declarations() {
    let mut prefixes = NamespacePrefixes::new();
    prefixes.insert(ns("DAV:"), "d".to_string());
    prefixes.insert(ns("urn:empty"), String::new());

    let n = element_name(Some(&ns("DAV:")), Some("href"), &prefixes);
    assert_eq!(n.qname.as_deref(), Some("d:href"));
    assert!(n.xmlns.is_none());

    let n = element_name(Some(&ns("urn:empty")), Some("href"), &prefixes);
    assert_eq!(n.qname.as_deref(), Some("href"));
    assert!(n.xmlns.is_none());

    let n = element_name(Some(&ns("urn:other")), Some("href"), &prefixes);
    assert_eq!(n.qname.as_deref(), Some("href"));
    assert_eq!(n.xmlns, Some(ns("urn:other")));

    let n = element_name(Some(&ns("urn:other")), None, &prefixes);
    assert!(n.qname.is_none());
    assert!(n.xmlns.is_none());

    prefixes.insert(ns("DAV:"), "D".to_string());
    assert_eq!(prefixes.get(b"DAV:"), Some(&"D".to_string()));
    assert_eq!(prefixes.get(b"nope"), None);
}

#[test]
fn value_and_unit_events() {
    let prefixes = NamespacePrefixes::new();
    let n = element_name(None, Some("num"), &prefixes);
    let events = value_events(&n, "123".to_string());
    assert_eq!(events.len(), 3);
    assert!(matches!(&events[0], WriteEvent::Start { name, attributes } if name == "num" && attributes.is_empty()));
    assert!(matches!(&events[1], WriteEvent::Text(t) if t == "123"));
    assert!(matches!(&events[2], WriteEvent::End(e) if e == "num"));

    let n = element_name(Some(&ns("hello")), Some("child"), &prefixes);
    let events = unit_events(&n);
    assert_eq!(events.len(), 1);
    assert!(matches!(&events[0], WriteEvent::Empty { name, attributes }
        if name == "child" && attributes == &vec![(b"xmlns".to_vec(), b"hello".to_vec())]));

    let untagged = element_name(None, None, &prefixes);
    assert_eq!(value_events(&untagged, "okays".to_string()).len(), 1);
    assert!(unit_events(&untagged).is_empty());
    assert_eq!(header(), "<?xml version=\"1.0\" encoding=\"utf-8\"?>\n");
}

#[test]
fn struct_elements_open_and_close() {
    let prefixes = NamespacePrefixes::new();
    let n = element_name(Some(&ns("urn:x")), Some("document"), &prefixes);
    let extra = vec![(b"id".to_vec(), b"7".to_vec())];
    let start = struct_start_event(&n, extra.clone(), false).unwrap();
    assert!(matches!(&start, WriteEvent::Start { name, attributes } if name == "document"
        && attributes == &vec![(b"xmlns".to_vec(), b"urn:x".to_vec()), (b"id".to_vec(), b"7".to_vec())]));
    assert!(matches!(struct_end_event(&n, false), Some(WriteEvent::End(e)) if e == "document"));

    let empty = struct_start_event(&n, extra, true).unwrap();
    assert!(matches!(&empty, WriteEvent::Empty { name, attributes } if name == "document" && attributes.len() == 2));
    assert!(struct_end_event(&n, true).is_none());

    let plain = element_name(None, Some("inner"), &prefixes);
    assert!(matches!(struct_start_event(&plain, vec![], false), Some(WriteEvent::Start { name, attributes })
        if name == "inner" && attributes.is_empty()));

    let untagged = element_name(None, None, &prefixes);
    assert!(struct_start_event(&untagged, vec![], false).is_none());
    assert!(struct_end_event(&untagged, false).is_none());
}

#[test]
fn test_struct_value_untagged() {
    let prefixes = NamespacePrefixes::new();
    let name = element_name(None, Some("document"), &prefixes);
    let text = rustical::xml::events::serialize_to_string(&value_events(&name, "okays".to_string())).unwrap();
    assert_eq!(text, "<?xml version=\"1.0\" encoding=\"utf-8\"?>\n<document>okays</document>");
}

#[test]
fn se_struct_test_struct_value_tagged() {
    let prefixes = NamespacePrefixes::new();
    let document = element_name(None, Some("document"), &prefixes);
    let mut events = vec![match rustical::xml::write::struct_start_event(&document, vec![], false) {
        Some(e) => e,
        None => panic!("a start tag"),
    }];
    events.extend(value_events(&element_name(None, Some("href"), &prefixes), "okay".to_string()));
    events.push(rustical::xml::write::struct_end_event(&document, false).unwrap());
    let text = rustical::xml::events::serialize_to_string(&events).unwrap();
    assert!(text.contains("<href>okay</href>"));
    assert!(text.starts_with("<?xml version=\"1.0\" encoding=\"utf-8\"?>\n<document>"));
    assert!(text.ends_with("</document>"));
}
