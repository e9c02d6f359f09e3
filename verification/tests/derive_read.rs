use rustical::xml::namespace::NamespaceOwned;
use rustical::xml::read::{parse_document_str, resolve_xml_entity, DocumentStep, ResolvedNs};
use rustical::xml_derive::enum_impl::tagged_variant_choice;
use rustical::xml_derive::struct_read::{read_struct, Slot, StructReadError};
use rustical::xml_derive::{
    ContentEvent, EnumModel, FieldAttrs, FieldModel, FieldType, TypeModel, VariantAttrs, VariantFields, VariantModel,
};
use rustical::xml::error::XmlError;

fn ty(segments: &[&str], generic: Option<TypeModel>) -> TypeModel {
    TypeModel { segments: segments.iter().map(|s| s.to_string()).collect(), generic: generic.map(Box::new) }
}

fn string_ty() -> TypeModel {
    ty(&["String"], None)
}

fn field(ident: Option<&str>, num: usize, xml_ty: FieldType) -> FieldModel {
    FieldModel {
        ident: ident.map(|s| s.to_string()),
        num,
        ty: string_ty(),
        attrs: FieldAttrs { rename: None, ns: None, flatten: false, default: None, serialize_with: None, xml_ty },
    }
}

fn child(name: &str, empty: bool) -> ContentEvent {
    ContentEvent::Child { ns: ResolvedNs::Unbound, name: name.as_bytes().to_vec(), empty }
}

fn text_of(slot: &Slot) -> Option<&str> {
    slot.text.as_deref()
}

fn root(input: &str) -> DocumentStep {
    parse_document_str(input, None, "document").unwrap()
}

#[test]
fn test_struct_text_field() {
    let fields = vec![field(Some("text"), 0, FieldType::Text), field(Some("text2"), 1, FieldType::Text)];
    assert!(matches!(root("<document>Hello!</document>"), DocumentStep::ReadRoot { empty: false }));
    let events = vec![ContentEvent::Text("Hello!".into()), ContentEvent::End];
    let slots = read_struct(&fields, false, &ResolvedNs::Unbound, b"document", &vec![], false, &events).unwrap();
    assert_eq!(text_of(&slots[0]), Some("Hello!"));
    assert_eq!(text_of(&slots[1]), Some("Hello!"));
}

#[test]
fn de_struct_test_struct_document() {
    assert!(matches!(root("<document><child>Hello!</child></document>"), DocumentStep::ReadRoot { empty: false }));
    let document = vec![field(Some("child"), 0, FieldType::Tag)];
    let slots = read_struct(&document, false, &ResolvedNs::Unbound, b"document", &vec![], false, &vec![child("child", false), ContentEvent::End])
        .unwrap();
    assert!(slots[0].set);
    let inner = vec![field(Some("text"), 0, FieldType::Text)];
    let slots = read_struct(&inner, false, &ResolvedNs::Unbound, b"child", &vec![], false, &vec![ContentEvent::Text("Hello!".into()), ContentEvent::End])
        .unwrap();
    assert_eq!(text_of(&slots[0]), Some("Hello!"));
}

#[test]
fn test_struct_rename_field() {
    let mut renamed = field(Some("child"), 0, FieldType::Tag);
    renamed.attrs.rename = Some(b"ok-wow".to_vec());
    let fields = vec![renamed];
    let slots = read_struct(&fields, false, &ResolvedNs::Unbound, b"document", &vec![], false, &vec![child("ok-wow", false), ContentEvent::End])
        .unwrap();
    assert!(slots[0].set);
    assert!(matches!(
        read_struct(&fields, false, &ResolvedNs::Unbound, b"document", &vec![], false, &vec![child("child", false), ContentEvent::End]),
        Err(StructReadError::InvalidChild(0))
    ));
}

#[test]
fn test_struct_optional_field() {
    let mut optional = field(Some("child"), 0, FieldType::Tag);
    optional.ty = ty(&["Option"], Some(string_ty()));
    let fields = vec![optional];
    let slots = read_struct(&fields, false, &ResolvedNs::Unbound, b"document", &vec![], false, &vec![child("child", false), ContentEvent::End])
        .unwrap();
    assert!(slots[0].set);
    let slots = read_struct(&fields, false, &ResolvedNs::Unbound, b"document", &vec![], false, &vec![ContentEvent::End]).unwrap();
    assert!(!slots[0].set);
}

#[test]
fn de_struct_test_struct_vec() {
    let mut list = field(Some("child"), 0, FieldType::Tag);
    list.ty = ty(&["Vec"], Some(string_ty()));
    list.attrs.flatten = true;
    let fields = vec![list];
    let events = vec![child("child", false), child("child", false), ContentEvent::End];
    let slots = read_struct(&fields, false, &ResolvedNs::Unbound, b"document", &vec![], false, &events).unwrap();
    assert_eq!(slots[0].items, 2);
}

#[test]
fn de_struct_test_struct_ns() {
    let mut namespaced = field(Some("child"), 0, FieldType::Tag);
    namespaced.attrs.ns = Some(NamespaceOwned(b"hello".to_vec()));
    let fields = vec![namespaced];
    let events = vec![
        ContentEvent::Child { ns: ResolvedNs::Bound(NamespaceOwned(b"hello".to_vec())), name: b"child".to_vec(), empty: true },
        ContentEvent::End,
    ];
    let slots = read_struct(&fields, false, &ResolvedNs::Unbound, b"document", &vec![], false, &events).unwrap();
    assert!(slots[0].set);
}

#[test]
fn test_struct_attr() {
    let mut child_field = field(Some("child"), 0, FieldType::Tag);
    child_field.attrs.ns = Some(NamespaceOwned(b"hello".to_vec()));
    let mut number = field(Some("number"), 2, FieldType::Attr);
    number.ty = ty(&["usize"], None);
    let mut defaulted = field(Some("not_here"), 3, FieldType::Attr);
    defaulted.attrs.default = Some("Default::default".into());
    let fields = vec![child_field, field(Some("test"), 1, FieldType::Attr), number, defaulted];
    let attributes = vec![(b"test".to_vec(), "hello!".to_string()), (b"number".to_vec(), "2".to_string())];
    let events = vec![
        ContentEvent::Child { ns: ResolvedNs::Bound(NamespaceOwned(b"hello".to_vec())), name: b"child".to_vec(), empty: true },
        ContentEvent::End,
    ];
    let slots = read_struct(&fields, false, &ResolvedNs::Unbound, b"document", &attributes, false, &events).unwrap();
    assert_eq!(text_of(&slots[1]), Some("hello!"));
    assert_eq!(text_of(&slots[2]), Some("2"));
    assert!(slots[3].set);
    assert_eq!(text_of(&slots[3]), None);
}

#[test]
fn test_xml_cdata() {
    let fields = vec![field(Some("hello"), 0, FieldType::Text), field(Some("href"), 1, FieldType::Tag), field(Some("okay"), 2, FieldType::Tag)];
    let events = vec![ContentEvent::CData("some text".into()), child("href", false), child("okay", false), ContentEvent::End];
    let slots = read_struct(&fields, false, &ResolvedNs::Unbound, b"document", &vec![], false, &events).unwrap();
    assert_eq!(text_of(&slots[0]), Some("some text"));
    assert!(slots[1].set && slots[2].set);
    assert_eq!(resolve_xml_entity("gt"), Some(">"));
}

#[test]
fn test_struct_xml_decl() {
    let x = "<document><child>Hello!</child></document>";
    let with_decl = format!("<?xml version=\"1.0\" encoding=\"utf-8\"?>\n{x}");
    assert!(matches!(root(x), DocumentStep::ReadRoot { empty: false }));
    assert!(matches!(root(&with_decl), DocumentStep::ReadRoot { empty: false }));
}

#[test]
fn de_struct_test_struct_tuple() {
    assert!(matches!(
        root(r#"<?xml version="1.0" encoding="utf-8"?><document><child>Hello!</child></document>"#),
        DocumentStep::ReadRoot { empty: false }
    ));
    let fields = vec![field(None, 0, FieldType::TagName), field(None, 1, FieldType::Text)];
    let events = vec![ContentEvent::Text("Hello!".into()), ContentEvent::End];
    let slots = read_struct(&fields, false, &ResolvedNs::Unbound, b"child", &vec![], false, &events).unwrap();
    assert_eq!(text_of(&slots[0]), Some("child"));
    assert_eq!(text_of(&slots[1]), Some("Hello!"));
}

#[test]
fn test_struct_untagged_ns() {
    let document = vec![field(Some("child"), 0, FieldType::Untagged)];
    let events = vec![
        ContentEvent::Child { ns: ResolvedNs::Bound(NamespaceOwned(b"hello".to_vec())), name: b"test".to_vec(), empty: true },
        ContentEvent::End,
    ];
    let slots = read_struct(&document, false, &ResolvedNs::Unbound, b"document", &vec![], false, &events).unwrap();
    assert!(slots[0].set);
    let mut namespace = field(None, 1, FieldType::Namespace);
    namespace.ty = ty(&["Option"], Some(string_ty()));
    let inner = vec![field(None, 0, FieldType::TagName), namespace];
    let slots = read_struct(&inner, false, &ResolvedNs::Bound(NamespaceOwned(b"hello".to_vec())), b"test", &vec![], true, &vec![]).unwrap();
    assert_eq!(text_of(&slots[0]), Some("test"));
    assert_eq!(slots[1].ns, Some(NamespaceOwned(b"hello".to_vec())));
}

#[test]
fn missing_fields_and_early_ends_are_errors() {
    let fields = vec![field(Some("child"), 0, FieldType::Tag)];
    assert!(matches!(
        read_struct(&fields, false, &ResolvedNs::Unbound, b"document", &vec![], false, &vec![ContentEvent::End]),
        Err(StructReadError::MissingField(0))
    ));
    assert!(matches!(
        read_struct(&fields, false, &ResolvedNs::Unbound, b"document", &vec![], false, &vec![child("child", false)]),
        Err(StructReadError::Xml(XmlError::Eof))
    ));
    assert!(matches!(
        read_struct(&fields, true, &ResolvedNs::Unbound, b"document", &vec![], false, &vec![child("other", true), child("child", false), ContentEvent::End]),
        Ok(_)
    ));
    assert!(matches!(
        read_struct(&fields, false, &ResolvedNs::Unbound, b"document", &vec![], false, &vec![ContentEvent::EntityRef("nbsp".into())]),
        Err(StructReadError::Xml(XmlError::UnsupportedEvent("invalid XML ref")))
    ));
}

#[test]
fn documents_are_parsed_from_text() {
    assert!(matches!(parse_document_str("<document/>", None, "document"), Ok(DocumentStep::ReadRoot { empty: true })));
    assert!(matches!(parse_document_str("<other/>", None, "document"), Ok(DocumentStep::WrongRoot)));
    assert!(matches!(
        parse_document_str("<d:propfind xmlns:d=\"DAV:\"/>", Some(b"DAV:"), "propfind"),
        Ok(DocumentStep::ReadRoot { empty: true })
    ));
    assert!(matches!(parse_document_str("<propfind/>", Some(b"DAV:"), "propfind"), Ok(DocumentStep::WrongRoot)));
    assert!(matches!(parse_document_str("", None, "document"), Ok(DocumentStep::Fail(XmlError::Eof))));
    assert!(matches!(parse_document_str("<!-- c --><document>", None, "document"), Ok(DocumentStep::ReadRoot { empty: false })));
    assert!(matches!(parse_document_str("<document/></x>", None, "document"), Ok(DocumentStep::ReadRoot { empty: true })));
    assert!(matches!(parse_document_str("hello<document/>", None, "document"), Ok(DocumentStep::Fail(XmlError::UnsupportedEvent("unknown, todo")))));
    assert!(matches!(parse_document_str("</x>", None, "document"), Err(XmlError::QuickXmlError(_))));
}

fn variant(ident: &str, fields: VariantFields) -> VariantModel {
    VariantModel {
        ident: ident.into(),
        fields,
        attrs: VariantAttrs { rename: None, ns: None, other: false, skip_deserializing: false },
    }
}

#[test]
fn test_struct_tagged_enum() {
    let prop_enum = EnumModel {
        untagged: false,
        variants: vec![
            variant("A", VariantFields::Unit),
            variant("B", VariantFields::Unit),
            variant("Displayname", VariantFields::Unnamed(vec![ty(&["Displayname"], None)])),
        ],
    };
    let mut list = field(Some("prop"), 0, FieldType::Untagged);
    list.attrs.flatten = true;
    list.ty = ty(&["Vec"], Some(ty(&["PropEnum"], None)));
    let prop = vec![list];
    let events = vec![child("b", true), child("a", true), child("displayname", false), ContentEvent::End];
    let slots = read_struct(&prop, false, &ResolvedNs::Unbound, b"prop", &vec![], false, &events).unwrap();
    assert_eq!(slots[0].items, 3);
    assert_eq!(tagged_variant_choice(&prop_enum, b"b").unwrap(), 1);
    assert_eq!(tagged_variant_choice(&prop_enum, b"a").unwrap(), 0);
    assert_eq!(tagged_variant_choice(&prop_enum, b"displayname").unwrap(), 2);
    let displayname = vec![field(Some("name"), 0, FieldType::Text)];
    let slots = read_struct(&displayname, false, &ResolvedNs::Unbound, b"displayname", &vec![], false, &vec![ContentEvent::Text("Hello!".into()), ContentEvent::End])
        .unwrap();
    assert_eq!(text_of(&slots[0]), Some("Hello!"));
}
