use rustical::xml::error::{FromStrError, XmlError};
use rustical::xml::namespace::NamespaceOwned;
use rustical::xml::write::{NamespacePrefixes, WriteEvent};
use rustical::xml_derive::enum_impl::{
    enum_document_check, enum_write, tagged_variant_choice, untagged_variant_choice, variant_names,
};
use rustical::xml_derive::struct_read::{build_struct, init_builder, store_child, Slot};
use rustical::xml_derive::struct_write::{
    plain_value, root_ns_prefixes, root_tag, serialize_root, struct_write, FieldValue, StructField,
};
use rustical::xml_derive::{
    prop_name_from_str, prop_name_output, route_child, tagged_variants, ChildRoute, DeriveError, EnumModel, FieldAttrs, FieldModel,
    FieldType, TagWriter, TypeModel, VariantAttrs, VariantFields, VariantModel,
};
use rustical::xml::read::ResolvedNs;
use rustical::xml::write::element_name;

fn ty(segments: &[&str]) -> TypeModel {
    TypeModel { segments: segments.iter().map(|s| s.to_string()).collect(), generic: None }
}

fn option_of(inner: TypeModel) -> TypeModel {
    TypeModel { segments: vec!["Option".to_string()], generic: Some(Box::new(inner)) }
}

fn model(ident: Option<&str>, num: usize, xml_ty: FieldType) -> FieldModel {
    FieldModel {
        ident: ident.map(|s| s.to_string()),
        num,
        ty: ty(&["String"]),
        attrs: FieldAttrs { rename: None, ns: None, flatten: false, default: None, serialize_with: None, xml_ty },
    }
}

fn value(text: &str) -> FieldValue {
    FieldValue { text: text.to_string(), ns: None, attributes: None }
}

fn field(ident: Option<&str>, num: usize, xml_ty: FieldType, text: &str) -> StructField {
    StructField { model: model(ident, num, xml_ty), value: value(text) }
}

fn ns(s: &str) -> NamespaceOwned {
    NamespaceOwned(s.as_bytes().to_vec())
}

#[test]
fn struct_with_attribute_and_child_is_opened_and_closed() {
    let fields = vec![
        field(Some("test"), 0, FieldType::Attr, "hello!"),
        field(Some("number"), 1, FieldType::Attr, "2"),
        field(Some("child"), 2, FieldType::Tag, ""),
    ];
    let w = struct_write(None, Some("document"), &NamespacePrefixes::new(), &fields, None).unwrap();
    assert!(matches!(&w.start, Some(WriteEvent::Start { name, attributes }) if name == "document"
        && attributes == &vec![(b"test".to_vec(), b"hello!".to_vec()), (b"number".to_vec(), b"2".to_vec())]));
    assert_eq!(w.content.len(), 1);
    assert_eq!(w.content[0].field, 2);
    assert_eq!(w.content[0].how, TagWriter::Tag);
    assert_eq!(w.content[0].name, Some(b"child".to_vec()));
    assert!(matches!(&w.end, Some(WriteEvent::End(e)) if e == "document"));
}

#[test]
fn struct_without_content_is_written_empty() {
    let fields = vec![field(Some("test"), 0, FieldType::Attr, "x")];
    let w = struct_write(Some(&ns("urn:x")), Some("document"), &NamespacePrefixes::new(), &fields, None).unwrap();
    assert!(matches!(&w.start, Some(WriteEvent::Empty { name, attributes }) if name == "document"
        && attributes == &vec![(b"xmlns".to_vec(), b"urn:x".to_vec()), (b"test".to_vec(), b"x".to_vec())]));
    assert!(w.content.is_empty());
    assert!(w.end.is_none());
}

#[test]
fn tag_name_and_namespace_fields_name_the_element() {
    let mut ns_field = field(Some("namespace"), 1, FieldType::Namespace, "");
    ns_field.value.ns = Some(ns("hello"));
    let fields = vec![field(Some("tag"), 0, FieldType::TagName, "wow"), ns_field, field(None, 2, FieldType::Text, "")];
    let w = struct_write(Some(&ns("other")), None, &NamespacePrefixes::new(), &fields, None).unwrap();
    assert!(matches!(&w.start, Some(WriteEvent::Start { name, attributes }) if name == "wow"
        && attributes == &vec![(b"xmlns".to_vec(), b"hello".to_vec())]));
    assert!(matches!(&w.end, Some(WriteEvent::End(e)) if e == "wow"));
    assert_eq!(w.content[0].how, TagWriter::Text);
    let w = struct_write(None, Some("given"), &NamespacePrefixes::new(), &fields, None).unwrap();
    assert!(matches!(&w.start, Some(WriteEvent::Start { name, .. }) if name == "given"));
}

#[test]
fn untagged_fields_pass_their_attributes_up() {
    let mut inner = field(Some("inner"), 1, FieldType::Untagged, "");
    inner.value.attributes = Some(vec![(b"okay".to_vec(), b"1".to_vec())]);
    let mut list = field(Some("list"), 2, FieldType::Untagged, "");
    list.model.attrs.flatten = true;
    list.value.attributes = Some(vec![(b"never".to_vec(), b"1".to_vec())]);
    let fields = vec![field(Some("attr"), 0, FieldType::Attr, "a"), inner, list];
    let w = struct_write(None, Some("document"), &NamespacePrefixes::new(), &fields, None).unwrap();
    assert!(matches!(&w.start, Some(WriteEvent::Start { attributes, .. })
        if attributes == &vec![(b"attr".to_vec(), b"a".to_vec()), (b"okay".to_vec(), b"1".to_vec())]));
    assert_eq!(w.content.len(), 2);
    assert_eq!(w.content[1].how, TagWriter::UntaggedEach);
    let untagged = struct_write(None, None, &NamespacePrefixes::new(), &fields, None).unwrap();
    assert!(untagged.start.is_none() && untagged.end.is_none());
    assert_eq!(untagged.content.len(), 2);
}

#[test]
fn unnamed_fields_are_rejected() {
    let fields = vec![field(None, 0, FieldType::Attr, "a")];
    assert!(matches!(struct_write(None, Some("d"), &NamespacePrefixes::new(), &fields, None), Err(DeriveError::UnnamedTagField)));
    let fields = vec![field(None, 0, FieldType::Tag, "a")];
    assert!(matches!(struct_write(None, Some("d"), &NamespacePrefixes::new(), &fields, None), Err(DeriveError::UnnamedTagField)));
}

#[test]
fn document_roots_declare_their_namespaces() {
    assert!(matches!(root_tag(None, None, vec![]), Err(DeriveError::MissingRoot)));
    let r = root_tag(Some("propfind".to_string()), Some(ns("DAV:")), vec![(ns("DAV:"), String::new()), (ns("urn:c"), "C".into())])
        .unwrap();
    let prefixes = root_ns_prefixes(&r);
    assert_eq!(prefixes.get(b"urn:c"), Some(&"C".to_string()));
    let fields = vec![field(Some("prop"), 0, FieldType::Tag, "")];
    let w = serialize_root(&r, &fields).unwrap();
    assert!(matches!(&w.start, Some(WriteEvent::Start { name, attributes }) if name == "propfind"
        && attributes == &vec![(b"xmlns".to_vec(), b"DAV:".to_vec()), (b"xmlns:C".to_vec(), b"urn:c".to_vec())]));
}

fn variant(ident: &str, fields: VariantFields, skip: bool) -> VariantModel {
    VariantModel {
        ident: ident.to_string(),
        fields,
        attrs: VariantAttrs { rename: None, ns: None, other: false, skip_deserializing: skip },
    }
}

#[test]
fn untagged_enums_cannot_be_documents() {
    let e = EnumModel { untagged: true, variants: vec![] };
    assert_eq!(enum_document_check(&e), Err(DeriveError::UntaggedDocument));
    let e = EnumModel { untagged: false, variants: vec![] };
    assert_eq!(enum_document_check(&e), Ok(()));
}

#[test]
fn untagged_enums_take_the_first_variant_that_reads() {
    let e = EnumModel {
        untagged: true,
        variants: vec![
            variant("A", VariantFields::Unnamed(vec![ty(&["A"])]), false),
            variant("B", VariantFields::Unnamed(vec![ty(&["B"])]), true),
            variant("C", VariantFields::Unit, false),
        ],
    };
    assert_eq!(untagged_variant_choice(&e, &vec![false, true, true]).unwrap(), 2);
    assert_eq!(untagged_variant_choice(&e, &vec![true, true, true]).unwrap(), 0);
    assert!(matches!(untagged_variant_choice(&e, &vec![false, true, false]), Err(XmlError::InvalidVariant(m)) if m == "could not match"));
    assert_eq!(prop_name_from_str(&e, "anything", &vec![false, true, true]), Ok(1));
    assert_eq!(prop_name_from_str(&e, "anything", &vec![false, false, false]), Err(FromStrError));
}

#[test]
fn variant_names_of_untagged_enums_are_those_of_their_types() {
    let e = EnumModel {
        untagged: true,
        variants: vec![
            variant("A", VariantFields::Unnamed(vec![ty(&["A"])]), false),
            variant("B", VariantFields::Unnamed(vec![ty(&["B"])]), false),
        ],
    };
    let names = variant_names(&e, &vec![
        vec![(Some(ns("DAV:")), "displayname".to_string())],
        vec![(None, "topic".to_string()), (None, "color".to_string())],
    ]);
    assert_eq!(names, vec![
        (Some(ns("DAV:")), "displayname".to_string()),
        (None, "topic".to_string()),
        (None, "color".to_string()),
    ]);
    let tagged = EnumModel { untagged: false, variants: vec![variant("PrincipalUrl", VariantFields::Unit, false)] };
    assert_eq!(variant_names(&tagged, &vec![]), tagged_variants(&tagged));
}

#[test]
fn enum_values_are_wrapped_in_their_element() {
    let v = variant("PrincipalUrl", VariantFields::Unit, false);
    let name = element_name(Some(&ns("urn:x")), Some("prop"), &NamespacePrefixes::new());
    let w = enum_write(false, &v, &name);
    assert!(matches!(&w.start, Some(WriteEvent::Start { name, attributes }) if name == "prop"
        && attributes == &vec![(b"xmlns".to_vec(), b"urn:x".to_vec())]));
    assert_eq!(w.value_tag, Some(b"principal-url".to_vec()));
    assert!(matches!(&w.end, Some(WriteEvent::End(e)) if e == "prop"));
    let w = enum_write(true, &v, &name);
    assert_eq!(w.value_tag, None);
    let bare = element_name(None, None, &NamespacePrefixes::new());
    let w = enum_write(false, &v, &bare);
    assert!(w.start.is_none() && w.end.is_none());
}

#[test]
fn struct_reading_fills_the_builder_and_reports_missing_fields() {
    let mut list = model(Some("items"), 1, FieldType::Tag);
    list.attrs.flatten = true;
    let mut opt = model(Some("maybe"), 2, FieldType::Tag);
    opt.ty = option_of(ty(&["String"]));
    let mut with_default = model(Some("number"), 3, FieldType::Attr);
    with_default.attrs.default = Some("Default::default".to_string());
    let fields = vec![model(Some("child"), 0, FieldType::Tag), list, opt, with_default];
    let mut slots = init_builder(&fields).unwrap();
    assert_eq!(slots, vec![
        Slot { set: false, items: 0, text: None, ns: None },
        Slot { set: false, items: 0, text: None, ns: None },
        Slot { set: false, items: 0, text: None, ns: None },
        Slot { set: true, items: 0, text: None, ns: None },
    ]);
    assert_eq!(build_struct(&fields, &slots), Err(0));
    let route = route_child(&fields, &ResolvedNs::Unbound, b"items", false);
    assert_eq!(route, ChildRoute::Field(1));
    store_child(&fields, &mut slots, &route);
    store_child(&fields, &mut slots, &route);
    assert_eq!(slots[1], Slot { set: true, items: 2, text: None, ns: None });
    store_child(&fields, &mut slots, &route_child(&fields, &ResolvedNs::Unbound, b"child", false));
    assert_eq!(build_struct(&fields, &slots), Ok(()));

    let mut bad = model(Some("bad"), 0, FieldType::Tag);
    bad.ty = option_of(ty(&["String"]));
    bad.attrs.default = Some("Default::default".to_string());
    assert_eq!(init_builder(&vec![bad]), Err(DeriveError::DefaultOnOption));
}

#[test]
fn written_attributes_are_read_back_into_their_fields() {
    let fields = vec![
        field(Some("test"), 0, FieldType::Attr, "hello!"),
        field(Some("child"), 1, FieldType::Tag, ""),
        field(Some("number"), 2, FieldType::Attr, "2"),
    ];
    let models = vec![
        model(Some("test"), 0, FieldType::Attr),
        model(Some("child"), 1, FieldType::Tag),
        model(Some("number"), 2, FieldType::Attr),
    ];
    let w = struct_write(None, Some("document"), &NamespacePrefixes::new(), &fields, None).unwrap();
    let attributes = match w.start {
        Some(WriteEvent::Start { attributes, .. }) => attributes,
        _ => panic!("a start tag"),
    };
    let routed: Vec<Option<usize>> = attributes.iter().map(|(k, _)| rustical::xml_derive::route_attribute(&models, k)).collect();
    assert_eq!(routed, vec![Some(0), Some(2)]);
}

#[test]
fn tagged_enums_read_the_variant_named_by_the_element() {
    let mut other = variant("Invalid", VariantFields::Unit, false);
    other.attrs.other = true;
    let e = EnumModel {
        untagged: false,
        variants: vec![
            variant("Skipped", VariantFields::Unit, true),
            variant("Displayname", VariantFields::Unnamed(vec![ty(&["String"])]), false),
            other,
            variant("Topic", VariantFields::Unit, false),
        ],
    };
    assert_eq!(tagged_variant_choice(&e, b"displayname").unwrap(), 1);
    assert_eq!(tagged_variant_choice(&e, b"skipped").unwrap(), 2);
    assert_eq!(tagged_variant_choice(&e, b"topic").unwrap(), 2);
    let plain = EnumModel { untagged: false, variants: vec![variant("Topic", VariantFields::Unit, false)] };
    assert_eq!(tagged_variant_choice(&plain, b"topic").unwrap(), 0);
    assert!(matches!(tagged_variant_choice(&plain, b"color"), Err(XmlError::InvalidVariant(m)) if m == "color"));
}

#[test]
fn property_names_of_variants() {
    let mut renamed = variant("PrincipalUrl", VariantFields::Unit, false);
    renamed.attrs.rename = Some(b"principal-URL".to_vec());
    renamed.attrs.ns = Some(ns("DAV:"));
    let mut other = variant("Invalid", VariantFields::Unit, false);
    other.attrs.other = true;
    let e = EnumModel { untagged: false, variants: vec![variant("Displayname", VariantFields::Unit, false), renamed, other] };
    assert_eq!(prop_name_output(&e, 0, None), Some((None, "displayname".to_string())));
    assert_eq!(prop_name_output(&e, 1, None), Some((Some(ns("DAV:")), "principal-URL".to_string())));
    assert_eq!(prop_name_output(&e, 2, None), None);
    assert_eq!(prop_name_output(&e, 3, None), None);
    for i in 0..2 {
        let (_, name) = prop_name_output(&e, i, None).unwrap();
        assert_eq!(prop_name_from_str(&e, &name, &vec![]), Ok(i));
    }
    let u = EnumModel { untagged: true, variants: vec![variant("A", VariantFields::Unnamed(vec![ty(&["A"])]), false)] };
    let inner = Some((None, "getetag".to_string()));
    assert_eq!(prop_name_output(&u, 0, inner.clone()), inner);
}

#[test]
fn plain_values_and_enums_give_their_parent_no_attributes() {
    let v = plain_value("okay".to_string());
    assert_eq!(v.text, "okay");
    assert!(v.ns.is_none() && v.attributes.is_none());
    let name = element_name(None, Some("prop"), &NamespacePrefixes::new());
    let w = enum_write(false, &variant("Topic", VariantFields::Unit, false), &name);
    assert!(w.parent_attributes.is_none());
}
