use rustical::xml::error::XmlError;
use rustical::xml_derive::{struct_content_step, variant_write_tag, ContentEvent, ContentStep};
use rustical::xml::error::FromStrError;
use rustical::xml::namespace::NamespaceOwned;
use rustical::xml::read::ResolvedNs;
use rustical::xml_derive::{
    build_value, builder_field_ident, builder_slot, check_untagged_fields, child_assignment, field_deserializer_type,
    field_type_from_meta, field_xml_name, get_generic_type, is_optional, prefix_declarations, prop_name_from_str,
    route_attribute, route_child, tag_writer, tagged_branch, untagged_branch, variant_xml_name, variant_xml_name_text, Assignment, BuildValue,
    BuilderSlot, ChildRoute, DeriveError, EnumModel, FieldAttrs, FieldModel, FieldType, TaggedBranch, TagWriter,
    TypeModel, UntaggedBranch, VariantAttrs, VariantFields, VariantModel,
};

fn path(segments: &[&str], generic: Option<TypeModel>) -> TypeModel {
    TypeModel { segments: segments.iter().map(|s| s.to_string()).collect(), generic: generic.map(Box::new) }
}

fn string_ty() -> TypeModel {
    path(&["String"], None)
}

fn attrs(xml_ty: FieldType) -> FieldAttrs {
    FieldAttrs { rename: None, ns: None, flatten: false, default: None, serialize_with: None, xml_ty }
}

fn field(ident: Option<&str>, num: usize, ty: TypeModel, attrs: FieldAttrs) -> FieldModel {
    FieldModel { ident: ident.map(|s| s.to_string()), num, ty, attrs }
}

#[test]
fn field_types_by_name() {
    assert_eq!(field_type_from_meta("tag"), Some(FieldType::Tag));
    assert_eq!(field_type_from_meta("attr"), Some(FieldType::Attr));
    assert_eq!(field_type_from_meta("text"), Some(FieldType::Text));
    assert_eq!(field_type_from_meta("untagged"), Some(FieldType::Untagged));
    assert_eq!(field_type_from_meta("tag_name"), Some(FieldType::TagName));
    assert_eq!(field_type_from_meta("namespace"), Some(FieldType::Namespace));
    assert_eq!(field_type_from_meta("TagName"), None);
}

#[test]
fn option_and_generic_types() {
    let opt = path(&["Option"], Some(string_ty()));
    assert!(is_optional(&opt));
    assert!(!is_optional(&path(&["std", "option", "Option"], Some(string_ty()))));
    assert!(!is_optional(&string_ty()));
    assert_eq!(get_generic_type(&opt).unwrap().segments, vec!["String".to_string()]);
    assert!(get_generic_type(&string_ty()).is_none());
}

#[test]
fn names_of_fields_and_variants() {
    let f = field(Some("principal_url"), 0, string_ty(), attrs(FieldType::Tag));
    assert_eq!(field_xml_name(&f), Ok(b"principal-url".to_vec()));
    let mut renamed = field(None, 0, string_ty(), attrs(FieldType::Tag));
    assert_eq!(field_xml_name(&renamed), Err(DeriveError::UnnamedTagField));
    renamed.attrs.rename = Some(b"okay".to_vec());
    assert_eq!(field_xml_name(&renamed), Ok(b"okay".to_vec()));
    assert_eq!(builder_field_ident(&field(None, 12, string_ty(), attrs(FieldType::Text))), "_12");
    assert_eq!(builder_field_ident(&f), "principal_url");
    let v = VariantModel {
        ident: "Getcontenttype".into(),
        fields: VariantFields::Unit,
        attrs: VariantAttrs { rename: None, ns: None, other: false, skip_deserializing: false },
    };
    assert_eq!(variant_xml_name(&v), b"getcontenttype".to_vec());
}

#[test]
fn builder_slots_and_values() {
    let plain = field(Some("a"), 0, string_ty(), attrs(FieldType::Tag));
    assert_eq!(builder_slot(&plain), Ok(BuilderSlot::Optional));
    assert_eq!(build_value(&plain), Ok(BuildValue::Required));
    assert_eq!(child_assignment(&plain), Assignment::SetSome);

    let opt = field(Some("a"), 0, path(&["Option"], Some(string_ty())), attrs(FieldType::Tag));
    assert_eq!(builder_slot(&opt), Ok(BuilderSlot::Optional));
    assert_eq!(build_value(&opt), Ok(BuildValue::Direct));
    assert_eq!(field_deserializer_type(&opt).unwrap().segments, vec!["String".to_string()]);

    let mut list = field(Some("a"), 0, path(&["Vec"], Some(string_ty())), attrs(FieldType::Tag));
    list.attrs.flatten = true;
    assert_eq!(builder_slot(&list), Ok(BuilderSlot::List));
    assert_eq!(build_value(&list), Ok(BuildValue::Collect));
    assert_eq!(child_assignment(&list), Assignment::Push);
    assert_eq!(tag_writer(&list), TagWriter::TagEach);

    let mut defaulted = field(Some("a"), 0, string_ty(), attrs(FieldType::Attr));
    defaulted.attrs.default = Some("Default::default".into());
    assert_eq!(builder_slot(&defaulted), Ok(BuilderSlot::Plain));
    assert_eq!(build_value(&defaulted), Ok(BuildValue::Direct));
    assert_eq!(child_assignment(&defaulted), Assignment::Assign);
    assert_eq!(tag_writer(&defaulted), TagWriter::Nothing);

    let mut bad = field(Some("a"), 0, path(&["Option"], Some(string_ty())), attrs(FieldType::Tag));
    bad.attrs.default = Some("f".into());
    assert_eq!(builder_slot(&bad), Err(DeriveError::DefaultOnOption));
    bad.attrs.default = None;
    bad.attrs.flatten = true;
    assert_eq!(builder_slot(&bad), Err(DeriveError::FlattenOption));
}

#[test]
fn variants_of_tagged_and_untagged_enums() {
    let mk = |fields: VariantFields, other: bool, skip: bool| VariantModel {
        ident: "V".into(),
        fields,
        attrs: VariantAttrs { rename: None, ns: None, other, skip_deserializing: skip },
    };
    assert_eq!(tagged_branch(&mk(VariantFields::Unit, false, false)), Ok(TaggedBranch::Unit));
    assert_eq!(tagged_branch(&mk(VariantFields::Unit, true, false)), Ok(TaggedBranch::CatchAll));
    assert_eq!(tagged_branch(&mk(VariantFields::Unit, false, true)), Ok(TaggedBranch::Skipped));
    assert_eq!(tagged_branch(&mk(VariantFields::Named, false, false)), Err(DeriveError::StructVariant));
    assert_eq!(
        tagged_branch(&mk(VariantFields::Unnamed(vec![path(&["Option"], Some(string_ty()))]), false, false)),
        Ok(TaggedBranch::Value { optional: true })
    );
    assert_eq!(
        tagged_branch(&mk(VariantFields::Unnamed(vec![string_ty(), string_ty()]), false, false)),
        Err(DeriveError::TupleVariantArity)
    );
    assert_eq!(
        tagged_branch(&mk(VariantFields::Unnamed(vec![string_ty()]), true, false)),
        Err(DeriveError::OtherTupleVariant)
    );
    assert_eq!(untagged_branch(&mk(VariantFields::Unnamed(vec![string_ty()]), false, false)), Ok(UntaggedBranch::Value));
    assert_eq!(untagged_branch(&mk(VariantFields::Unit, true, false)), Err(DeriveError::UntaggedOther));
}

#[test]
fn children_and_attributes_are_routed_to_fields() {
    let dav = NamespaceOwned(b"DAV:".to_vec());
    let mut href = field(Some("href"), 0, string_ty(), attrs(FieldType::Tag));
    href.attrs.ns = Some(dav.clone());
    let child = field(Some("child"), 1, string_ty(), attrs(FieldType::Tag));
    let test_attr = field(Some("test"), 2, string_ty(), attrs(FieldType::Attr));
    let untagged = field(Some("rest"), 3, string_ty(), attrs(FieldType::Untagged));
    let fields = vec![href, child, test_attr];

    assert_eq!(route_child(&fields, &ResolvedNs::Bound(dav.clone()), b"href", false), ChildRoute::Field(0));
    assert_eq!(route_child(&fields, &ResolvedNs::Unbound, b"href", false), ChildRoute::Invalid);
    assert_eq!(route_child(&fields, &ResolvedNs::Unbound, b"child", false), ChildRoute::Field(1));
    assert_eq!(route_child(&fields, &ResolvedNs::Bound(dav.clone()), b"child", true), ChildRoute::Ignore);
    let mut with_untagged = fields;
    with_untagged.push(untagged);
    assert_eq!(route_child(&with_untagged, &ResolvedNs::Unbound, b"other", false), ChildRoute::Untagged(3));
    assert_eq!(route_attribute(&with_untagged, b"test"), Some(2));
    assert_eq!(route_attribute(&with_untagged, b"child"), None);
    assert_eq!(check_untagged_fields(&with_untagged), Ok(()));
    with_untagged.push(field(Some("more"), 4, string_ty(), attrs(FieldType::Untagged)));
    assert_eq!(check_untagged_fields(&with_untagged), Err(DeriveError::SeveralUntaggedFields));
}

#[test]
fn root_namespace_declarations() {
    let decls = prefix_declarations(&vec![
        (NamespaceOwned(b"DAV:".to_vec()), String::new()),
        (NamespaceOwned(b"urn:ietf:params:xml:ns:caldav".to_vec()), "C".to_string()),
    ]);
    assert_eq!(
        decls,
        vec![
            (b"xmlns".to_vec(), b"DAV:".to_vec()),
            (b"xmlns:C".to_vec(), b"urn:ietf:params:xml:ns:caldav".to_vec()),
        ]
    );
}

#[test]
fn property_names_from_text() {
    let unit = |ident: &str, rename: Option<&[u8]>, other: bool| VariantModel {
        ident: ident.into(),
        fields: VariantFields::Unit,
        attrs: VariantAttrs { rename: rename.map(|r| r.to_vec()), ns: None, other, skip_deserializing: false },
    };
    let e = EnumModel {
        untagged: false,
        variants: vec![
            unit("Displayname", None, false),
            unit("PrincipalUrl", Some(b"principal-URL"), false),
            unit("Invalid", None, true),
        ],
    };
    assert_eq!(prop_name_from_str(&e, "displayname", &vec![]), Ok(0));
    assert_eq!(prop_name_from_str(&e, "principal-URL", &vec![]), Ok(1));
    assert_eq!(prop_name_from_str(&e, "invalid", &vec![]), Err(FromStrError));
    assert_eq!(prop_name_from_str(&e, "principal-url", &vec![]), Err(FromStrError));
    for (i, v) in e.variants.iter().enumerate() {
        if !v.attrs.other {
            assert_eq!(prop_name_from_str(&e, &variant_xml_name_text(v), &vec![]), Ok(i));
        }
    }
}

#[test]
fn variant_values_are_written_under_their_name_unless_untagged() {
    let v = VariantModel {
        ident: "PrincipalUrl".into(),
        fields: VariantFields::Unit,
        attrs: VariantAttrs { rename: None, ns: None, other: false, skip_deserializing: false },
    };
    assert_eq!(variant_write_tag(false, &v), Some(b"principal-url".to_vec()));
    assert_eq!(variant_write_tag(true, &v), None);
}

#[test]
fn struct_content_is_read_event_by_event() {
    let child = field(Some("child"), 0, string_ty(), attrs(FieldType::Tag));
    let fields = vec![child];
    let mut text = String::new();

    assert!(matches!(struct_content_step(&fields, false, &mut text, &ContentEvent::Text("a ".to_string())), ContentStep::Continue));
    assert!(matches!(struct_content_step(&fields, false, &mut text, &ContentEvent::EntityRef("amp".to_string())), ContentStep::Continue));
    assert!(matches!(struct_content_step(&fields, false, &mut text, &ContentEvent::CharRef('b')), ContentStep::Continue));
    assert!(matches!(struct_content_step(&fields, false, &mut text, &ContentEvent::CData("<c>".to_string())), ContentStep::Continue));
    assert!(matches!(struct_content_step(&fields, false, &mut text, &ContentEvent::Ignored), ContentStep::Continue));
    assert_eq!(text, "a &b<c>");

    assert!(matches!(
        struct_content_step(&fields, false, &mut text, &ContentEvent::EntityRef("nbsp".to_string())),
        ContentStep::Fail(XmlError::UnsupportedEvent("invalid XML ref"))
    ));
    assert_eq!(text, "a &b<c>");

    let known = ContentEvent::Child { ns: ResolvedNs::Unbound, name: b"child".to_vec(), empty: true };
    assert!(matches!(
        struct_content_step(&fields, false, &mut text, &known),
        ContentStep::ReadChild { route: ChildRoute::Field(0), empty: true }
    ));
    let unknown = ContentEvent::Child { ns: ResolvedNs::Unbound, name: b"other".to_vec(), empty: false };
    assert!(matches!(
        struct_content_step(&fields, false, &mut text, &unknown),
        ContentStep::ReadChild { route: ChildRoute::Invalid, empty: false }
    ));
    assert!(matches!(
        struct_content_step(&fields, true, &mut text, &unknown),
        ContentStep::ReadChild { route: ChildRoute::Ignore, empty: false }
    ));
    assert!(matches!(struct_content_step(&fields, false, &mut text, &ContentEvent::End), ContentStep::Done));
    assert!(matches!(struct_content_step(&fields, false, &mut text, &ContentEvent::Eof), ContentStep::Fail(XmlError::Eof)));
    assert_eq!(text, "a &b<c>");
}
