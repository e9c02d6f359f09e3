use rustical::xml::namespace::NamespaceOwned;
use rustical::xml_derive::{tagged_variants, EnumModel, TypeModel, VariantAttrs, VariantFields, VariantModel};

fn ns_dav() -> NamespaceOwned {
    NamespaceOwned(b"DAV:".to_vec())
}

fn path(segments: &[&str], generic: Option<TypeModel>) -> TypeModel {
    TypeModel {
        segments: segments.iter().map(|s| s.to_string()).collect(),
        generic: generic.map(Box::new),
    }
}

fn attrs(ns: Option<NamespaceOwned>, rename: Option<&[u8]>) -> VariantAttrs {
    VariantAttrs { rename: rename.map(|r| r.to_vec()), ns, other: false, skip_deserializing: false }
}

/// The `CalendarProp` enum: `Displayname(Option<String>)` and
/// `Getcontenttype(&'static str)` in DAV:, the unit variant `PrincipalUrl`
/// in DAV: renamed to `principal-URL`, and the unit variant `Topic`.
fn calendar_prop() -> EnumModel {
    EnumModel {
        untagged: false,
        variants: vec![
            VariantModel {
                ident: "Displayname".to_string(),
                fields: VariantFields::Unnamed(vec![path(&["Option"], Some(path(&["String"], None)))]),
                attrs: attrs(Some(ns_dav()), None),
            },
            VariantModel {
                ident: "Getcontenttype".to_string(),
                fields: VariantFields::Unnamed(vec![TypeModel { segments: vec![], generic: None }]),
                attrs: attrs(Some(ns_dav()), None),
            },
            VariantModel {
                ident: "PrincipalUrl".to_string(),
                fields: VariantFields::Unit,
                attrs: attrs(Some(ns_dav()), Some(b"principal-URL")),
            },
            VariantModel { ident: "Topic".to_string(), fields: VariantFields::Unit, attrs: attrs(None, None) },
        ],
    }
}

#[test]
fn test_enum_variants() {
    assert_eq!(
        tagged_variants(&calendar_prop()),
        vec![
            (Some(ns_dav()), "displayname".to_string()),
            (Some(ns_dav()), "getcontenttype".to_string()),
            (Some(ns_dav()), "principal-URL".to_string()),
            (None, "topic".to_string()),
        ]
    );
}

#[test]
fn untagged_enum_lists_no_tagged_variants() {
    let mut e = calendar_prop();
    e.untagged = true;
    assert!(tagged_variants(&e).is_empty());
}
