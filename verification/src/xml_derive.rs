//! What the XML derive macros decide about the types they are applied to:
//! the XML names of variants and fields, the kinds of fields, which type a
//! field is read with, how a field is gathered while reading and written
//! afterwards, and the variant names an enum lists.
//!
//! The types and attributes are described by plain values; the decisions
//! are the library's, the Rust code written from them is not.

use crate::text::{push_char, str_eq, utf8_lossy, utf8_lossy_text};
use crate::xml::namespace::{ns_view, NamespaceOwned};
use crate::xml::read::{text_step, xml_entity_spec, ResolvedNs, TextEvent, TextStep};
use crate::xml::write::attrs_view;
use crate::xml::error::XmlError;
use crate::xml::error::FromStrError;
use vstd::prelude::*;
use vstd::utf8::{decode_utf8, encode_utf8, valid_utf8};

pub mod enum_impl;
pub mod struct_read;
pub mod struct_write;

verus! {

/// The text `heck` makes of `s` in kebab case.
pub uninterp spec fn heck_kebab_case(s: Seq<char>) -> Seq<char>;

/// Converts an identifier to kebab case with `heck::ToKebabCase::to_kebab_case`.
/// The contract says that the result depends on the identifier alone.
#[verifier::external_body]
fn to_kebab_case(s: &str) -> (res: String)
    ensures
        res@ == heck_kebab_case(s@),
{
    heck::ToKebabCase::to_kebab_case(s)
}

/// Why a derive rejects a type.
#[derive(Debug, Clone, PartialEq, Eq, Structural)]
pub enum DeriveError {
    /// Variants with named fields are not supported.
    StructVariant,
    /// A tuple variant must hold exactly one element.
    TupleVariantArity,
    /// A field without a name needs a `rename` attribute.
    UnnamedTagField,
    /// A default value for an `Option<T>` field.
    DefaultOnOption,
    /// `flatten` on an `Option<T>` field.
    FlattenOption,
    /// `flatten` needs a type with an explicit generic argument.
    FlattenWithoutGeneric,
    /// More than one untagged field in a struct.
    SeveralUntaggedFields,
    /// An `Option` type without a generic argument.
    MissingGeneric,
    /// `other` on a tuple variant.
    OtherTupleVariant,
    /// `other` on a variant of an untagged enum.
    UntaggedOther,
    /// `XmlDocument` for an untagged enum.
    UntaggedDocument,
    /// `XmlRootTag` for a struct without a `root` attribute.
    MissingRoot,
}

/// How a field is represented in XML.
#[derive(Debug, Clone, Copy, PartialEq, Eq, Structural)]
pub enum FieldType {
    /// A child element (the default).
    Tag,
    /// An attribute.
    Attr,
    /// The element's text.
    Text,
    /// Child elements of any name, read by the field's type.
    Untagged,
    /// The element's own name.
    TagName,
    /// The element's own namespace.
    Namespace,
}

/// The field type an attribute value `ty = "..."` selects: the snake-case
/// name of a variant.
pub open spec fn field_type_spec(value: Seq<char>) -> Option<FieldType> {
    if value == "tag"@ {
        Some(FieldType::Tag)
    } else if value == "attr"@ {
        Some(FieldType::Attr)
    } else if value == "text"@ {
        Some(FieldType::Text)
    } else if value == "untagged"@ {
        Some(FieldType::Untagged)
    } else if value == "tag_name"@ {
        Some(FieldType::TagName)
    } else if value == "namespace"@ {
        Some(FieldType::Namespace)
    } else {
        None
    }
}

/// The field kinds are named `tag`, `attr`, `text`, `untagged`, `tag_name`
/// and `namespace`, each naming its own kind; any other text names none.
pub proof fn law_field_type_names(value: Seq<char>)
    ensures
        value == "tag"@ ==> field_type_spec(value) == Some(FieldType::Tag),
        value == "attr"@ ==> field_type_spec(value) == Some(FieldType::Attr),
        value == "text"@ ==> field_type_spec(value) == Some(FieldType::Text),
        value == "untagged"@ ==> field_type_spec(value) == Some(FieldType::Untagged),
        value == "tag_name"@ ==> field_type_spec(value) == Some(FieldType::TagName),
        value == "namespace"@ ==> field_type_spec(value) == Some(FieldType::Namespace),
        !(value == "tag"@ || value == "attr"@ || value == "text"@ || value == "untagged"@ || value == "tag_name"@
            || value == "namespace"@) ==> field_type_spec(value) is None,
{
    reveal_strlit("tag");
    reveal_strlit("attr");
    reveal_strlit("text");
    reveal_strlit("untagged");
    reveal_strlit("tag_name");
    reveal_strlit("namespace");
    assert("tag"@.len() != "attr"@.len());
    assert("tag"@[1] != "text"@[1] && "tag"@[0] != "untagged"@[0] && "tag"@[0] != "namespace"@[0]);
    assert("tag"@.len() != "tag_name"@.len());
    assert("attr"@[0] != "text"@[0] && "attr"@[0] != "untagged"@[0] && "attr"@[0] != "tag_name"@[0]
        && "attr"@[0] != "namespace"@[0]);
    assert("text"@[0] != "untagged"@[0] && "text"@[0] != "namespace"@[0] && "text"@[1] != "tag_name"@[1]);
    assert("untagged"@[0] != "tag_name"@[0] && "untagged"@[0] != "namespace"@[0]);
    assert("tag_name"@[0] != "namespace"@[0]);
}

/// Reads the field type named by an attribute value.
pub fn field_type_from_meta(value: &str) -> (res: Option<FieldType>)
    ensures
        res == field_type_spec(value@),
{
    if str_eq(value, "tag") {
        Some(FieldType::Tag)
    } else if str_eq(value, "attr") {
        Some(FieldType::Attr)
    } else if str_eq(value, "text") {
        Some(FieldType::Text)
    } else if str_eq(value, "untagged") {
        Some(FieldType::Untagged)
    } else if str_eq(value, "tag_name") {
        Some(FieldType::TagName)
    } else if str_eq(value, "namespace") {
        Some(FieldType::Namespace)
    } else {
        None
    }
}

/// A Rust type as far as the derives look at it: for a path type, the
/// names of its segments and the first generic type argument of its last
/// segment; any other type has no segments.
#[derive(Debug)]
pub struct TypeModel {
    pub segments: Vec<String>,
    pub generic: Option<Box<TypeModel>>,
}

/// The first generic type argument of the last segment of a path type.
pub open spec fn generic_type_spec(ty: TypeModel) -> Option<TypeModel> {
    if ty.segments@.len() > 0 {
        match ty.generic {
            Some(b) => Some(*b),
            None => None,
        }
    } else {
        None
    }
}

/// Finds the first generic type argument of the last segment of a path type.
pub fn get_generic_type(ty: &TypeModel) -> (res: Option<&TypeModel>)
    ensures
        match generic_type_spec(*ty) {
            Some(t) => res matches Some(r) && *r == t,
            None => res is None,
        },
{
    if ty.segments.len() > 0 {
        match &ty.generic {
            Some(b) => Some(&**b),
            None => None,
        }
    } else {
        None
    }
}

/// Whether a type is written `Option<..>`: a path of one segment named `Option`.
pub open spec fn is_optional_spec(ty: TypeModel) -> bool {
    ty.segments@.len() == 1 && ty.segments@[0]@ == "Option"@
}

/// A type is an `Option` exactly when it is a path of one segment named
/// `Option`; longer paths (such as `std::option::Option`) and other names
/// are not.
pub proof fn law_is_optional(ty: TypeModel)
    ensures
        is_optional_spec(ty) <==> (ty.segments@.len() == 1 && ty.segments@[0]@ == "Option"@),
        ty.segments@.len() != 1 ==> !is_optional_spec(ty),
{
}

/// Decides whether a type is written `Option<..>`.
pub fn is_optional(ty: &TypeModel) -> (res: bool)
    ensures
        res == is_optional_spec(*ty),
{
    ty.segments.len() == 1 && str_eq(ty.segments[0].as_str(), "Option")
}


/// The shape of an enum variant.
#[derive(Debug)]
pub enum VariantFields {
    /// No fields.
    Unit,
    /// Unnamed fields, with their types.
    Unnamed(Vec<TypeModel>),
    /// Named fields.
    Named,
}

/// The `xml` attributes of a variant.
#[derive(Debug)]
pub struct VariantAttrs {
    pub rename: Option<Vec<u8>>,
    pub ns: Option<NamespaceOwned>,
    pub other: bool,
    pub skip_deserializing: bool,
}

/// An enum variant: its name, its fields and its attributes.
#[derive(Debug)]
pub struct VariantModel {
    pub ident: String,
    pub fields: VariantFields,
    pub attrs: VariantAttrs,
}

/// The XML name of a name given as identifier `ident`, unless renamed to the bytes `rename`.
pub open spec fn xml_name_spec(rename: Option<Vec<u8>>, ident: Seq<char>) -> Seq<u8> {
    match rename {
        Some(r) => r@,
        None => encode_utf8(heck_kebab_case(ident)),
    }
}

/// The XML name of a name as text, a renamed name decoded as UTF-8 with
/// replacement characters for invalid bytes.
pub open spec fn xml_name_text_spec(rename: Option<Vec<u8>>, ident: Seq<char>) -> Seq<char> {
    match rename {
        Some(r) => utf8_lossy_text(r@),
        None => heck_kebab_case(ident),
    }
}

/// The XML name of a variant: its `rename` attribute, or its name in kebab case.
pub fn variant_xml_name(v: &VariantModel) -> (res: Vec<u8>)
    ensures
        res@ == xml_name_spec(v.attrs.rename, v.ident@),
{
    match &v.attrs.rename {
        Some(r) => r.clone(),
        None => {
            let k = to_kebab_case(v.ident.as_str());
            vstd::slice::slice_to_vec(k.as_str().as_bytes())
        },
    }
}

/// The XML name of a variant as text.
pub fn variant_xml_name_text(v: &VariantModel) -> (res: String)
    ensures
        res@ == xml_name_text_spec(v.attrs.rename, v.ident@),
        v.attrs.rename matches Some(r) ==> (valid_utf8(r@) ==> res@ == decode_utf8(r@)),
{
    match &v.attrs.rename {
        Some(r) => utf8_lossy(r.as_slice()),
        None => to_kebab_case(v.ident.as_str()),
    }
}

/// The type a variant holds.
pub enum VariantTypeRef<'a> {
    /// A unit variant, read and written as an element without content.
    Unit,
    /// The type of the one element of a tuple variant.
    Type(&'a TypeModel),
}

/// The type a variant holds: none for a unit variant, the element's type
/// for a tuple variant of one element; other shapes are rejected.
pub fn variant_type(v: &VariantModel) -> (res: Result<VariantTypeRef<'_>, DeriveError>)
    ensures
        match v.fields {
            VariantFields::Named => res == Err::<VariantTypeRef<'_>, DeriveError>(DeriveError::StructVariant),
            VariantFields::Unit => res matches Ok(VariantTypeRef::Unit),
            VariantFields::Unnamed(tys) => if tys@.len() == 1 {
                res matches Ok(VariantTypeRef::Type(t)) && *t == tys@[0]
            } else {
                res == Err::<VariantTypeRef<'_>, DeriveError>(DeriveError::TupleVariantArity)
            },
        },
{
    match &v.fields {
        VariantFields::Named => Err(DeriveError::StructVariant),
        VariantFields::Unit => Ok(VariantTypeRef::Unit),
        VariantFields::Unnamed(tys) => {
            if tys.len() == 1 {
                Ok(VariantTypeRef::Type(&tys[0]))
            } else {
                Err(DeriveError::TupleVariantArity)
            }
        },
    }
}

/// The type a variant is read with: the argument of an `Option`, else the
/// variant's own type.
pub fn variant_deserializer_type(v: &VariantModel) -> (res: Result<VariantTypeRef<'_>, DeriveError>)
    ensures
        match v.fields {
            VariantFields::Named => res == Err::<VariantTypeRef<'_>, DeriveError>(DeriveError::StructVariant),
            VariantFields::Unit => res matches Ok(VariantTypeRef::Unit),
            VariantFields::Unnamed(tys) => if tys@.len() != 1 {
                res == Err::<VariantTypeRef<'_>, DeriveError>(DeriveError::TupleVariantArity)
            } else if is_optional_spec(tys@[0]) {
                match generic_type_spec(tys@[0]) {
                    Some(g) => res matches Ok(VariantTypeRef::Type(t)) && *t == g,
                    None => res == Err::<VariantTypeRef<'_>, DeriveError>(DeriveError::MissingGeneric),
                }
            } else {
                res matches Ok(VariantTypeRef::Type(t)) && *t == tys@[0]
            },
        },
{
    match variant_type(v) {
        Err(e) => Err(e),
        Ok(VariantTypeRef::Unit) => Ok(VariantTypeRef::Unit),
        Ok(VariantTypeRef::Type(t)) => {
            if is_optional(t) {
                match get_generic_type(t) {
                    Some(g) => Ok(VariantTypeRef::Type(g)),
                    None => Err(DeriveError::MissingGeneric),
                }
            } else {
                Ok(VariantTypeRef::Type(t))
            }
        },
    }
}

/// How a variant is matched when reading a tagged enum.
#[derive(Debug, PartialEq, Eq, Structural)]
pub enum TaggedBranch {
    /// The variant is not read.
    Skipped,
    /// An element of the variant's name holds the variant's value; wrapped
    /// in `Some` when the variant holds an `Option`.
    Value { optional: bool },
    /// An element of the variant's name stands for the unit variant.
    Unit,
    /// Any element of another name stands for this unit variant.
    CatchAll,
}

/// Decides how a variant is matched when reading a tagged enum.
pub fn tagged_branch(v: &VariantModel) -> (res: Result<TaggedBranch, DeriveError>)
    ensures
        v.attrs.skip_deserializing ==> res == Ok::<TaggedBranch, DeriveError>(TaggedBranch::Skipped),
        !v.attrs.skip_deserializing ==> match v.fields {
            VariantFields::Named => res == Err::<TaggedBranch, DeriveError>(DeriveError::StructVariant),
            VariantFields::Unnamed(tys) => if tys@.len() != 1 {
                res == Err::<TaggedBranch, DeriveError>(DeriveError::TupleVariantArity)
            } else if v.attrs.other {
                res == Err::<TaggedBranch, DeriveError>(DeriveError::OtherTupleVariant)
            } else {
                res == Ok::<TaggedBranch, DeriveError>(TaggedBranch::Value { optional: is_optional_spec(tys@[0]) })
            },
            VariantFields::Unit => if v.attrs.other {
                res == Ok::<TaggedBranch, DeriveError>(TaggedBranch::CatchAll)
            } else {
                res == Ok::<TaggedBranch, DeriveError>(TaggedBranch::Unit)
            },
        },
{
    if v.attrs.skip_deserializing {
        return Ok(TaggedBranch::Skipped);
    }
    match &v.fields {
        VariantFields::Named => Err(DeriveError::StructVariant),
        VariantFields::Unnamed(tys) => {
            if tys.len() != 1 {
                Err(DeriveError::TupleVariantArity)
            } else if v.attrs.other {
                Err(DeriveError::OtherTupleVariant)
            } else {
                Ok(TaggedBranch::Value { optional: is_optional(&tys[0]) })
            }
        },
        VariantFields::Unit => {
            if v.attrs.other {
                Ok(TaggedBranch::CatchAll)
            } else {
                Ok(TaggedBranch::Unit)
            }
        },
    }
}

/// How a variant is tried when reading an untagged enum.
#[derive(Debug, PartialEq, Eq, Structural)]
pub enum UntaggedBranch {
    /// The variant is not tried.
    Skipped,
    /// The element is read with the variant's type.
    Value,
    /// The element's content is skipped and the unit variant taken.
    Unit,
}

/// Decides how a variant is tried when reading an untagged enum.
pub fn untagged_branch(v: &VariantModel) -> (res: Result<UntaggedBranch, DeriveError>)
    ensures
        v.attrs.skip_deserializing ==> res == Ok::<UntaggedBranch, DeriveError>(UntaggedBranch::Skipped),
        !v.attrs.skip_deserializing && v.attrs.other ==> res == Err::<UntaggedBranch, DeriveError>(DeriveError::UntaggedOther),
        !v.attrs.skip_deserializing && !v.attrs.other ==> match v.fields {
            VariantFields::Named => res == Err::<UntaggedBranch, DeriveError>(DeriveError::StructVariant),
            VariantFields::Unnamed(tys) => if tys@.len() != 1 {
                res == Err::<UntaggedBranch, DeriveError>(DeriveError::TupleVariantArity)
            } else {
                res == Ok::<UntaggedBranch, DeriveError>(UntaggedBranch::Value)
            },
            VariantFields::Unit => res == Ok::<UntaggedBranch, DeriveError>(UntaggedBranch::Unit),
        },
{
    if v.attrs.skip_deserializing {
        return Ok(UntaggedBranch::Skipped);
    }
    if v.attrs.other {
        return Err(DeriveError::UntaggedOther);
    }
    match &v.fields {
        VariantFields::Named => Err(DeriveError::StructVariant),
        VariantFields::Unnamed(tys) => {
            if tys.len() != 1 {
                Err(DeriveError::TupleVariantArity)
            } else {
                Ok(UntaggedBranch::Value)
            }
        },
        VariantFields::Unit => Ok(UntaggedBranch::Unit),
    }
}

/// An enum: whether it is untagged, and its variants.
#[derive(Debug)]
pub struct EnumModel {
    pub untagged: bool,
    pub variants: Vec<VariantModel>,
}


/// The view of a list of variant names: namespaces and names.
pub open spec fn names_view(names: Seq<(Option<NamespaceOwned>, String)>) -> Seq<(Option<Seq<u8>>, Seq<char>)> {
    names.map_values(|p: (Option<NamespaceOwned>, String)| (ns_view(p.0), p.1@))
}

/// The tagged variant names of an enum: none for an untagged enum, else
/// each variant's namespace and XML name as text, in order.
pub open spec fn tagged_variants_spec(e: EnumModel) -> Seq<(Option<Seq<u8>>, Seq<char>)> {
    if e.untagged {
        Seq::empty()
    } else {
        e.variants@.map_values(|v: VariantModel| (ns_view(v.attrs.ns), xml_name_text_spec(v.attrs.rename, v.ident@)))
    }
}

/// The XML name of a variant is its `rename` attribute when it has one,
/// else its identifier in kebab case; the tagged variant names of a tagged
/// enum are each variant's namespace and XML name, in order, and an
/// untagged enum has none.
pub proof fn law_variant_names(e: EnumModel, rename: Option<Vec<u8>>, ident: Seq<char>)
    ensures
        rename matches Some(r) ==> xml_name_spec(rename, ident) == r@,
        rename is None ==> xml_name_spec(rename, ident) == encode_utf8(heck_kebab_case(ident)),
        rename is None ==> xml_name_text_spec(rename, ident) == heck_kebab_case(ident),
        e.untagged ==> tagged_variants_spec(e).len() == 0,
        !e.untagged ==> tagged_variants_spec(e).len() == e.variants@.len(),
        !e.untagged ==> forall|i: int|
            0 <= i < e.variants@.len() ==> #[trigger] tagged_variants_spec(e)[i] == (ns_view(e.variants@[i].attrs.ns),
                xml_name_text_spec(e.variants@[i].attrs.rename, e.variants@[i].ident@)),
{
}

/// The tagged variant names of an enum, as `EnumVariants::TAGGED_VARIANTS`
/// lists them: none for an untagged enum, else one `(namespace, name)` per
/// variant, in order; a name given as valid UTF-8 is kept as it is.
pub fn tagged_variants(e: &EnumModel) -> (res: Vec<(Option<NamespaceOwned>, String)>)
    ensures
        names_view(res@) == tagged_variants_spec(*e),
        !e.untagged ==> forall|i: int| 0 <= i < res@.len() ==> ((#[trigger] e.variants@[i]).attrs.rename matches Some(r)
            ==> (valid_utf8(r@) ==> res@[i].1@ == decode_utf8(r@))),
{
    let mut out: Vec<(Option<NamespaceOwned>, String)> = Vec::new();
    if e.untagged {
        assert(names_view(out@) =~= tagged_variants_spec(*e));
        return out;
    }
    let mut i: usize = 0;
    while i < e.variants.len()
        invariant
            !e.untagged,
            i <= e.variants@.len(),
            out@.len() == i,
            names_view(out@) =~= tagged_variants_spec(*e).take(i as int),
            forall|j: int| 0 <= j < i ==> ((#[trigger] e.variants@[j]).attrs.rename matches Some(r)
                ==> (valid_utf8(r@) ==> out@[j].1@ == decode_utf8(r@))),
        decreases e.variants@.len() - i,
    {
        let v = &e.variants[i];
        let ns = match &v.attrs.ns {
            Some(n) => Some(n.duplicate()),
            None => None,
        };
        let name = variant_xml_name_text(v);
        let ghost before = out@;
        out.push((ns, name));
        assert(names_view(out@) =~= names_view(before).push((ns_view(ns), name@)));
        assert(tagged_variants_spec(*e).take(i + 1) =~= tagged_variants_spec(*e).take(i as int).push(
            tagged_variants_spec(*e)[i as int]));
        i = i + 1;
    }
    out
}


/// The `xml` attributes of a struct field.
#[derive(Debug)]
pub struct FieldAttrs {
    pub rename: Option<Vec<u8>>,
    pub ns: Option<NamespaceOwned>,
    pub flatten: bool,
    /// The path of the function that gives the default value.
    pub default: Option<String>,
    /// The path of the function that writes the field.
    pub serialize_with: Option<String>,
    pub xml_ty: FieldType,
}

/// A struct field: its name (none in a tuple struct), position, type and attributes.
#[derive(Debug)]
pub struct FieldModel {
    pub ident: Option<String>,
    pub num: usize,
    pub ty: TypeModel,
    pub attrs: FieldAttrs,
}

/// The XML name of a field: its `rename` attribute, or its name in kebab
/// case; a field without a name needs the attribute.
pub fn field_xml_name(f: &FieldModel) -> (res: Result<Vec<u8>, DeriveError>)
    ensures
        match f.attrs.rename {
            Some(r) => res matches Ok(n) && n@ == r@,
            None => match f.ident {
                Some(i) => res matches Ok(n) && n@ == encode_utf8(heck_kebab_case(i@)),
                None => res == Err::<Vec<u8>, DeriveError>(DeriveError::UnnamedTagField),
            },
        },
{
    match &f.attrs.rename {
        Some(r) => Ok(r.clone()),
        None => match &f.ident {
            Some(i) => {
                let k = to_kebab_case(i.as_str());
                Ok(vstd::slice::slice_to_vec(k.as_str().as_bytes()))
            },
            None => Err(DeriveError::UnnamedTagField),
        },
    }
}

/// The name of a field in the builder that gathers a struct while it is
/// read: the field's own name, or `_` and its position.
pub fn builder_field_ident(f: &FieldModel) -> (res: String)
    ensures
        match f.ident {
            Some(i) => res@ == i@,
            None => res@ == seq!['_'] + crate::text::decimal_digits(f.num as nat),
        },
{
    match &f.ident {
        Some(i) => i.clone(),
        None => {
            let mut s = String::new();
            push_char(&mut s, '_');
            crate::text::push_decimal(&mut s, f.num as u64);
            s
        },
    }
}

/// The type a field is read with: the argument of an `Option`, the element
/// type of a flattened collection, else the field's type.
pub fn field_deserializer_type(f: &FieldModel) -> (res: Result<&TypeModel, DeriveError>)
    ensures
        if is_optional_spec(f.ty) {
            match generic_type_spec(f.ty) {
                Some(g) => res matches Ok(t) && *t == g,
                None => res == Err::<&TypeModel, DeriveError>(DeriveError::MissingGeneric),
            }
        } else if f.attrs.flatten {
            match generic_type_spec(f.ty) {
                Some(g) => res matches Ok(t) && *t == g,
                None => res == Err::<&TypeModel, DeriveError>(DeriveError::FlattenWithoutGeneric),
            }
        } else {
            res matches Ok(t) && *t == f.ty
        },
{
    if is_optional(&f.ty) {
        match get_generic_type(&f.ty) {
            Some(g) => Ok(g),
            None => Err(DeriveError::MissingGeneric),
        }
    } else if f.attrs.flatten {
        match get_generic_type(&f.ty) {
            Some(g) => Ok(g),
            None => Err(DeriveError::FlattenWithoutGeneric),
        }
    } else {
        Ok(&f.ty)
    }
}

/// How a field is held while its struct is read.
#[derive(Debug, Clone, Copy, PartialEq, Eq, Structural)]
pub enum BuilderSlot {
    /// The value itself, starting from the field's default.
    Plain,
    /// A list of the values read, starting empty.
    List,
    /// An optional value, starting unset.
    Optional,
}

/// The slot a field gets in the builder: a field with a default holds its
/// value, a flattened field a list, any other field an optional value.
/// Defaults and flattening do not apply to `Option` fields.
pub open spec fn builder_slot_spec(flatten: bool, has_default: bool, optional: bool) -> Result<BuilderSlot, DeriveError> {
    if has_default && optional {
        Err(DeriveError::DefaultOnOption)
    } else if has_default {
        Ok(BuilderSlot::Plain)
    } else if flatten && optional {
        Err(DeriveError::FlattenOption)
    } else if flatten {
        Ok(BuilderSlot::List)
    } else {
        Ok(BuilderSlot::Optional)
    }
}

/// How each field is held while its struct is read: a field with a default
/// holds its value from the start (a default on an `Option` is refused); a
/// flattened field without a default gathers a list (flattening an `Option`
/// is refused); any other field holds an optional value.
pub proof fn law_builder_slot(flatten: bool, has_default: bool, optional: bool)
    ensures
        has_default && optional ==> builder_slot_spec(flatten, has_default, optional) == Err::<BuilderSlot, DeriveError>(
            DeriveError::DefaultOnOption,
        ),
        has_default && !optional ==> builder_slot_spec(flatten, has_default, optional) == Ok::<BuilderSlot, DeriveError>(
            BuilderSlot::Plain,
        ),
        !has_default && flatten && optional ==> builder_slot_spec(flatten, has_default, optional) == Err::<
            BuilderSlot,
            DeriveError,
        >(DeriveError::FlattenOption),
        !has_default && flatten && !optional ==> builder_slot_spec(flatten, has_default, optional) == Ok::<
            BuilderSlot,
            DeriveError,
        >(BuilderSlot::List),
        !has_default && !flatten ==> builder_slot_spec(flatten, has_default, optional) == Ok::<BuilderSlot, DeriveError>(
            BuilderSlot::Optional,
        ),
{
}

/// Decides the slot of a field in the builder.
pub fn builder_slot(f: &FieldModel) -> (res: Result<BuilderSlot, DeriveError>)
    ensures
        res == builder_slot_spec(f.attrs.flatten, f.attrs.default is Some, is_optional_spec(f.ty)),
{
    let optional = is_optional(&f.ty);
    let has_default = f.attrs.default.is_some();
    if has_default && optional {
        Err(DeriveError::DefaultOnOption)
    } else if has_default {
        Ok(BuilderSlot::Plain)
    } else if f.attrs.flatten && optional {
        Err(DeriveError::FlattenOption)
    } else if f.attrs.flatten {
        Ok(BuilderSlot::List)
    } else {
        Ok(BuilderSlot::Optional)
    }
}

/// How the field's value is taken from the builder once the struct is read.
#[derive(Debug, PartialEq, Eq, Structural)]
pub enum BuildValue {
    /// The list of values, collected into the field's collection type.
    Collect,
    /// The slot's value as it is.
    Direct,
    /// The set value; a field that was never set fails with a missing field
    /// error naming the field.
    Required,
}

/// Decides how the field's value is taken from the builder: a flattened
/// field collects its list; a field with a default, or of type `Option`,
/// takes its slot as it is; any other field must have been set.
pub fn build_value(f: &FieldModel) -> (res: Result<BuildValue, DeriveError>)
    ensures
        match builder_slot_spec(f.attrs.flatten, f.attrs.default is Some, is_optional_spec(f.ty)) {
            Err(e) => res == Err::<BuildValue, DeriveError>(e),
            Ok(BuilderSlot::List) => res == Ok::<BuildValue, DeriveError>(BuildValue::Collect),
            Ok(BuilderSlot::Plain) => res == Ok::<BuildValue, DeriveError>(BuildValue::Direct),
            Ok(BuilderSlot::Optional) => if is_optional_spec(f.ty) {
                res == Ok::<BuildValue, DeriveError>(BuildValue::Direct)
            } else {
                res == Ok::<BuildValue, DeriveError>(BuildValue::Required)
            },
        },
{
    match builder_slot(f) {
        Err(e) => Err(e),
        Ok(BuilderSlot::List) => Ok(BuildValue::Collect),
        Ok(BuilderSlot::Plain) => Ok(BuildValue::Direct),
        Ok(BuilderSlot::Optional) => {
            if is_optional(&f.ty) {
                Ok(BuildValue::Direct)
            } else {
                Ok(BuildValue::Required)
            }
        },
    }
}

/// How a field is written when its struct is written.
#[derive(Debug, PartialEq, Eq, Structural)]
pub enum TagWriter {
    /// The field is not written as content (attributes, tag names, namespaces).
    Nothing,
    /// The field's text.
    Text,
    /// The text of each item of the field.
    TextEach,
    /// The field as a child element of the field's XML name.
    Tag,
    /// Each item of the field as a child element of the field's XML name.
    TagEach,
    /// The field without an element of its own.
    Untagged,
    /// Each item of the field without an element of its own.
    UntaggedEach,
}

/// How a field is written: attribute, tag-name and namespace fields write
/// no content; text, tag and untagged fields write their value, item by
/// item when flattened.
pub open spec fn tag_writer_spec(f: FieldModel) -> TagWriter {
    match f.attrs.xml_ty {
        FieldType::Attr | FieldType::TagName | FieldType::Namespace => TagWriter::Nothing,
        FieldType::Text => if f.attrs.flatten { TagWriter::TextEach } else { TagWriter::Text },
        FieldType::Tag => if f.attrs.flatten { TagWriter::TagEach } else { TagWriter::Tag },
        FieldType::Untagged => if f.attrs.flatten { TagWriter::UntaggedEach } else { TagWriter::Untagged },
    }
}

/// How fields are written as content: attribute, tag-name and namespace
/// fields write none; a flattened text, tag or untagged field is written
/// item by item (as text, as elements named after the field, or bare), and
/// any other text, tag or untagged field as one value of the same kind.
pub proof fn law_tag_writer(f: FieldModel)
    ensures
        (f.attrs.xml_ty == FieldType::Attr || f.attrs.xml_ty == FieldType::TagName || f.attrs.xml_ty
            == FieldType::Namespace) <==> tag_writer_spec(f) == TagWriter::Nothing,
        f.attrs.xml_ty == FieldType::Text && f.attrs.flatten ==> tag_writer_spec(f) == TagWriter::TextEach,
        f.attrs.xml_ty == FieldType::Text && !f.attrs.flatten ==> tag_writer_spec(f) == TagWriter::Text,
        f.attrs.xml_ty == FieldType::Tag && f.attrs.flatten ==> tag_writer_spec(f) == TagWriter::TagEach,
        f.attrs.xml_ty == FieldType::Tag && !f.attrs.flatten ==> tag_writer_spec(f) == TagWriter::Tag,
        f.attrs.xml_ty == FieldType::Untagged && f.attrs.flatten ==> tag_writer_spec(f) == TagWriter::UntaggedEach,
        f.attrs.xml_ty == FieldType::Untagged && !f.attrs.flatten ==> tag_writer_spec(f) == TagWriter::Untagged,
        (tag_writer_spec(f) == TagWriter::TextEach || tag_writer_spec(f) == TagWriter::TagEach || tag_writer_spec(f)
            == TagWriter::UntaggedEach) ==> f.attrs.flatten,
{
}

/// Decides how a field is written.
pub fn tag_writer(f: &FieldModel) -> (res: TagWriter)
    ensures
        res == tag_writer_spec(*f),
{
    match f.attrs.xml_ty {
        FieldType::Attr | FieldType::TagName | FieldType::Namespace => TagWriter::Nothing,
        FieldType::Text => if f.attrs.flatten { TagWriter::TextEach } else { TagWriter::Text },
        FieldType::Tag => if f.attrs.flatten { TagWriter::TagEach } else { TagWriter::Tag },
        FieldType::Untagged => if f.attrs.flatten { TagWriter::UntaggedEach } else { TagWriter::Untagged },
    }
}

/// How a value read for a field is stored in its slot.
#[derive(Debug, PartialEq, Eq, Structural)]
pub enum Assignment {
    /// Appended to the list.
    Push,
    /// Stored as it is.
    Assign,
    /// Stored as `Some`.
    SetSome,
}

/// Decides how a value read for a child element is stored: appended for a
/// flattened field, stored as it is for a field with a default, and as
/// `Some` otherwise.
pub fn child_assignment(f: &FieldModel) -> (res: Assignment)
    ensures
        res == if f.attrs.flatten {
            Assignment::Push
        } else if f.attrs.default is Some {
            Assignment::Assign
        } else {
            Assignment::SetSome
        },
{
    if f.attrs.flatten {
        Assignment::Push
    } else if f.attrs.default.is_some() {
        Assignment::Assign
    } else {
        Assignment::SetSome
    }
}

/// Counts the untagged fields of a struct.
pub open spec fn untagged_count(fields: Seq<FieldModel>) -> nat
    decreases fields.len(),
{
    if fields.len() == 0 {
        0
    } else {
        untagged_count(fields.drop_last()) + if fields.last().attrs.xml_ty == FieldType::Untagged { 1nat } else { 0nat }
    }
}

/// A struct is read only when at most one of its fields is untagged.
pub fn check_untagged_fields(fields: &Vec<FieldModel>) -> (res: Result<(), DeriveError>)
    ensures
        untagged_count(fields@) <= 1 ==> res is Ok,
        untagged_count(fields@) > 1 ==> res == Err::<(), DeriveError>(DeriveError::SeveralUntaggedFields),
{
    let mut count: usize = 0;
    let mut i: usize = 0;
    while i < fields.len()
        invariant
            i <= fields@.len(),
            count == untagged_count(fields@.take(i as int)),
            count <= i,
        decreases fields@.len() - i,
    {
        assert(fields@.take(i + 1).drop_last() =~= fields@.take(i as int));
        if fields[i].attrs.xml_ty == FieldType::Untagged {
            count = count + 1;
        }
        i = i + 1;
    }
    assert(fields@.take(fields@.len() as int) =~= fields@);
    if count > 1 {
        Err(DeriveError::SeveralUntaggedFields)
    } else {
        Ok(())
    }
}


/// The XML name of a field, when it has one.
pub open spec fn field_name_spec(f: FieldModel) -> Option<Seq<u8>> {
    match f.attrs.rename {
        Some(r) => Some(r@),
        None => match f.ident {
            Some(i) => Some(encode_utf8(heck_kebab_case(i@))),
            None => None,
        },
    }
}

/// The XML name of a field is its `rename` attribute when it has one, else
/// the UTF-8 bytes of its identifier in kebab case; a field without both
/// has none. A child element goes into a field only when the field is a
/// tag field of the child's name, and the child is in the field's
/// namespace (no namespace for a field without one).
pub proof fn law_field_names(f: FieldModel, ns: ResolvedNs, name: Seq<u8>)
    ensures
        f.attrs.rename matches Some(r) ==> field_name_spec(f) == Some(r@),
        f.attrs.rename is None ==> (f.ident matches Some(i) ==> field_name_spec(f) == Some(encode_utf8(heck_kebab_case(i@)))),
        f.attrs.rename is None && f.ident is None ==> field_name_spec(f) is None,
        child_matches(f, ns, name) ==> f.attrs.xml_ty == FieldType::Tag && field_name_spec(f) == Some(name),
        child_matches(f, ns, name) ==> (f.attrs.ns matches Some(n) ==> (ns matches ResolvedNs::Bound(b) && b@ == n@)),
        child_matches(f, ns, name) && f.attrs.ns is None ==> ns is Unbound,
        f.attrs.xml_ty == FieldType::Tag && field_name_spec(f) == Some(name) && f.attrs.ns is None && ns is Unbound
            ==> child_matches(f, ns, name),
{
}

/// Whether a child element of namespace `ns` and local name `name` is read
/// into the field: a tag field of that name, in its namespace when it has
/// one, and in no namespace otherwise.
pub open spec fn child_matches(f: FieldModel, ns: ResolvedNs, name: Seq<u8>) -> bool {
    &&& f.attrs.xml_ty == FieldType::Tag
    &&& field_name_spec(f) == Some(name)
    &&& match f.attrs.ns {
        Some(n) => ns matches ResolvedNs::Bound(b) && b@ == n@,
        None => ns is Unbound,
    }
}

/// Where a child element goes while a struct is read.
#[derive(Debug, PartialEq, Eq, Structural)]
pub enum ChildRoute {
    /// Into the tag field of this position.
    Field(usize),
    /// Into the untagged field of this position.
    Untagged(usize),
    /// Nowhere: the struct allows unknown children.
    Ignore,
    /// Nowhere: the child is an invalid field name.
    Invalid,
}

fn field_matches(f: &FieldModel, ns: &ResolvedNs, name: &[u8]) -> (res: bool)
    ensures
        res == child_matches(*f, *ns, name@),
{
    if f.attrs.xml_ty != FieldType::Tag {
        return false;
    }
    let field_name = match field_xml_name(f) {
        Ok(n) => n,
        Err(_) => return false,
    };
    if !crate::text::bytes_eq(field_name.as_slice(), name) {
        return false;
    }
    match &f.attrs.ns {
        Some(n) => match ns {
            ResolvedNs::Bound(b) => crate::text::bytes_eq(b.as_bytes(), n.as_bytes()),
            _ => false,
        },
        None => match ns {
            ResolvedNs::Unbound => true,
            _ => false,
        },
    }
}

/// The position of the first tag field from position `k` on that a child
/// element of namespace `ns` and local name `name` matches.
pub open spec fn first_child_match(fields: Seq<FieldModel>, ns: ResolvedNs, name: Seq<u8>, k: int) -> Option<int>
    decreases fields.len() - k,
{
    if k < 0 || k >= fields.len() {
        None
    } else if child_matches(fields[k], ns, name) {
        Some(k)
    } else {
        first_child_match(fields, ns, name, k + 1)
    }
}

/// The position of the first untagged field from position `k` on.
pub open spec fn first_untagged_field(fields: Seq<FieldModel>, k: int) -> Option<int>
    decreases fields.len() - k,
{
    if k < 0 || k >= fields.len() {
        None
    } else if fields[k].attrs.xml_ty == FieldType::Untagged {
        Some(k)
    } else {
        first_untagged_field(fields, k + 1)
    }
}

/// Where a child element goes: the first tag field it matches, else the
/// first untagged field, else nowhere (ignored when unknown children are
/// allowed, invalid otherwise).
pub open spec fn route_child_spec(fields: Seq<FieldModel>, ns: ResolvedNs, name: Seq<u8>, allow_invalid: bool) -> ChildRoute {
    match first_child_match(fields, ns, name, 0) {
        Some(i) => ChildRoute::Field(i as usize),
        None => match first_untagged_field(fields, 0) {
            Some(i) => ChildRoute::Untagged(i as usize),
            None => if allow_invalid {
                ChildRoute::Ignore
            } else {
                ChildRoute::Invalid
            },
        },
    }
}

proof fn lemma_first_child_match(fields: Seq<FieldModel>, ns: ResolvedNs, name: Seq<u8>, k: int)
    requires
        0 <= k <= fields.len(),
    ensures
        (forall|j: int| k <= j < fields.len() ==> !child_matches(#[trigger] fields[j], ns, name))
            ==> first_child_match(fields, ns, name, k) is None,
        forall|i: int| k <= i < fields.len() && child_matches(fields[i], ns, name) && (forall|j: int| k <= j < i
            ==> !child_matches(#[trigger] fields[j], ns, name)) ==> first_child_match(fields, ns, name, k) == Some(i),
    decreases fields.len() - k,
{
    if k < fields.len() {
        lemma_first_child_match(fields, ns, name, k + 1);
    }
}

proof fn lemma_first_untagged_field(fields: Seq<FieldModel>, k: int)
    requires
        0 <= k <= fields.len(),
    ensures
        (forall|j: int| k <= j < fields.len() ==> (#[trigger] fields[j]).attrs.xml_ty != FieldType::Untagged)
            ==> first_untagged_field(fields, k) is None,
        forall|i: int| k <= i < fields.len() && fields[i].attrs.xml_ty == FieldType::Untagged && (forall|j: int| k <= j < i
            ==> (#[trigger] fields[j]).attrs.xml_ty != FieldType::Untagged) ==> first_untagged_field(fields, k) == Some(i),
    decreases fields.len() - k,
{
    if k < fields.len() {
        lemma_first_untagged_field(fields, k + 1);
    }
}

/// Decides where a child element goes: the first tag field it matches,
/// else the first untagged field, else nowhere, which is an error unless
/// the struct allows unknown children.
pub fn route_child(fields: &Vec<FieldModel>, ns: &ResolvedNs, name: &[u8], allow_invalid: bool) -> (res: ChildRoute)
    ensures
        match res {
            ChildRoute::Field(i) => i < fields@.len() && child_matches(fields@[i as int], *ns, name@)
                && forall|j: int| 0 <= j < i ==> !child_matches(#[trigger] fields@[j], *ns, name@),
            ChildRoute::Untagged(i) => i < fields@.len() && fields@[i as int].attrs.xml_ty == FieldType::Untagged
                && (forall|j: int| 0 <= j < fields@.len() ==> !child_matches(#[trigger] fields@[j], *ns, name@))
                && forall|j: int| 0 <= j < i ==> (#[trigger] fields@[j]).attrs.xml_ty != FieldType::Untagged,
            ChildRoute::Ignore | ChildRoute::Invalid => (res is Ignore <==> allow_invalid)
                && (forall|j: int| 0 <= j < fields@.len() ==> !child_matches(#[trigger] fields@[j], *ns, name@))
                && forall|j: int| 0 <= j < fields@.len() ==> (#[trigger] fields@[j]).attrs.xml_ty != FieldType::Untagged,
        },
        res == route_child_spec(fields@, *ns, name@, allow_invalid),
{
    proof {
        lemma_first_child_match(fields@, *ns, name@, 0);
        lemma_first_untagged_field(fields@, 0);
    }
    let mut i: usize = 0;
    while i < fields.len()
        invariant
            i <= fields@.len(),
            forall|j: int| 0 <= j < i ==> !child_matches(#[trigger] fields@[j], *ns, name@),
        decreases fields@.len() - i,
    {
        if field_matches(&fields[i], ns, name) {
            proof {
                lemma_first_child_match(fields@, *ns, name@, 0);
                assert(first_child_match(fields@, *ns, name@, 0) == Some(i as int));
            }
            return ChildRoute::Field(i);
        }
        i = i + 1;
    }
    let mut k: usize = 0;
    while k < fields.len()
        invariant
            k <= fields@.len(),
            forall|j: int| 0 <= j < fields@.len() ==> !child_matches(#[trigger] fields@[j], *ns, name@),
            forall|j: int| 0 <= j < k ==> (#[trigger] fields@[j]).attrs.xml_ty != FieldType::Untagged,
        decreases fields@.len() - k,
    {
        if fields[k].attrs.xml_ty == FieldType::Untagged {
            proof {
                lemma_first_child_match(fields@, *ns, name@, 0);
                lemma_first_untagged_field(fields@, 0);
                assert(first_untagged_field(fields@, 0) == Some(k as int));
            }
            return ChildRoute::Untagged(k);
        }
        k = k + 1;
    }
    if allow_invalid {
        ChildRoute::Ignore
    } else {
        ChildRoute::Invalid
    }
}

/// Whether `f` is an attribute field whose XML name is `key`.
pub open spec fn attr_named(f: FieldModel, key: Seq<u8>) -> bool {
    f.attrs.xml_ty == FieldType::Attr && field_name_spec(f) == Some(key)
}

/// Whether `res` is the field an attribute of name `key` is read into: the
/// first attribute field of that name, or none.
pub open spec fn route_attribute_result(fields: Seq<FieldModel>, key: Seq<u8>, res: Option<usize>) -> bool {
    match res {
        Some(i) => i < fields.len() && attr_named(fields[i as int], key)
            && forall|j: int| 0 <= j < i ==> !attr_named(#[trigger] fields[j], key),
        None => forall|j: int| 0 <= j < fields.len() ==> !attr_named(#[trigger] fields[j], key),
    }
}

/// The position of the first attribute field from position `k` on whose
/// XML name is `key`.
pub open spec fn first_attr_named(fields: Seq<FieldModel>, key: Seq<u8>, k: int) -> Option<int>
    decreases fields.len() - k,
{
    if k < 0 || k >= fields.len() {
        None
    } else if attr_named(fields[k], key) {
        Some(k)
    } else {
        first_attr_named(fields, key, k + 1)
    }
}

proof fn lemma_first_attr_named(fields: Seq<FieldModel>, key: Seq<u8>, k: int)
    requires
        0 <= k <= fields.len(),
    ensures
        (forall|j: int| k <= j < fields.len() ==> !attr_named(#[trigger] fields[j], key)) ==> first_attr_named(fields, key, k) is None,
        forall|i: int| k <= i < fields.len() && attr_named(fields[i], key) && (forall|j: int| k <= j < i
            ==> !attr_named(#[trigger] fields[j], key)) ==> first_attr_named(fields, key, k) == Some(i),
    decreases fields.len() - k,
{
    if k < fields.len() {
        lemma_first_attr_named(fields, key, k + 1);
    }
}

/// Decides which field an attribute is read into: the first attribute field
/// whose XML name is the attribute's key; other attributes are ignored.
pub fn route_attribute(fields: &Vec<FieldModel>, key: &[u8]) -> (res: Option<usize>)
    ensures
        route_attribute_result(fields@, key@, res),
        match res {
            Some(i) => first_attr_named(fields@, key@, 0) == Some(i as int),
            None => first_attr_named(fields@, key@, 0) is None,
        },
{
    proof {
        lemma_first_attr_named(fields@, key@, 0);
    }
    let mut i: usize = 0;
    while i < fields.len()
        invariant
            i <= fields@.len(),
            forall|j: int| 0 <= j < i ==> !((#[trigger] fields@[j]).attrs.xml_ty == FieldType::Attr
                && field_name_spec(fields@[j]) == Some(key@)),
        decreases fields@.len() - i,
    {
        let f = &fields[i];
        if f.attrs.xml_ty == FieldType::Attr {
            match field_xml_name(f) {
                Ok(n) => {
                    if crate::text::bytes_eq(n.as_slice(), key) {
                        proof {
                            lemma_first_attr_named(fields@, key@, 0);
                            assert(attr_named(fields@[i as int], key@));
                            assert(first_attr_named(fields@, key@, 0) == Some(i as int));
                        }
                        return Some(i);
                    }
                },
                Err(_) => {},
            }
        }
        i = i + 1;
    }
    None
}

/// The namespace declarations a root element carries: `xmlns` for the
/// empty prefix, `xmlns:` and the prefix otherwise, each with its namespace.
pub open spec fn declaration_name(prefix: Seq<char>) -> Seq<char> {
    if prefix.len() == 0 {
        "xmlns"@
    } else {
        "xmlns:"@ + prefix
    }
}

/// A root element declares each of its namespaces in order, as `xmlns`
/// for the empty prefix and as `xmlns:` and the prefix otherwise.
pub proof fn law_prefix_declarations(prefixes: Seq<(NamespaceOwned, String)>)
    ensures
        prefix_declarations_spec(prefixes).len() == prefixes.len(),
        forall|i: int|
            0 <= i < prefixes.len() ==> (#[trigger] prefix_declarations_spec(prefixes)[i]).1 == prefixes[i].0@,
        forall|i: int|
            0 <= i < prefixes.len() && prefixes[i].1@.len() == 0 ==> (#[trigger] prefix_declarations_spec(prefixes)[i]).0
                == encode_utf8("xmlns"@),
        forall|i: int|
            0 <= i < prefixes.len() && prefixes[i].1@.len() > 0 ==> (#[trigger] prefix_declarations_spec(prefixes)[i]).0
                == encode_utf8("xmlns:"@ + prefixes[i].1@),
{
}

/// The namespace declarations of a root element, one per `(namespace, prefix)`, in order.
pub open spec fn prefix_declarations_spec(prefixes: Seq<(NamespaceOwned, String)>) -> Seq<(Seq<u8>, Seq<u8>)> {
    prefixes.map_values(|p: (NamespaceOwned, String)| (encode_utf8(declaration_name(p.1@)), p.0@))
}

/// The namespace declarations of a root element, one per `(namespace, prefix)`.
pub fn prefix_declarations(prefixes: &Vec<(NamespaceOwned, String)>) -> (res: Vec<(Vec<u8>, Vec<u8>)>)
    ensures
        attrs_view(res@) == prefix_declarations_spec(prefixes@),
{
    let mut out: Vec<(Vec<u8>, Vec<u8>)> = Vec::new();
    let mut i: usize = 0;
    while i < prefixes.len()
        invariant
            i <= prefixes@.len(),
            attrs_view(out@) == prefix_declarations_spec(prefixes@.take(i as int)),
        decreases prefixes@.len() - i,
    {
        let (ns, prefix) = &prefixes[i];
        let name = if prefix.as_str().is_empty() {
            "xmlns".to_owned()
        } else {
            crate::text::concat("xmlns:", prefix.as_str())
        };
        proof {
            reveal_strlit("xmlns");
        }
        assert(name@ == declaration_name(prefix@));
        let key = vstd::slice::slice_to_vec(name.as_str().as_bytes());
        let ghost before = out@;
        out.push((key, ns.duplicate().0));
        assert(prefixes@.take(i + 1) =~= prefixes@.take(i as int).push(prefixes@[i as int]));
        assert(attrs_view(out@) =~= attrs_view(before).push((key@, ns@)));
        assert(prefix_declarations_spec(prefixes@.take(i + 1)) =~= prefix_declarations_spec(prefixes@.take(i as int)).push(
            (encode_utf8(declaration_name(prefix@)), ns@)));
        i = i + 1;
    }
    assert(prefixes@.take(prefixes@.len() as int) =~= prefixes@);
    out
}


/// Whether variant `v` is named by the text `val` among the property names
/// of a tagged enum: it is no catch-all variant and its XML name is `val`.
pub open spec fn names_variant(v: VariantModel, val: Seq<char>) -> bool {
    !v.attrs.other && xml_name_text_spec(v.attrs.rename, v.ident@) == val
}

/// Whether `res` is what reading the property name `val` of the enum `e`
/// gives. A tagged enum takes the first variant that the text names. An
/// untagged enum reads the text with the names of each variant's type in
/// order, `parsed[i]` telling whether the names of the `i`-th variant's
/// type read it, and takes the first variant whose names read it. When no
/// variant is taken the text is no property name.
pub open spec fn prop_name_result(e: EnumModel, val: Seq<char>, parsed: Seq<bool>, res: Result<usize, FromStrError>) -> bool {
    if e.untagged {
        match res {
            Ok(i) => i < e.variants@.len() && i < parsed.len() && parsed[i as int]
                && forall|j: int| 0 <= j < i ==> !#[trigger] parsed[j],
            Err(_) => forall|j: int| 0 <= j < e.variants@.len() && j < parsed.len() ==> !#[trigger] parsed[j],
        }
    } else {
        match res {
            Ok(i) => i < e.variants@.len() && names_variant(e.variants@[i as int], val)
                && forall|j: int| 0 <= j < i ==> !names_variant(#[trigger] e.variants@[j], val),
            Err(_) => forall|j: int| 0 <= j < e.variants@.len() ==> !names_variant(#[trigger] e.variants@[j], val),
        }
    }
}

/// Takes the first position whose entry is `true`, among the first `n`.
pub fn first_success(results: &Vec<bool>, n: usize) -> (res: Option<usize>)
    ensures
        match res {
            Some(i) => i < n && i < results@.len() && results@[i as int] && forall|j: int| 0 <= j < i ==> !#[trigger] results@[j],
            None => forall|j: int| 0 <= j < n && j < results@.len() ==> !#[trigger] results@[j],
        },
{
    let mut i: usize = 0;
    while i < n && i < results.len()
        invariant
            i <= n,
            i <= results@.len(),
            forall|j: int| 0 <= j < i ==> !#[trigger] results@[j],
        decreases n - i,
    {
        if results[i] {
            return Some(i);
        }
        i = i + 1;
    }
    None
}

/// Reads a property name from text, as the `FromStr` of the names that
/// `PropName` derives does: for a tagged enum, the first variant, other
/// than the catch-all one, whose XML name is the text; for an untagged
/// enum, the first variant whose type's names read the text, as `parsed`
/// tells (one entry per variant; it is not looked at for a tagged enum).
pub fn prop_name_from_str(e: &EnumModel, val: &str, parsed: &Vec<bool>) -> (res: Result<usize, FromStrError>)
    ensures
        prop_name_result(*e, val@, parsed@, res),
{
    if e.untagged {
        return match first_success(parsed, e.variants.len()) {
            Some(i) => Ok(i),
            None => Err(FromStrError),
        };
    }
    let mut i: usize = 0;
    while i < e.variants.len()
        invariant
            !e.untagged,
            i <= e.variants@.len(),
            forall|j: int| 0 <= j < i ==> !names_variant(#[trigger] e.variants@[j], val@),
        decreases e.variants@.len() - i,
    {
        let v = &e.variants[i];
        if !v.attrs.other {
            let name = variant_xml_name_text(v);
            if str_eq(name.as_str(), val) {
                return Ok(i);
            }
        }
        i = i + 1;
    }
    Err(FromStrError)
}

/// The view of an optional property name output.
pub open spec fn name_output_view(o: Option<(Option<NamespaceOwned>, String)>) -> Option<(Option<Seq<u8>>, Seq<char>)> {
    match o {
        Some(p) => Some((ns_view(p.0), p.1@)),
        None => None,
    }
}

/// The property name (namespace and name) of variant `i` of an enum, as the
/// conversion of its property-names type into `(Option<Namespace>, &str)`
/// gives it: for a tagged enum, the variant's namespace and XML name as
/// text (the catch-all variant has no property name); for an untagged
/// enum, `inner`, the property name that the variant's type gives.
pub open spec fn prop_name_output_spec(e: EnumModel, i: int, inner: Option<(Option<Seq<u8>>, Seq<char>)>) -> Option<(Option<Seq<u8>>, Seq<char>)> {
    if i < 0 || i >= e.variants@.len() {
        None
    } else if e.untagged {
        inner
    } else if e.variants@[i].attrs.other {
        None
    } else {
        Some((ns_view(e.variants@[i].attrs.ns), xml_name_text_spec(e.variants@[i].attrs.rename, e.variants@[i].ident@)))
    }
}

/// The property name of variant `i` of an enum (see `prop_name_output_spec`).
pub fn prop_name_output(e: &EnumModel, i: usize, inner: Option<(Option<NamespaceOwned>, String)>) -> (res: Option<(Option<NamespaceOwned>, String)>)
    ensures
        name_output_view(res) == prop_name_output_spec(*e, i as int, name_output_view(inner)),
{
    if i >= e.variants.len() {
        None
    } else if e.untagged {
        inner
    } else if e.variants[i].attrs.other {
        None
    } else {
        let v = &e.variants[i];
        let ns = match &v.attrs.ns {
            Some(n) => Some(n.duplicate()),
            None => None,
        };
        Some((ns, variant_xml_name_text(v)))
    }
}

/// The property names of an untagged enum are those of its variants'
/// types: when the names of variant `k`'s type read a text and the names
/// of no earlier variant's type do, reading the text gives variant `k`.
pub proof fn law_untagged_prop_name(e: EnumModel, k: int, val: Seq<char>, parsed: Seq<bool>, res: Result<usize, FromStrError>)
    requires
        e.untagged,
        0 <= k < e.variants@.len(),
        k < parsed.len(),
        parsed[k],
        forall|j: int| 0 <= j < k ==> !#[trigger] parsed[j],
        prop_name_result(e, val, parsed, res),
    ensures
        res == Ok::<usize, FromStrError>(k as usize),
{
    match res {
        Ok(i) => {
            if (i as int) < k {
                assert(!parsed[i as int]);
            }
        },
        Err(_) => {
            assert(!parsed[k]);
        },
    }
}

/// A tagged enum reads exactly the property names of its variants: a text
/// is read when, and only when, it is the XML name of a variant other than
/// the catch-all one.
pub proof fn law_prop_name_accepts_names(e: EnumModel, val: Seq<char>, parsed: Seq<bool>, res: Result<usize, FromStrError>)
    requires
        !e.untagged,
        prop_name_result(e, val, parsed, res),
    ensures
        res is Ok <==> exists|k: int| 0 <= k < e.variants@.len() && names_variant(#[trigger] e.variants@[k], val),
{
    match res {
        Ok(i) => {
            assert(names_variant(e.variants@[i as int], val));
        },
        Err(_) => {},
    }
}

/// The property names of a tagged enum read back: when the variants other
/// than the catch-all one have distinct XML names, reading the property
/// name that such a variant gives yields that variant.
pub proof fn law_prop_name_output_roundtrip(
    e: EnumModel,
    k: int,
    name: (Option<Seq<u8>>, Seq<char>),
    parsed: Seq<bool>,
    res: Result<usize, FromStrError>,
)
    requires
        !e.untagged,
        forall|i: int, j: int|
            #![trigger e.variants@[i], e.variants@[j]]
            0 <= i < e.variants@.len() && 0 <= j < e.variants@.len() && i != j && !e.variants@[i].attrs.other
                && !e.variants@[j].attrs.other ==> xml_name_text_spec(e.variants@[i].attrs.rename, e.variants@[i].ident@)
                != xml_name_text_spec(e.variants@[j].attrs.rename, e.variants@[j].ident@),
        prop_name_output_spec(e, k, None) == Some(name),
        prop_name_result(e, name.1, parsed, res),
    ensures
        res == Ok::<usize, FromStrError>(k as usize),
{
    law_prop_name_roundtrip(e, k, parsed, res);
}

/// The property names of a tagged enum read back: when the variants other
/// than the catch-all one have distinct XML names, reading the XML name of
/// such a variant gives that variant.
pub proof fn law_prop_name_roundtrip(e: EnumModel, k: int, parsed: Seq<bool>, res: Result<usize, FromStrError>)
    requires
        !e.untagged,
        0 <= k < e.variants@.len(),
        !e.variants@[k].attrs.other,
        forall|i: int, j: int|
            #![trigger e.variants@[i], e.variants@[j]]
            0 <= i < e.variants@.len() && 0 <= j < e.variants@.len() && i != j && !e.variants@[i].attrs.other
                && !e.variants@[j].attrs.other ==> xml_name_text_spec(e.variants@[i].attrs.rename, e.variants@[i].ident@)
                != xml_name_text_spec(e.variants@[j].attrs.rename, e.variants@[j].ident@),
        prop_name_result(e, xml_name_text_spec(e.variants@[k].attrs.rename, e.variants@[k].ident@), parsed, res),
    ensures
        res == Ok::<usize, FromStrError>(k as usize),
{
    let val = xml_name_text_spec(e.variants@[k].attrs.rename, e.variants@[k].ident@);
    assert(names_variant(e.variants@[k], val));
    match res {
        Ok(i) => {
            assert(names_variant(e.variants@[i as int], val));
            assert(i as int == k);
        },
        Err(_) => {
            assert(!names_variant(e.variants@[k], val));
        },
    }
}


/// The tag a variant's value is written under: the variant's XML name in a
/// tagged enum, none (the value is written bare) in an untagged enum.
pub fn variant_write_tag(enum_untagged: bool, v: &VariantModel) -> (res: Option<Vec<u8>>)
    ensures
        enum_untagged ==> res is None,
        !enum_untagged ==> (res matches Some(t) && t@ == xml_name_spec(v.attrs.rename, v.ident@)),
{
    if enum_untagged {
        None
    } else {
        Some(variant_xml_name(v))
    }
}


/// An event met inside an element that is read as a struct.
#[derive(Debug)]
pub enum ContentEvent {
    /// The end tag of the struct's element.
    End,
    /// The end of the input.
    Eof,
    /// A child element starts (an empty one when `empty`).
    Child { ns: ResolvedNs, name: Vec<u8>, empty: bool },
    /// Decoded character data.
    Text(String),
    /// The content of a CDATA section.
    CData(String),
    /// A character reference, resolved to its character.
    CharRef(char),
    /// An entity reference, by its name.
    EntityRef(String),
    /// A declaration, comment, document type or processing instruction.
    Ignored,
}

/// What reading a struct does after an event.
#[derive(Debug)]
pub enum ContentStep {
    /// Read the next event.
    Continue,
    /// The element is closed.
    Done,
    /// Read the child element as the route says.
    ReadChild { route: ChildRoute, empty: bool },
    /// Fail with this error.
    Fail(XmlError),
}

/// Takes one event of a struct's content: the end tag ends it, the end of
/// input fails, a child element is routed to its field, text is gathered
/// into `text` (for the struct's text fields), and declarations, comments,
/// document types and processing instructions are ignored.
pub fn struct_content_step(fields: &Vec<FieldModel>, allow_invalid: bool, text: &mut String, event: &ContentEvent) -> (res: ContentStep)
    ensures
        match *event {
            ContentEvent::End => res is Done && final(text)@ == old(text)@,
            ContentEvent::Eof => res == ContentStep::Fail(XmlError::Eof) && final(text)@ == old(text)@,
            ContentEvent::Ignored => res is Continue && final(text)@ == old(text)@,
            ContentEvent::Child { ns, name, empty } => final(text)@ == old(text)@ && (res matches ContentStep::ReadChild { route, empty: e }
                && e == empty && route == route_child_spec(fields@, ns, name@, allow_invalid) && match route {
                ChildRoute::Field(i) => i < fields@.len() && child_matches(fields@[i as int], ns, name@)
                    && forall|j: int| 0 <= j < i ==> !child_matches(#[trigger] fields@[j], ns, name@),
                ChildRoute::Untagged(i) => i < fields@.len() && fields@[i as int].attrs.xml_ty == FieldType::Untagged
                    && (forall|j: int| 0 <= j < fields@.len() ==> !child_matches(#[trigger] fields@[j], ns, name@))
                    && forall|j: int| 0 <= j < i ==> (#[trigger] fields@[j]).attrs.xml_ty != FieldType::Untagged,
                ChildRoute::Ignore | ChildRoute::Invalid => (route is Ignore <==> allow_invalid)
                    && (forall|j: int| 0 <= j < fields@.len() ==> !child_matches(#[trigger] fields@[j], ns, name@))
                    && forall|j: int| 0 <= j < fields@.len() ==> (#[trigger] fields@[j]).attrs.xml_ty != FieldType::Untagged,
            }),
            ContentEvent::Text(t) => res is Continue && final(text)@ == old(text)@ + t@,
            ContentEvent::CData(t) => res is Continue && final(text)@ == old(text)@ + t@,
            ContentEvent::CharRef(c) => res is Continue && final(text)@ == old(text)@.push(c),
            ContentEvent::EntityRef(n) => match xml_entity_spec(n@) {
                Some(t) => res is Continue && final(text)@ == old(text)@ + t,
                None => res == ContentStep::Fail(XmlError::UnsupportedEvent("invalid XML ref"))
                    && final(text)@ == old(text)@,
            },
        },
{
    match event {
        ContentEvent::End => ContentStep::Done,
        ContentEvent::Eof => ContentStep::Fail(XmlError::Eof),
        ContentEvent::Ignored => ContentStep::Continue,
        ContentEvent::Child { ns, name, empty } => {
            let route = route_child(fields, ns, name.as_slice(), allow_invalid);
            ContentStep::ReadChild { route, empty: *empty }
        },
        ContentEvent::Text(t) => gather(text, TextEvent::Text(t.clone())),
        ContentEvent::CData(t) => gather(text, TextEvent::CData(t.clone())),
        ContentEvent::CharRef(c) => gather(text, TextEvent::CharRef(*c)),
        ContentEvent::EntityRef(n) => gather(text, TextEvent::EntityRef(n.clone())),
    }
}

fn gather(text: &mut String, ev: TextEvent) -> (res: ContentStep)
    requires
        ev is Text || ev is CData || ev is CharRef || ev is EntityRef,
    ensures
        match ev {
            TextEvent::Text(t) => res is Continue && final(text)@ == old(text)@ + t@,
            TextEvent::CData(t) => res is Continue && final(text)@ == old(text)@ + t@,
            TextEvent::CharRef(c) => res is Continue && final(text)@ == old(text)@.push(c),
            TextEvent::EntityRef(n) => match xml_entity_spec(n@) {
                Some(t) => res is Continue && final(text)@ == old(text)@ + t,
                None => res == ContentStep::Fail(XmlError::UnsupportedEvent("invalid XML ref"))
                    && final(text)@ == old(text)@,
            },
            _ => false,
        },
{
    match text_step(text, &ev) {
        TextStep::Continue => ContentStep::Continue,
        TextStep::Done => ContentStep::Done,
        TextStep::Fail(e) => ContentStep::Fail(e),
    }
}

} // verus!
