//! Writing a struct that derives `XmlSerialize`: the name and namespace of
//! its element (which its tag-name and namespace fields override), the
//! attributes of its start tag, whether the element is written empty, and
//! the fields written as its content, in order.

use crate::xml::namespace::{ns_view, NamespaceOwned};
use crate::xml::write::{
    attrs_view, declaration_spec, element_name, opt_ns, opt_str, qname_spec, struct_end_event, struct_start_event, xmlns_spec,
    prefix_map, NamespacePrefixes, WriteEvent,
};
use crate::xml_derive::{
    attr_named, field_name_spec, field_xml_name, prefix_declarations, route_attribute_result, prefix_declarations_spec, tag_writer, tag_writer_spec,
    DeriveError, FieldModel, FieldType, TagWriter,
};
use vstd::prelude::*;
use vstd::utf8::encode_utf8;

verus! {

/// What the value of a struct field gives the writer of its struct.
#[derive(Debug)]
pub struct FieldValue {
    /// Its text: what `ValueSerialize::serialize` writes for an attribute
    /// field, what `to_string` gives for the tag-name field.
    pub text: String,
    /// The namespace the namespace field holds.
    pub ns: Option<NamespaceOwned>,
    /// The attributes the value adds to its parent's start tag
    /// (`XmlSerialize::attributes`), for an untagged field.
    pub attributes: Option<Vec<(Vec<u8>, Vec<u8>)>>,
}

/// What a plain text value gives the writer of the struct holding it: its
/// text, no namespace, and no attributes for the struct's start tag.
pub fn plain_value(text: String) -> (res: FieldValue)
    ensures
        res.text == text,
        res.ns is None,
        res.attributes is None,
{
    FieldValue { text, ns: None, attributes: None }
}

/// A field of a struct value: its model and what its value gives.
#[derive(Debug)]
pub struct StructField {
    pub model: FieldModel,
    pub value: FieldValue,
}

/// Whether a field is written as content of the struct's element.
pub open spec fn writes_content(f: FieldModel) -> bool {
    tag_writer_spec(f) != TagWriter::Nothing
}

/// Whether the struct's element is written empty: no field writes content.
pub open spec fn is_empty_spec(fields: Seq<StructField>) -> bool {
    forall|i: int| 0 <= i < fields.len() ==> !writes_content(#[trigger] fields[i].model)
}

/// An attribute field without a name: the derive rejects it.
pub open spec fn unnamed_attr(f: FieldModel) -> bool {
    f.attrs.xml_ty == FieldType::Attr && field_name_spec(f) is None
}

/// A tag field without a name: the derive rejects it.
pub open spec fn unnamed_tag(f: FieldModel) -> bool {
    f.attrs.xml_ty == FieldType::Tag && field_name_spec(f) is None
}

/// The attribute a field gives its struct's start tag: an attribute field
/// gives its XML name with the UTF-8 bytes of its value's text.
pub open spec fn field_attribute(f: StructField) -> Seq<(Seq<u8>, Seq<u8>)> {
    if f.model.attrs.xml_ty == FieldType::Attr {
        match field_name_spec(f.model) {
            Some(n) => seq![(n, encode_utf8(f.value.text@))],
            None => Seq::empty(),
        }
    } else {
        Seq::empty()
    }
}

/// The struct's own attributes (`XmlSerialize::attributes`): those of its
/// attribute fields, in order.
pub open spec fn attributes_spec(fields: Seq<StructField>) -> Seq<(Seq<u8>, Seq<u8>)>
    decreases fields.len(),
{
    if fields.len() == 0 {
        Seq::empty()
    } else {
        attributes_spec(fields.drop_last()) + field_attribute(fields.last())
    }
}

/// The attributes an untagged field passes up: those its value gives,
/// unless the field is flattened.
pub open spec fn field_untagged_attributes(f: StructField) -> Seq<(Seq<u8>, Seq<u8>)> {
    if f.model.attrs.xml_ty == FieldType::Untagged && !f.model.attrs.flatten {
        match f.value.attributes {
            Some(a) => attrs_view(a@),
            None => Seq::empty(),
        }
    } else {
        Seq::empty()
    }
}

/// The attributes the untagged fields pass up, in order.
pub open spec fn untagged_attributes_spec(fields: Seq<StructField>) -> Seq<(Seq<u8>, Seq<u8>)>
    decreases fields.len(),
{
    if fields.len() == 0 {
        Seq::empty()
    } else {
        untagged_attributes_spec(fields.drop_last()) + field_untagged_attributes(fields.last())
    }
}

/// The position of the first field of kind `k` from position `start` on.
pub open spec fn first_of_kind(fields: Seq<StructField>, k: FieldType, start: int) -> Option<int>
    decreases fields.len() - start,
{
    if start < 0 || start >= fields.len() {
        None
    } else if fields[start].model.attrs.xml_ty == k {
        Some(start)
    } else {
        first_of_kind(fields, k, start + 1)
    }
}

/// The local name the element is written with: the one asked for, else
/// the text of the tag-name field when the struct has one.
pub open spec fn effective_tag(tag: Option<Seq<char>>, fields: Seq<StructField>) -> Option<Seq<char>> {
    match first_of_kind(fields, FieldType::TagName, 0) {
        Some(i) => Some(
            match tag {
                Some(t) => t,
                None => fields[i].value.text@,
            },
        ),
        None => tag,
    }
}

/// The namespace the element is written in: that of the namespace field
/// when the struct has one, else the one asked for.
pub open spec fn effective_ns(ns: Option<Seq<u8>>, fields: Seq<StructField>) -> Option<Seq<u8>> {
    match first_of_kind(fields, FieldType::Namespace, 0) {
        Some(i) => ns_view(fields[i].value.ns),
        None => ns,
    }
}

proof fn lemma_first_of_kind_first(fields: Seq<StructField>, k: FieldType, s: int, i: int)
    requires
        0 <= s <= i < fields.len(),
        fields[i].model.attrs.xml_ty == k,
        forall|j: int| s <= j < i ==> (#[trigger] fields[j]).model.attrs.xml_ty != k,
    ensures
        first_of_kind(fields, k, s) == Some(i),
    decreases i - s,
{
    if s < i {
        lemma_first_of_kind_first(fields, k, s + 1, i);
    }
}

proof fn lemma_first_of_kind_none(fields: Seq<StructField>, k: FieldType, s: int)
    requires
        0 <= s,
        forall|j: int| s <= j < fields.len() ==> (#[trigger] fields[j]).model.attrs.xml_ty != k,
    ensures
        first_of_kind(fields, k, s) is None,
    decreases fields.len() - s,
{
    if s < fields.len() {
        lemma_first_of_kind_none(fields, k, s + 1);
    }
}

/// The namespace a struct is written in: with a namespace field, exactly
/// the namespace the first such field holds (no namespace when it holds
/// none), whatever namespace was asked for; without one, the namespace
/// asked for.
pub proof fn law_struct_namespace(ns: Option<Seq<u8>>, fields: Seq<StructField>)
    ensures
        forall|i: int|
            0 <= i < fields.len() && (#[trigger] fields[i]).model.attrs.xml_ty == FieldType::Namespace && (forall|j: int|
                0 <= j < i ==> (#[trigger] fields[j]).model.attrs.xml_ty != FieldType::Namespace)
                ==> effective_ns(ns, fields) == ns_view(fields[i].value.ns),
        (forall|j: int| 0 <= j < fields.len() ==> (#[trigger] fields[j]).model.attrs.xml_ty != FieldType::Namespace)
            ==> effective_ns(ns, fields) == ns,
{
    assert forall|i: int|
        0 <= i < fields.len() && (#[trigger] fields[i]).model.attrs.xml_ty == FieldType::Namespace && (forall|j: int|
            0 <= j < i ==> (#[trigger] fields[j]).model.attrs.xml_ty != FieldType::Namespace)
        implies effective_ns(ns, fields) == ns_view(fields[i].value.ns) by {
        lemma_first_of_kind_first(fields, FieldType::Namespace, 0, i);
    }
    if forall|j: int| 0 <= j < fields.len() ==> (#[trigger] fields[j]).model.attrs.xml_ty != FieldType::Namespace {
        lemma_first_of_kind_none(fields, FieldType::Namespace, 0);
    }
}

/// The name a struct is written with: the tag asked for when there is one;
/// else the text of the first tag-name field when the struct has one; else
/// none (the struct is written without an element of its own).
pub proof fn law_struct_tag(tag: Option<Seq<char>>, fields: Seq<StructField>)
    ensures
        tag matches Some(t) ==> (forall|i: int| 0 <= i < fields.len() && (#[trigger] fields[i]).model.attrs.xml_ty
            == FieldType::TagName ==> effective_tag(tag, fields) == Some(t)),
        tag is None ==> forall|i: int|
            0 <= i < fields.len() && (#[trigger] fields[i]).model.attrs.xml_ty == FieldType::TagName && (forall|j: int|
                0 <= j < i ==> (#[trigger] fields[j]).model.attrs.xml_ty != FieldType::TagName)
                ==> effective_tag(tag, fields) == Some(fields[i].value.text@),
        (forall|j: int| 0 <= j < fields.len() ==> (#[trigger] fields[j]).model.attrs.xml_ty != FieldType::TagName)
            ==> effective_tag(tag, fields) == tag,
{
    assert forall|i: int| 0 <= i < fields.len() && (#[trigger] fields[i]).model.attrs.xml_ty == FieldType::TagName
        implies first_of_kind(fields, FieldType::TagName, 0) is Some by {
        if first_of_kind(fields, FieldType::TagName, 0) is None {
            lemma_first_of_kind_none_back(fields, FieldType::TagName, 0, i);
        }
    }
    assert forall|i: int|
        0 <= i < fields.len() && (#[trigger] fields[i]).model.attrs.xml_ty == FieldType::TagName && (forall|j: int|
            0 <= j < i ==> (#[trigger] fields[j]).model.attrs.xml_ty != FieldType::TagName)
        implies first_of_kind(fields, FieldType::TagName, 0) == Some(i) by {
        lemma_first_of_kind_first(fields, FieldType::TagName, 0, i);
    }
    if forall|j: int| 0 <= j < fields.len() ==> (#[trigger] fields[j]).model.attrs.xml_ty != FieldType::TagName {
        lemma_first_of_kind_none(fields, FieldType::TagName, 0);
    }
}

proof fn lemma_first_of_kind_none_back(fields: Seq<StructField>, k: FieldType, s: int, i: int)
    requires
        0 <= s <= i < fields.len(),
        fields[i].model.attrs.xml_ty == k,
    ensures
        first_of_kind(fields, k, s) is Some,
    decreases i - s,
{
    if s < i && fields[s].model.attrs.xml_ty != k {
        lemma_first_of_kind_none_back(fields, k, s + 1, i);
    }
}

/// What each field puts on its struct's start tag: an attribute field with
/// a name puts its name and the UTF-8 bytes of its value's text; a
/// non-flattened untagged field puts the attributes its value gives; a
/// flattened untagged field and every other field put nothing. The element
/// is written empty exactly when no field is a text, tag or untagged field.
pub proof fn law_start_tag_fields(f: StructField, fields: Seq<StructField>)
    ensures
        f.model.attrs.xml_ty == FieldType::Attr ==> (field_name_spec(f.model) matches Some(n) ==> field_attribute(f) == seq![
            (n, encode_utf8(f.value.text@)),
        ]),
        f.model.attrs.xml_ty != FieldType::Attr ==> field_attribute(f).len() == 0,
        f.model.attrs.xml_ty == FieldType::Untagged && !f.model.attrs.flatten ==> (f.value.attributes matches Some(a)
            ==> field_untagged_attributes(f) == attrs_view(a@)),
        !(f.model.attrs.xml_ty == FieldType::Untagged && !f.model.attrs.flatten) ==> field_untagged_attributes(f).len() == 0,
        is_empty_spec(fields) <==> forall|i: int|
            0 <= i < fields.len() ==> (#[trigger] fields[i]).model.attrs.xml_ty != FieldType::Text
                && fields[i].model.attrs.xml_ty != FieldType::Tag && fields[i].model.attrs.xml_ty != FieldType::Untagged,
{
}

/// The positions of the fields written as content, in order.
pub open spec fn written_fields(fields: Seq<StructField>) -> Seq<int>
    decreases fields.len(),
{
    if fields.len() == 0 {
        Seq::empty()
    } else if writes_content(fields.last().model) {
        written_fields(fields.drop_last()).push(fields.len() - 1)
    } else {
        written_fields(fields.drop_last())
    }
}

/// How one field is written as content.
#[derive(Debug)]
pub struct FieldWrite {
    /// The field's position.
    pub field: usize,
    /// How it is written.
    pub how: TagWriter,
    /// The element name of a tag field.
    pub name: Option<Vec<u8>>,
    /// The namespace of a tag field's element.
    pub ns: Option<NamespaceOwned>,
    /// The path of the function that writes a tag or untagged field, when
    /// it is not `XmlSerialize::serialize`.
    pub serialize_with: Option<String>,
}

/// Whether `w` writes field `f` as the derive does: by its tag writer; a tag
/// field under its XML name in its namespace; a text field as text, not by
/// a serializer.
pub open spec fn field_write_spec(w: FieldWrite, f: FieldModel) -> bool {
    &&& w.how == tag_writer_spec(f)
    &&& if f.attrs.xml_ty == FieldType::Tag {
        &&& w.name matches Some(n) && field_name_spec(f) == Some(n@)
        &&& ns_view(w.ns) == ns_view(f.attrs.ns)
    } else {
        w.name is None && w.ns is None
    }
    &&& if f.attrs.xml_ty == FieldType::Text {
        w.serialize_with is None
    } else {
        w.serialize_with == f.attrs.serialize_with
    }
}

/// Whether `ws` writes the content of the struct: the fields that write
/// content, in order, each as the derive writes it.
pub open spec fn content_spec(ws: Seq<FieldWrite>, fields: Seq<StructField>) -> bool {
    &&& ws.len() == written_fields(fields).len()
    &&& forall|k: int| 0 <= k < ws.len() ==> {
        &&& (#[trigger] ws[k]).field == written_fields(fields)[k]
        &&& field_write_spec(ws[k], fields[written_fields(fields)[k]].model)
    }
}

proof fn lemma_written_fields_bound(fields: Seq<StructField>)
    ensures
        forall|k: int| 0 <= k < written_fields(fields).len() ==> 0 <= #[trigger] written_fields(fields)[k] < fields.len(),
    decreases fields.len(),
{
    if fields.len() > 0 {
        let rest = fields.drop_last();
        lemma_written_fields_bound(rest);
        let w = written_fields(rest);
        assert forall|k: int| 0 <= k < written_fields(fields).len() implies 0 <= #[trigger] written_fields(fields)[k]
            < fields.len() by {
            if k < w.len() {
                assert(written_fields(fields)[k] == w[k]);
            }
        }
    }
}

proof fn lemma_first_of_kind_found(fields: Seq<StructField>, k: FieldType, s: int)
    ensures
        first_of_kind(fields, k, s) matches Some(i) ==> s <= i < fields.len() && fields[i].model.attrs.xml_ty == k,
    decreases fields.len() - s,
{
    if 0 <= s < fields.len() && fields[s].model.attrs.xml_ty != k {
        lemma_first_of_kind_found(fields, k, s + 1);
    }
}

proof fn lemma_first_of_kind_skip(fields: Seq<StructField>, k: FieldType, i: int)
    requires
        0 <= i < fields.len(),
        fields[i].model.attrs.xml_ty != k,
    ensures
        first_of_kind(fields, k, i) == first_of_kind(fields, k, i + 1),
{
}

/// Finds the first field of kind `k`.
fn find_kind(fields: &Vec<StructField>, k: FieldType) -> (res: Option<usize>)
    ensures
        match res {
            Some(i) => first_of_kind(fields@, k, 0) == Some(i as int) && i < fields@.len(),
            None => first_of_kind(fields@, k, 0) is None,
        },
{
    proof {
        lemma_first_of_kind_found(fields@, k, 0);
    }
    let mut i: usize = 0;
    while i < fields.len()
        invariant
            i <= fields@.len(),
            first_of_kind(fields@, k, 0) == first_of_kind(fields@, k, i as int),
        decreases fields@.len() - i,
    {
        if fields[i].model.attrs.xml_ty == k {
            return Some(i);
        }
        proof {
            lemma_first_of_kind_skip(fields@, k, i as int);
        }
        i = i + 1;
    }
    None
}

/// Whether the struct writes content, as decided when it derives
/// `XmlSerialize`: it does when one of its fields is a text, tag or
/// untagged field.
pub fn struct_writes_content(fields: &Vec<StructField>) -> (res: bool)
    ensures
        res == !is_empty_spec(fields@),
{
    let mut i: usize = 0;
    while i < fields.len()
        invariant
            i <= fields@.len(),
            forall|j: int| 0 <= j < i ==> !writes_content(#[trigger] fields@[j].model),
        decreases fields@.len() - i,
    {
        let how = tag_writer(&fields[i].model);
        if how != TagWriter::Nothing {
            assert(writes_content(fields@[i as int].model));
            assert(!is_empty_spec(fields@));
            return true;
        }
        i = i + 1;
    }
    false
}

/// The struct's own attributes, as its `XmlSerialize::attributes` gives
/// them: each attribute field by its XML name, with the text of its value.
/// An attribute field without a name is rejected.
pub fn struct_attributes(fields: &Vec<StructField>) -> (res: Result<Vec<(Vec<u8>, Vec<u8>)>, DeriveError>)
    ensures
        match res {
            Ok(a) => (forall|i: int| 0 <= i < fields@.len() ==> !unnamed_attr(#[trigger] fields@[i].model))
                && attrs_view(a@) == attributes_spec(fields@),
            Err(e) => e == DeriveError::UnnamedTagField && exists|i: int|
                0 <= i < fields@.len() && unnamed_attr(#[trigger] fields@[i].model),
        },
{
    let mut out: Vec<(Vec<u8>, Vec<u8>)> = Vec::new();
    let mut i: usize = 0;
    while i < fields.len()
        invariant
            i <= fields@.len(),
            forall|j: int| 0 <= j < i ==> !unnamed_attr(#[trigger] fields@[j].model),
            attrs_view(out@) == attributes_spec(fields@.take(i as int)),
        decreases fields@.len() - i,
    {
        let f = &fields[i];
        let ghost before = out@;
        assert(fields@.take(i + 1).drop_last() =~= fields@.take(i as int));
        assert(fields@.take(i + 1).last() == fields@[i as int]);
        if f.model.attrs.xml_ty == FieldType::Attr {
            match field_xml_name(&f.model) {
                Ok(name) => {
                    let value = vstd::slice::slice_to_vec(f.value.text.as_str().as_bytes());
                    out.push((name, value));
                    assert(attrs_view(out@) =~= attrs_view(before) + field_attribute(fields@[i as int]));
                },
                Err(e) => {
                    assert(unnamed_attr(fields@[i as int].model));
                    return Err(e);
                },
            }
        } else {
            assert(attrs_view(out@) =~= attrs_view(before) + field_attribute(fields@[i as int]));
        }
        i = i + 1;
    }
    assert(fields@.take(fields@.len() as int) =~= fields@);
    Ok(out)
}

fn copy_attributes(a: &Vec<(Vec<u8>, Vec<u8>)>) -> (res: Vec<(Vec<u8>, Vec<u8>)>)
    ensures
        attrs_view(res@) == attrs_view(a@),
{
    let mut out: Vec<(Vec<u8>, Vec<u8>)> = Vec::new();
    let mut i: usize = 0;
    while i < a.len()
        invariant
            i <= a@.len(),
            attrs_view(out@) == attrs_view(a@.take(i as int)),
        decreases a@.len() - i,
    {
        let ghost before = out@;
        let k = a[i].0.clone();
        let v = a[i].1.clone();
        assert(k@ == a@[i as int].0@ && v@ == a@[i as int].1@);
        out.push((k, v));
        assert(a@.take(i + 1) =~= a@.take(i as int).push(a@[i as int]));
        assert(attrs_view(out@) =~= attrs_view(before).push((k@, v@)));
        assert(attrs_view(a@.take(i + 1)) =~= attrs_view(a@.take(i as int)).push((k@, v@)));
        i = i + 1;
    }
    assert(a@.take(a@.len() as int) =~= a@);
    out
}

/// The attributes that the untagged fields pass up to the start tag: those
/// each non-flattened untagged field's value gives, in order.
pub fn untagged_attributes(fields: &Vec<StructField>) -> (res: Vec<(Vec<u8>, Vec<u8>)>)
    ensures
        attrs_view(res@) == untagged_attributes_spec(fields@),
{
    let mut out: Vec<(Vec<u8>, Vec<u8>)> = Vec::new();
    let mut i: usize = 0;
    while i < fields.len()
        invariant
            i <= fields@.len(),
            attrs_view(out@) == untagged_attributes_spec(fields@.take(i as int)),
        decreases fields@.len() - i,
    {
        let f = &fields[i];
        let ghost before = out@;
        assert(fields@.take(i + 1).drop_last() =~= fields@.take(i as int));
        assert(fields@.take(i + 1).last() == fields@[i as int]);
        if f.model.attrs.xml_ty == FieldType::Untagged && !f.model.attrs.flatten {
            match &f.value.attributes {
                Some(a) => {
                    let mut more = copy_attributes(a);
                    let ghost m = more@;
                    out.append(&mut more);
                    assert(attrs_view(out@) =~= attrs_view(before) + attrs_view(m));
                },
                None => {
                    assert(attrs_view(out@) =~= attrs_view(before) + field_untagged_attributes(fields@[i as int]));
                },
            }
        } else {
            assert(attrs_view(out@) =~= attrs_view(before) + field_untagged_attributes(fields@[i as int]));
        }
        i = i + 1;
    }
    assert(fields@.take(fields@.len() as int) =~= fields@);
    out
}

/// The fields written as the struct's content, in order, each with how it
/// is written; a tag field without a name is rejected.
pub fn struct_content(fields: &Vec<StructField>) -> (res: Result<Vec<FieldWrite>, DeriveError>)
    ensures
        match res {
            Ok(ws) => (forall|i: int| 0 <= i < fields@.len() ==> !unnamed_tag(#[trigger] fields@[i].model))
                && content_spec(ws@, fields@),
            Err(e) => e == DeriveError::UnnamedTagField && exists|i: int|
                0 <= i < fields@.len() && unnamed_tag(#[trigger] fields@[i].model),
        },
{
    let mut out: Vec<FieldWrite> = Vec::new();
    let mut i: usize = 0;
    while i < fields.len()
        invariant
            i <= fields@.len(),
            forall|j: int| 0 <= j < i ==> !unnamed_tag(#[trigger] fields@[j].model),
            content_spec(out@, fields@.take(i as int)),
        decreases fields@.len() - i,
    {
        let f = &fields[i].model;
        let ghost pre = fields@.take(i as int);
        let ghost post = fields@.take(i + 1);
        assert(post.drop_last() =~= pre);
        assert(post.last() == fields@[i as int]);
        proof {
            lemma_written_fields_bound(pre);
        }
        assert forall|k: int| 0 <= k < written_fields(pre).len() implies #[trigger] post[written_fields(pre)[k]]
            == pre[written_fields(pre)[k]] by {}
        let how = tag_writer(f);
        if how != TagWriter::Nothing {
            let (name, ns) = if f.attrs.xml_ty == FieldType::Tag {
                match field_xml_name(f) {
                    Ok(n) => {
                        let ns = match &f.attrs.ns {
                            Some(x) => Some(x.duplicate()),
                            None => None,
                        };
                        (Some(n), ns)
                    },
                    Err(e) => {
                        assert(unnamed_tag(fields@[i as int].model));
                        return Err(e);
                    },
                }
            } else {
                (None, None)
            };
            let serialize_with = if f.attrs.xml_ty == FieldType::Text {
                None
            } else {
                f.attrs.serialize_with.clone()
            };
            out.push(FieldWrite { field: i, how, name, ns, serialize_with });
            assert(written_fields(post) == written_fields(pre).push(i as int));
        } else {
            assert(written_fields(post) == written_fields(pre));
        }
        i = i + 1;
    }
    assert(fields@.take(fields@.len() as int) =~= fields@);
    Ok(out)
}

/// What writing a struct value gives: the start event, the fields written
/// as content, and the end event.
#[derive(Debug)]
pub struct StructWrite {
    pub start: Option<WriteEvent>,
    pub content: Vec<FieldWrite>,
    pub end: Option<WriteEvent>,
}

/// The root namespace declarations, when the struct is a document root.
pub open spec fn root_declarations(root_prefixes: Option<&Vec<(NamespaceOwned, String)>>) -> Seq<(Seq<u8>, Seq<u8>)> {
    match root_prefixes {
        Some(p) => prefix_declarations_spec(p@),
        None => Seq::empty(),
    }
}

/// Whether `w` is what writing the struct `fields` as element `tag` in
/// namespace `ns` gives, as `XmlSerialize::serialize` of the derive writes
/// it: the tag-name and namespace fields override the name and namespace;
/// an element with a name starts with a start tag (an empty element when
/// no field writes content) carrying the namespace declaration when the
/// namespace has no prefix, the root's namespace declarations, the struct's
/// attributes and those its untagged fields pass up, in that order; the
/// content fields follow, and an end tag closes an element with content.
pub open spec fn struct_write_spec(
    w: StructWrite,
    ns: Option<Seq<u8>>,
    tag: Option<Seq<char>>,
    prefixes: Map<Seq<u8>, Seq<char>>,
    fields: Seq<StructField>,
    root: Seq<(Seq<u8>, Seq<u8>)>,
) -> bool {
    let n = effective_ns(ns, fields);
    let t = effective_tag(tag, fields);
    let empty = is_empty_spec(fields);
    let attrs = declaration_spec(xmlns_spec(n, t, prefixes)) + root + attributes_spec(fields)
        + untagged_attributes_spec(fields);
    &&& match qname_spec(n, t, prefixes) {
        Some(q) => w.start matches Some(ev) && match ev {
            WriteEvent::Start { name: s, attributes: a } => !empty && s@ == q && attrs_view(a@) == attrs,
            WriteEvent::Empty { name: s, attributes: a } => empty && s@ == q && attrs_view(a@) == attrs,
            _ => false,
        },
        None => w.start is None,
    }
    &&& content_spec(w.content@, fields)
    &&& match qname_spec(n, t, prefixes) {
        Some(q) => if empty {
            w.end is None
        } else {
            w.end matches Some(WriteEvent::End(e)) && e@ == q
        },
        None => w.end is None,
    }
}

/// Writes a struct value as element `tag` in namespace `ns`, under the
/// namespace prefixes `prefixes`; `root_prefixes` are the namespace
/// declarations of a document root. A struct with an attribute or tag
/// field without a name is rejected.
pub fn struct_write(
    ns: Option<&NamespaceOwned>,
    tag: Option<&str>,
    prefixes: &NamespacePrefixes,
    fields: &Vec<StructField>,
    root_prefixes: Option<&Vec<(NamespaceOwned, String)>>,
) -> (res: Result<StructWrite, DeriveError>)
    ensures
        match res {
            Ok(w) => struct_write_spec(w, opt_ns(ns), opt_str(tag), prefixes@, fields@, root_declarations(root_prefixes)),
            Err(e) => e == DeriveError::UnnamedTagField && exists|i: int|
                #![trigger fields@[i]]
                0 <= i < fields@.len() && (unnamed_attr(fields@[i].model) || unnamed_tag(fields@[i].model)),
        },
{
    let attributes = match struct_attributes(fields) {
        Ok(a) => a,
        Err(e) => {
            proof {
                let i = choose|i: int| 0 <= i < fields@.len() && unnamed_attr(#[trigger] fields@[i].model);
                assert(unnamed_attr(fields@[i].model));
            }
            return Err(e);
        },
    };
    let content = match struct_content(fields) {
        Ok(c) => c,
        Err(e) => {
            proof {
                let i = choose|i: int| 0 <= i < fields@.len() && unnamed_tag(#[trigger] fields@[i].model);
                assert(unnamed_tag(fields@[i].model));
            }
            return Err(e);
        },
    };
    let tag_field = find_kind(fields, FieldType::TagName);
    let own_tag: Option<&str> = match tag_field {
        Some(i) => match tag {
            Some(t) => Some(t),
            None => Some(fields[i].value.text.as_str()),
        },
        None => tag,
    };
    let ns_field = find_kind(fields, FieldType::Namespace);
    let own_ns: Option<&NamespaceOwned> = match ns_field {
        Some(i) => match &fields[i].value.ns {
            Some(n) => Some(n),
            None => None,
        },
        None => ns,
    };
    assert(opt_str(own_tag) == effective_tag(opt_str(tag), fields@));
    assert(opt_ns(own_ns) == effective_ns(opt_ns(ns), fields@));
    let name = element_name(own_ns, own_tag, prefixes);
    let is_empty = !struct_writes_content(fields);
    let mut extra = match root_prefixes {
        Some(p) => prefix_declarations(p),
        None => Vec::new(),
    };
    let ghost r = extra@;
    let mut attributes = attributes;
    let ghost a = attributes@;
    let mut untagged = untagged_attributes(fields);
    let ghost u = untagged@;
    extra.append(&mut attributes);
    extra.append(&mut untagged);
    assert(attrs_view(extra@) =~= attrs_view(r) + attrs_view(a) + attrs_view(u));
    assert(attrs_view(r) == root_declarations(root_prefixes));
    assert(ns_view(name.xmlns) == xmlns_spec(opt_ns(own_ns), opt_str(own_tag), prefixes@));
    assert(declaration_spec(ns_view(name.xmlns)) + attrs_view(extra@) =~= declaration_spec(ns_view(name.xmlns))
        + root_declarations(root_prefixes) + attributes_spec(fields@) + untagged_attributes_spec(fields@));
    let start = struct_start_event(&name, extra, is_empty);
    let end = struct_end_event(&name, is_empty);
    let w = StructWrite { start, content, end };
    assert(content_spec(w.content@, fields@));
    assert(is_empty == is_empty_spec(fields@));
    Ok(w)
}

/// The root tag of a document type (`XmlRootTag`): the root element's
/// name and namespace, and the namespaces declared on it with their prefixes.
#[derive(Debug)]
pub struct RootTag {
    pub tag: String,
    pub ns: Option<NamespaceOwned>,
    pub ns_prefix: Vec<(NamespaceOwned, String)>,
}

/// Derives `XmlRootTag` from a struct's `root`, `ns` and `ns_prefix`
/// attributes; a struct without a `root` attribute is rejected.
pub fn root_tag(root: Option<String>, ns: Option<NamespaceOwned>, ns_prefix: Vec<(NamespaceOwned, String)>) -> (res: Result<RootTag, DeriveError>)
    ensures
        match root {
            Some(r) => res matches Ok(t) && t.tag == r && t.ns == ns && t.ns_prefix == ns_prefix,
            None => res == Err::<RootTag, DeriveError>(DeriveError::MissingRoot),
        },
{
    match root {
        Some(tag) => Ok(RootTag { tag, ns, ns_prefix }),
        None => Err(DeriveError::MissingRoot),
    }
}

/// The prefixes the namespaces of a document are written with
/// (`XmlRootTag::root_ns_prefixes`): a later entry for a namespace
/// replaces an earlier one.
pub fn root_ns_prefixes(r: &RootTag) -> (res: NamespacePrefixes)
    ensures
        res@ == prefix_map(r.ns_prefix@),
{
    let mut out: Vec<(NamespaceOwned, String)> = Vec::new();
    let mut i: usize = 0;
    while i < r.ns_prefix.len()
        invariant
            i <= r.ns_prefix@.len(),
            prefix_map(out@) == prefix_map(r.ns_prefix@.take(i as int)),
        decreases r.ns_prefix@.len() - i,
    {
        let ns = r.ns_prefix[i].0.duplicate();
        let prefix = r.ns_prefix[i].1.clone();
        let ghost before = out@;
        out.push((ns, prefix));
        assert(out@.drop_last() =~= before);
        assert(r.ns_prefix@.take(i + 1).drop_last() =~= r.ns_prefix@.take(i as int));
        i = i + 1;
    }
    assert(r.ns_prefix@.take(r.ns_prefix@.len() as int) =~= r.ns_prefix@);
    NamespacePrefixes::from_entries(out)
}

/// Writes a document's root struct (`XmlSerializeRoot::serialize_root`):
/// the struct as its root element, in its namespace, under the root's
/// prefixes, with the root's namespace declarations.
pub fn serialize_root(r: &RootTag, fields: &Vec<StructField>) -> (res: Result<StructWrite, DeriveError>)
    ensures
        match res {
            Ok(w) => struct_write_spec(w, ns_view(r.ns), Some(r.tag@), prefix_map(r.ns_prefix@), fields@,
                prefix_declarations_spec(r.ns_prefix@)),
            Err(e) => e == DeriveError::UnnamedTagField && exists|i: int|
                #![trigger fields@[i]]
                0 <= i < fields@.len() && (unnamed_attr(fields@[i].model) || unnamed_tag(fields@[i].model)),
        },
{
    let prefixes = root_ns_prefixes(r);
    let ns: Option<&NamespaceOwned> = match &r.ns {
        Some(n) => Some(n),
        None => None,
    };
    struct_write(ns, Some(r.tag.as_str()), &prefixes, fields, Some(&r.ns_prefix))
}

proof fn lemma_attribute_written(fields: Seq<StructField>, k: int, n: Seq<u8>)
    requires
        0 <= k < fields.len(),
        attr_named(fields[k].model, n),
    ensures
        attributes_spec(fields).contains((n, encode_utf8(fields[k].value.text@))),
    decreases fields.len(),
{
    let rest = fields.drop_last();
    if k < fields.len() - 1 {
        lemma_attribute_written(rest, k, n);
        let i = choose|i: int| 0 <= i < attributes_spec(rest).len() && attributes_spec(rest)[i] == (n, encode_utf8(
            fields[k].value.text@,
        ));
        assert(attributes_spec(fields)[i] == attributes_spec(rest)[i]);
    } else {
        let a = field_attribute(fields.last());
        assert(a == seq![(n, encode_utf8(fields[k].value.text@))]);
        assert(attributes_spec(fields)[attributes_spec(rest).len() as int] == a[0]);
    }
}

/// Attributes read back: the attribute that an attribute field puts on its
/// struct's start tag carries the text of the field's value, and when no
/// other attribute field has the same XML name, reading an attribute of that
/// name goes back into that field.
pub proof fn law_attribute_roundtrip(fields: Seq<StructField>, models: Seq<FieldModel>, k: int, n: Seq<u8>, res: Option<usize>)
    requires
        models == fields.map_values(|f: StructField| f.model),
        0 <= k < fields.len(),
        attr_named(fields[k].model, n),
        forall|j: int| 0 <= j < fields.len() && j != k ==> !attr_named(#[trigger] fields[j].model, n),
        route_attribute_result(models, n, res),
    ensures
        attributes_spec(fields).contains((n, encode_utf8(fields[k].value.text@))),
        res == Some(k as usize),
{
    lemma_attribute_written(fields, k, n);
    assert(models[k] == fields[k].model);
    match res {
        Some(i) => {
            assert(models[i as int] == fields[i as int].model);
        },
        None => {
            assert(!attr_named(models[k], n));
        },
    }
}

} // verus!
