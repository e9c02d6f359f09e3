//! What the enum derives decide beyond single variants: refusing an
//! untagged enum as a document, which variant an untagged enum reads, the
//! variant names an enum lists, and the element written around an enum's
//! value.

use crate::xml::error::XmlError;
use crate::xml::namespace::{ns_view, NamespaceOwned};
use crate::xml::write::{attrs_view, declaration_spec, struct_end_event, struct_start_event, ElementName, WriteEvent};
use crate::text::{bytes_eq, utf8_lossy, utf8_lossy_text};
use crate::xml_derive::{
    variant_xml_name, names_view, tagged_variants, tagged_variants_spec, variant_write_tag, xml_name_spec, DeriveError,
    EnumModel, VariantModel,
};
use vstd::prelude::*;

verus! {

/// Deriving `XmlDocument` for an enum: an untagged enum is refused.
pub fn enum_document_check(e: &EnumModel) -> (res: Result<(), DeriveError>)
    ensures
        e.untagged ==> res == Err::<(), DeriveError>(DeriveError::UntaggedDocument),
        !e.untagged ==> res is Ok,
{
    if e.untagged {
        Err(DeriveError::UntaggedDocument)
    } else {
        Ok(())
    }
}

/// Whether variant `v` is tried when its untagged enum is read: unless it
/// skips reading.
pub open spec fn tried(v: VariantModel) -> bool {
    !v.attrs.skip_deserializing
}

/// Whether variant `i` of `e` is tried and reads the element, as `read` tells.
pub open spec fn reads_variant(e: EnumModel, read: Seq<bool>, i: int) -> bool {
    0 <= i < e.variants@.len() && i < read.len() && tried(e.variants@[i]) && read[i]
}

/// The error of an untagged enum that no variant reads.
pub open spec fn no_variant_error(err: XmlError) -> bool {
    err matches XmlError::InvalidVariant(m) && m@ == "could not match"@
}

/// Which variant an untagged enum reads: the variants that do not skip
/// reading are tried in order, `read[i]` telling whether the `i`-th
/// variant's type reads the element, and the first that reads it is taken;
/// when none does the enum fails with `InvalidVariant`.
pub fn untagged_variant_choice(e: &EnumModel, read: &Vec<bool>) -> (res: Result<usize, XmlError>)
    ensures
        match res {
            Ok(i) => reads_variant(*e, read@, i as int) && forall|j: int| 0 <= j < i ==> !#[trigger] reads_variant(*e, read@, j),
            Err(err) => no_variant_error(err) && forall|j: int| 0 <= j < e.variants@.len() ==> !#[trigger] reads_variant(*e, read@, j),
        },
{
    let mut i: usize = 0;
    while i < e.variants.len()
        invariant
            i <= e.variants@.len(),
            forall|j: int| 0 <= j < i ==> !#[trigger] reads_variant(*e, read@, j),
        decreases e.variants@.len() - i,
    {
        if !e.variants[i].attrs.skip_deserializing && i < read.len() && read[i] {
            return Ok(i);
        }
        i = i + 1;
    }
    proof {
        reveal_strlit("could not match");
    }
    Err(XmlError::InvalidVariant("could not match".to_owned()))
}

/// The names of a list of name lists, one after another.
pub open spec fn concat_names(lists: Seq<Vec<(Option<NamespaceOwned>, String)>>) -> Seq<(Option<Seq<u8>>, Seq<char>)>
    decreases lists.len(),
{
    if lists.len() == 0 {
        Seq::empty()
    } else {
        concat_names(lists.drop_last()) + names_view(lists.last()@)
    }
}

fn copy_names(names: &Vec<(Option<NamespaceOwned>, String)>, out: &mut Vec<(Option<NamespaceOwned>, String)>)
    ensures
        names_view(final(out)@) == names_view(old(out)@) + names_view(names@),
{
    let ghost start = out@;
    let mut i: usize = 0;
    while i < names.len()
        invariant
            i <= names@.len(),
            names_view(out@) == names_view(start) + names_view(names@.take(i as int)),
        decreases names@.len() - i,
    {
        let ns = match &names[i].0 {
            Some(n) => Some(n.duplicate()),
            None => None,
        };
        let name = names[i].1.clone();
        let ghost before = out@;
        out.push((ns, name));
        assert(names_view(out@) =~= names_view(before).push((ns_view(ns), name@)));
        assert(names@.take(i + 1) =~= names@.take(i as int).push(names@[i as int]));
        assert(names_view(names@.take(i + 1)) =~= names_view(names@.take(i as int)).push((ns_view(ns), name@)));
        i = i + 1;
    }
    assert(names@.take(names@.len() as int) =~= names@);
}

/// The names `EnumVariants::variant_names` gives: for a tagged enum its
/// tagged variant names; for an untagged enum the names of its variants'
/// types one after another, `type_names[i]` being those of the `i`-th
/// variant's type.
pub fn variant_names(e: &EnumModel, type_names: &Vec<Vec<(Option<NamespaceOwned>, String)>>) -> (res: Vec<(Option<NamespaceOwned>, String)>)
    ensures
        e.untagged ==> names_view(res@) == concat_names(type_names@),
        !e.untagged ==> names_view(res@) == tagged_variants_spec(*e),
{
    if !e.untagged {
        return tagged_variants(e);
    }
    let mut out: Vec<(Option<NamespaceOwned>, String)> = Vec::new();
    let mut i: usize = 0;
    while i < type_names.len()
        invariant
            i <= type_names@.len(),
            names_view(out@) == concat_names(type_names@.take(i as int)),
        decreases type_names@.len() - i,
    {
        copy_names(&type_names[i], &mut out);
        assert(type_names@.take(i + 1).drop_last() =~= type_names@.take(i as int));
        i = i + 1;
    }
    assert(type_names@.take(type_names@.len() as int) =~= type_names@);
    out
}

/// What writing an enum value gives: the start event, the tag the
/// variant's value is written under, and the end event.
#[derive(Debug)]
pub struct EnumWrite {
    pub start: Option<WriteEvent>,
    pub value_tag: Option<Vec<u8>>,
    pub end: Option<WriteEvent>,
    /// The attributes the enum value gives its parent's start tag.
    pub parent_attributes: Option<Vec<(Vec<u8>, Vec<u8>)>>,
}

/// Writes the value of variant `v` of an enum as element `name`: a start tag
/// carrying only the element's namespace declaration, then the variant's
/// value under the variant's XML name (bare in an untagged enum), then the
/// end tag; an element without a name writes the value alone. The enum
/// value gives its parent's start tag no attributes.
pub fn enum_write(untagged: bool, v: &VariantModel, name: &ElementName) -> (res: EnumWrite)
    ensures
        match name.qname {
            Some(q) => (res.start matches Some(WriteEvent::Start { name: n, attributes: a }) && n@ == q@
                && attrs_view(a@) == declaration_spec(ns_view(name.xmlns)))
                && (res.end matches Some(WriteEvent::End(x)) && x@ == q@),
            None => res.start is None && res.end is None,
        },
        untagged ==> res.value_tag is None,
        !untagged ==> (res.value_tag matches Some(t) && t@ == xml_name_spec(v.attrs.rename, v.ident@)),
        res.parent_attributes is None,
{
    let none: Vec<(Vec<u8>, Vec<u8>)> = Vec::new();
    assert(attrs_view(none@) =~= Seq::empty());
    let start = struct_start_event(name, none, false);
    let end = struct_end_event(name, false);
    EnumWrite { start, value_tag: variant_write_tag(untagged, v), end, parent_attributes: None }
}

/// Whether an element of local name `name` is read as variant `v` of a
/// tagged enum: a variant that does not skip reading, and is the catch-all
/// variant or has that XML name.
pub open spec fn selects_variant(v: VariantModel, name: Seq<u8>) -> bool {
    !v.attrs.skip_deserializing && (v.attrs.other || xml_name_spec(v.attrs.rename, v.ident@) == name)
}

/// Which variant of a tagged enum an element of local name `name` is read
/// as, whatever its namespace: the first variant that selects it; when none
/// does the enum fails with `InvalidVariant` and the name as text.
pub fn tagged_variant_choice(e: &EnumModel, name: &[u8]) -> (res: Result<usize, XmlError>)
    ensures
        match res {
            Ok(i) => i < e.variants@.len() && selects_variant(e.variants@[i as int], name@)
                && forall|j: int| 0 <= j < i ==> !selects_variant(#[trigger] e.variants@[j], name@),
            Err(err) => (err matches XmlError::InvalidVariant(m) && m@ == utf8_lossy_text(name@))
                && forall|j: int| 0 <= j < e.variants@.len() ==> !selects_variant(#[trigger] e.variants@[j], name@),
        },
{
    let mut i: usize = 0;
    while i < e.variants.len()
        invariant
            i <= e.variants@.len(),
            forall|j: int| 0 <= j < i ==> !selects_variant(#[trigger] e.variants@[j], name@),
        decreases e.variants@.len() - i,
    {
        let v = &e.variants[i];
        if !v.attrs.skip_deserializing {
            if v.attrs.other {
                return Ok(i);
            }
            let n = variant_xml_name(v);
            if bytes_eq(n.as_slice(), name) {
                return Ok(i);
            }
        }
        i = i + 1;
    }
    Err(XmlError::InvalidVariant(utf8_lossy(name)))
}

} // verus!
