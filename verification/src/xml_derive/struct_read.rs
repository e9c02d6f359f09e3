//! Reading a struct that derives `XmlDeserialize`: the builder that gathers
//! its fields while the element is read, what the element's name, its
//! attributes, its content and its text give each field, and the check that
//! builds the struct at the end, which fails on the first required field
//! that never got a value.

use crate::text::{utf8_lossy, utf8_lossy_text};
use crate::xml::error::XmlError;
use crate::xml::namespace::NamespaceOwned;
use crate::xml::read::{xml_entity_spec, ResolvedNs};
use crate::xml_derive::{
    builder_slot, builder_slot_spec, child_matches, first_attr_named, is_optional, is_optional_spec,
    lemma_first_child_match, lemma_first_untagged_field, route_attribute,
    route_child_spec, struct_content_step, BuilderSlot, ChildRoute, ContentEvent, ContentStep, DeriveError,
    FieldModel, FieldType,
};
use vstd::prelude::*;

verus! {

/// What the builder holds for one field while its struct is read.
#[derive(Debug, PartialEq, Eq)]
pub struct Slot {
    /// Whether the field holds a value (for a list: whether one was stored).
    pub set: bool,
    /// How many items a list holds.
    pub items: usize,
    /// The text the field's value is read from: the element's text for a
    /// text field, the attribute's value for an attribute field, the
    /// element's local name for a tag-name field.
    pub text: Option<String>,
    /// The namespace a namespace field holds.
    pub ns: Option<NamespaceOwned>,
}

/// The view of a slot.
pub struct SlotView {
    pub set: bool,
    pub items: nat,
    pub text: Option<Seq<char>>,
    pub ns: Option<Seq<u8>>,
}

impl View for Slot {
    type V = SlotView;

    open spec fn view(&self) -> SlotView {
        SlotView {
            set: self.set,
            items: self.items as nat,
            text: match self.text {
                Some(t) => Some(t@),
                None => None,
            },
            ns: match self.ns {
                Some(n) => Some(n@),
                None => None,
            },
        }
    }
}

/// The view of a builder.
pub open spec fn slots_view(slots: Seq<Slot>) -> Seq<SlotView> {
    slots.map_values(|s: Slot| s@)
}

/// The slot kind the derive gives a field.
pub open spec fn slot_kind(f: FieldModel) -> Result<BuilderSlot, DeriveError> {
    builder_slot_spec(f.attrs.flatten, f.attrs.default is Some, is_optional_spec(f.ty))
}

/// The slot a field starts with: a field with a default holds its default,
/// a list is empty, an optional value is unset.
pub open spec fn initial_slot(s: BuilderSlot) -> SlotView {
    SlotView { set: s is Plain, items: 0, text: None, ns: None }
}

/// The error of the first field from position `k` on whose slot the derive rejects.
pub open spec fn first_slot_error(fields: Seq<FieldModel>, k: int) -> Option<DeriveError>
    decreases fields.len() - k,
{
    if k < 0 || k >= fields.len() {
        None
    } else {
        match slot_kind(fields[k]) {
            Err(e) => Some(e),
            Ok(_) => first_slot_error(fields, k + 1),
        }
    }
}

/// The builder a struct's read starts with: one slot per field.
pub open spec fn initial_builder(fields: Seq<FieldModel>) -> Seq<SlotView> {
    Seq::new(fields.len(), |i: int| initial_slot(slot_kind(fields[i])->Ok_0))
}

/// Starts the builder of a struct: one slot per field, each as the field
/// starts. When the derive rejects the slot of a field, the first such
/// field gives its error.
pub fn init_builder(fields: &Vec<FieldModel>) -> (res: Result<Vec<Slot>, DeriveError>)
    ensures
        match res {
            Ok(slots) => first_slot_error(fields@, 0) is None && slots_view(slots@) == initial_builder(fields@),
            Err(e) => first_slot_error(fields@, 0) == Some(e),
        },
{
    let mut slots: Vec<Slot> = Vec::new();
    let mut i: usize = 0;
    while i < fields.len()
        invariant
            i <= fields@.len(),
            slots@.len() == i,
            first_slot_error(fields@, 0) == first_slot_error(fields@, i as int),
            forall|j: int| 0 <= j < i ==> slot_kind(#[trigger] fields@[j]) is Ok,
            forall|j: int| 0 <= j < i ==> (#[trigger] slots@[j])@ == initial_slot(slot_kind(fields@[j])->Ok_0),
        decreases fields@.len() - i,
    {
        match builder_slot(&fields[i]) {
            Ok(BuilderSlot::Plain) => slots.push(Slot { set: true, items: 0, text: None, ns: None }),
            Ok(_) => slots.push(Slot { set: false, items: 0, text: None, ns: None }),
            Err(e) => {
                return Err(e);
            },
        }
        i = i + 1;
    }
    assert(slots_view(slots@) =~= initial_builder(fields@));
    Ok(slots)
}

/// Takes slot `i` out of the builder, leaving an empty slot in its place.
fn take_slot(slots: &mut Vec<Slot>, i: usize) -> (res: Slot)
    requires
        i < old(slots)@.len(),
    ensures
        res == old(slots)@[i as int],
        final(slots)@ == old(slots)@.update(i as int, Slot { set: false, items: 0, text: None, ns: None }),
{
    let s = slots.remove(i);
    slots.insert(i, Slot { set: false, items: 0, text: None, ns: None });
    assert(slots@ =~= old(slots)@.update(i as int, Slot { set: false, items: 0, text: None, ns: None }));
    s
}

/// Puts slot `s` back at position `i` of the builder.
fn put_slot(slots: &mut Vec<Slot>, i: usize, s: Slot)
    requires
        i < old(slots)@.len(),
    ensures
        final(slots)@ == old(slots)@.update(i as int, s),
{
    let ghost t = s;
    slots.remove(i);
    slots.insert(i, s);
    assert(slots@ =~= old(slots)@.update(i as int, t));
}

/// The namespace an element's name is bound to, if any.
pub open spec fn bound_namespace(ns: ResolvedNs) -> Option<Seq<u8>> {
    match ns {
        ResolvedNs::Bound(n) => Some(n@),
        _ => None,
    }
}

/// What the element's name gives a field: a tag-name field gets the local
/// name as text, a namespace field the namespace the name is bound to.
pub open spec fn named_slot(f: FieldModel, s: SlotView, ns: ResolvedNs, name: Seq<u8>) -> SlotView {
    if f.attrs.xml_ty == FieldType::TagName {
        SlotView { set: true, items: s.items, text: Some(utf8_lossy_text(name)), ns: s.ns }
    } else if f.attrs.xml_ty == FieldType::Namespace {
        SlotView { set: true, items: s.items, text: s.text, ns: bound_namespace(ns) }
    } else {
        s
    }
}

/// The builder after the element's name is given to its fields.
pub open spec fn name_builder(fields: Seq<FieldModel>, sv: Seq<SlotView>, ns: ResolvedNs, name: Seq<u8>) -> Seq<SlotView> {
    Seq::new(sv.len(), |i: int| if i < fields.len() { named_slot(fields[i], sv[i], ns, name) } else { sv[i] })
}

/// Gives the element's name to the struct's fields: every tag-name field
/// gets the local name as text, every namespace field the namespace the
/// name is bound to.
pub fn store_element_name(fields: &Vec<FieldModel>, slots: &mut Vec<Slot>, ns: &ResolvedNs, name: &[u8])
    ensures
        slots_view(final(slots)@) == name_builder(fields@, slots_view(old(slots)@), *ns, name@),
{
    let ghost start = slots_view(slots@);
    let mut i: usize = 0;
    while i < slots.len()
        invariant
            i <= slots@.len(),
            slots@.len() == start.len(),
            forall|j: int| 0 <= j < i ==> (#[trigger] slots@[j])@ == name_builder(fields@, start, *ns, name@)[j],
            forall|j: int| i <= j < slots@.len() ==> (#[trigger] slots@[j])@ == start[j],
        decreases slots@.len() - i,
    {
        if i < fields.len() {
            if fields[i].attrs.xml_ty == FieldType::TagName {
                let mut s = take_slot(slots, i);
                s.set = true;
                s.text = Some(utf8_lossy(name));
                put_slot(slots, i, s);
            } else if fields[i].attrs.xml_ty == FieldType::Namespace {
                let mut s = take_slot(slots, i);
                s.set = true;
                s.ns = match ns {
                    ResolvedNs::Bound(n) => Some(n.duplicate()),
                    _ => None,
                };
                put_slot(slots, i, s);
            }
        }
        i = i + 1;
    }
    assert(slots_view(slots@) =~= name_builder(fields@, start, *ns, name@));
}

/// What an attribute gives the field it is read into: the attribute's value as text.
pub open spec fn attribute_slot(s: SlotView, value: Seq<char>) -> SlotView {
    SlotView { set: true, items: s.items, text: Some(value), ns: s.ns }
}

/// The builder after the attributes `attrs` (names and values) are read,
/// in order: each goes into the first attribute field of its name; others
/// are ignored.
pub open spec fn attributes_builder(fields: Seq<FieldModel>, sv: Seq<SlotView>, attrs: Seq<(Seq<u8>, Seq<char>)>) -> Seq<SlotView>
    decreases attrs.len(),
{
    if attrs.len() == 0 {
        sv
    } else {
        let prev = attributes_builder(fields, sv, attrs.drop_last());
        match first_attr_named(fields, attrs.last().0, 0) {
            Some(i) => if 0 <= i < prev.len() {
                prev.update(i, attribute_slot(prev[i], attrs.last().1))
            } else {
                prev
            },
            None => prev,
        }
    }
}

/// The view of a list of attributes read from a start tag.
pub open spec fn read_attrs_view(attrs: Seq<(Vec<u8>, String)>) -> Seq<(Seq<u8>, Seq<char>)> {
    attrs.map_values(|a: (Vec<u8>, String)| (a.0@, a.1@))
}

/// Reads the attributes of the start tag (names and unescaped values) into
/// the struct's attribute fields.
pub fn store_attributes(fields: &Vec<FieldModel>, slots: &mut Vec<Slot>, attributes: &Vec<(Vec<u8>, String)>)
    ensures
        slots_view(final(slots)@) == attributes_builder(fields@, slots_view(old(slots)@), read_attrs_view(attributes@)),
{
    let ghost start = slots_view(slots@);
    let ghost all = read_attrs_view(attributes@);
    let mut i: usize = 0;
    while i < attributes.len()
        invariant
            i <= attributes@.len(),
            all == read_attrs_view(attributes@),
            slots_view(slots@) == attributes_builder(fields@, start, all.take(i as int)),
        decreases attributes@.len() - i,
    {
        let route = route_attribute(fields, attributes[i].0.as_slice());
        match route {
            Some(j) => {
                if j < slots.len() {
                    let mut s = take_slot(slots, j);
                    s.set = true;
                    s.text = Some(attributes[i].1.clone());
                    put_slot(slots, j, s);
                }
            },
            None => {},
        }
        assert(all.take(i + 1).drop_last() =~= all.take(i as int));
        assert(all.take(i + 1).last() == all[i as int]);
        i = i + 1;
        assert(slots_view(slots@) =~= attributes_builder(fields@, start, all.take(i as int)));
    }
    assert(all.take(i as int) =~= all);
}

/// What storing a value read for field `f` does to its slot: a flattened
/// field appends it to its list, any other field holds it.
pub open spec fn stored_slot(f: FieldModel, s: SlotView) -> SlotView {
    SlotView { set: true, items: if f.attrs.flatten { s.items + 1 } else { s.items }, text: s.text, ns: s.ns }
}

/// The builder after the value of a child element is stored as `route` says.
pub open spec fn child_builder(fields: Seq<FieldModel>, sv: Seq<SlotView>, route: ChildRoute) -> Seq<SlotView> {
    match route {
        ChildRoute::Field(i) | ChildRoute::Untagged(i) => if i < fields.len() && i < sv.len() {
            sv.update(i as int, stored_slot(fields[i as int], sv[i as int]))
        } else {
            sv
        },
        _ => sv,
    }
}

/// Stores the value of a child element where `route_child` sent it: into
/// the tag or untagged field it names, appended for a flattened field,
/// held (as it is or as `Some`) otherwise; an ignored or invalid child
/// stores nothing.
pub fn store_child(fields: &Vec<FieldModel>, slots: &mut Vec<Slot>, route: &ChildRoute)
    requires
        match *route {
            ChildRoute::Field(i) | ChildRoute::Untagged(i) => i < fields@.len() && i < old(slots)@.len()
                && fields@[i as int].attrs.flatten ==> old(slots)@[i as int].items < usize::MAX,
            _ => true,
        },
    ensures
        final(slots)@.len() == old(slots)@.len(),
        slots_view(final(slots)@) == child_builder(fields@, slots_view(old(slots)@), *route),
{
    match route {
        ChildRoute::Field(i) | ChildRoute::Untagged(i) => {
            let i = *i;
            if i < fields.len() && i < slots.len() {
                let mut s = take_slot(slots, i);
                s.set = true;
                if fields[i].attrs.flatten {
                    s.items = s.items + 1;
                }
                put_slot(slots, i, s);
                assert(slots_view(slots@) =~= child_builder(fields@, slots_view(old(slots)@), *route));
            } else {
                assert(slots_view(slots@) =~= child_builder(fields@, slots_view(old(slots)@), *route));
            }
        },
        _ => {},
    }
}

/// The builder after the element's text is given to its text fields: every
/// text field gets the whole text.
pub open spec fn text_builder(fields: Seq<FieldModel>, sv: Seq<SlotView>, text: Seq<char>) -> Seq<SlotView> {
    Seq::new(
        sv.len(),
        |i: int|
            if i < fields.len() && fields[i].attrs.xml_ty == FieldType::Text {
                SlotView { set: true, items: sv[i].items, text: Some(text), ns: sv[i].ns }
            } else {
                sv[i]
            },
    )
}

/// Gives the element's text to every text field of the struct.
pub fn store_text(fields: &Vec<FieldModel>, slots: &mut Vec<Slot>, text: &str)
    ensures
        slots_view(final(slots)@) == text_builder(fields@, slots_view(old(slots)@), text@),
{
    let ghost start = slots_view(slots@);
    let mut i: usize = 0;
    while i < slots.len()
        invariant
            i <= slots@.len(),
            slots@.len() == start.len(),
            forall|j: int| 0 <= j < i ==> (#[trigger] slots@[j])@ == text_builder(fields@, start, text@)[j],
            forall|j: int| i <= j < slots@.len() ==> (#[trigger] slots@[j])@ == start[j],
        decreases slots@.len() - i,
    {
        if i < fields.len() && fields[i].attrs.xml_ty == FieldType::Text {
            let mut s = take_slot(slots, i);
            s.set = true;
            s.text = Some(text.to_owned());
            put_slot(slots, i, s);
        }
        i = i + 1;
    }
    assert(slots_view(slots@) =~= text_builder(fields@, start, text@));
}

/// Whether a field must have got a value for the struct to be built: one
/// that is neither flattened, nor has a default, nor is an `Option`.
pub open spec fn required(f: FieldModel) -> bool {
    slot_kind(f) == Ok::<BuilderSlot, DeriveError>(BuilderSlot::Optional) && !is_optional_spec(f.ty)
}

/// The first required field from position `k` on whose slot holds no value.
pub open spec fn first_missing(fields: Seq<FieldModel>, sv: Seq<SlotView>, k: int) -> Option<int>
    decreases fields.len() - k,
{
    if k < 0 || k >= fields.len() {
        None
    } else if required(fields[k]) && !(k < sv.len() && sv[k].set) {
        Some(k)
    } else {
        first_missing(fields, sv, k + 1)
    }
}

proof fn lemma_first_missing_finds(fields: Seq<FieldModel>, sv: Seq<SlotView>, k: int, i: int)
    requires
        0 <= k <= i < fields.len(),
        required(fields[i]),
        !(i < sv.len() && sv[i].set),
    ensures
        first_missing(fields, sv, k) matches Some(j) && k <= j <= i && required(fields[j]) && !(j < sv.len() && sv[j].set),
    decreases i - k,
{
    if !(required(fields[k]) && !(k < sv.len() && sv[k].set)) {
        lemma_first_missing_finds(fields, sv, k + 1, i);
    }
}

proof fn lemma_first_missing_none(fields: Seq<FieldModel>, sv: Seq<SlotView>, k: int)
    requires
        0 <= k,
        first_missing(fields, sv, k) is None,
    ensures
        forall|i: int| k <= i < fields.len() ==> !(#[trigger] required(fields[i]) && !(i < sv.len() && sv[i].set)),
    decreases fields.len() - k,
{
    if k < fields.len() {
        lemma_first_missing_none(fields, sv, k + 1);
    }
}

/// Required fields: every field that is neither flattened, nor has a
/// default, nor is an `Option` (whatever its kind, attribute, text,
/// tag-name and namespace fields included) must hold a value when the
/// struct is built; the build fails on the first one that holds none,
/// and it succeeds only when each of them holds a value.
pub proof fn law_required_fields(fields: Seq<FieldModel>, sv: Seq<SlotView>)
    ensures
        forall|i: int|
            0 <= i < fields.len() ==> (#[trigger] required(fields[i]) <==> (!fields[i].attrs.flatten
                && fields[i].attrs.default is None && !is_optional_spec(fields[i].ty))),
        forall|i: int|
            0 <= i < fields.len() && !(#[trigger] fields[i]).attrs.flatten && fields[i].attrs.default is None
                && !is_optional_spec(fields[i].ty) && !(i < sv.len() && sv[i].set)
                ==> (first_missing(fields, sv, 0) matches Some(j) && j <= i && !(j < sv.len() && sv[j].set)),
        first_missing(fields, sv, 0) is None ==> forall|i: int|
            0 <= i < fields.len() && !fields[i].attrs.flatten && fields[i].attrs.default is None
                && !is_optional_spec(#[trigger] fields[i].ty) ==> i < sv.len() && sv[i].set,
{
    assert forall|i: int|
        0 <= i < fields.len() && !(#[trigger] fields[i]).attrs.flatten && fields[i].attrs.default is None
            && !is_optional_spec(fields[i].ty) && !(i < sv.len() && sv[i].set)
        implies (first_missing(fields, sv, 0) matches Some(j) && j <= i && !(j < sv.len() && sv[j].set)) by {
        lemma_first_missing_finds(fields, sv, 0, i);
    }
    if first_missing(fields, sv, 0) is None {
        lemma_first_missing_none(fields, sv, 0);
        assert forall|i: int|
            0 <= i < fields.len() && !fields[i].attrs.flatten && fields[i].attrs.default is None
                && !is_optional_spec(#[trigger] fields[i].ty) implies i < sv.len() && sv[i].set by {
            assert(required(fields[i]));
        }
    }
}

/// What reading gives the fields of a struct: the element's text goes to
/// every text field and to nothing else; the element's local name goes to
/// every tag-name field as text and the namespace its name is bound to
/// (none when unbound) to every namespace field, and nothing else changes;
/// a child element's value goes into the field it is routed to, adding an
/// item to a flattened field, and nothing else changes.
pub proof fn law_field_values(fields: Seq<FieldModel>, sv: Seq<SlotView>, ns: ResolvedNs, name: Seq<u8>, text: Seq<char>, route: ChildRoute)
    ensures
        text_builder(fields, sv, text).len() == sv.len(),
        forall|i: int|
            0 <= i < sv.len() && i < fields.len() && (#[trigger] fields[i]).attrs.xml_ty == FieldType::Text
                ==> text_builder(fields, sv, text)[i].set && text_builder(fields, sv, text)[i].text == Some(text)
                && text_builder(fields, sv, text)[i].items == sv[i].items && text_builder(fields, sv, text)[i].ns == sv[i].ns,
        forall|i: int|
            0 <= i < sv.len() && !(i < fields.len() && fields[i].attrs.xml_ty == FieldType::Text)
                ==> #[trigger] text_builder(fields, sv, text)[i] == sv[i],
        name_builder(fields, sv, ns, name).len() == sv.len(),
        forall|i: int|
            0 <= i < sv.len() && i < fields.len() && (#[trigger] fields[i]).attrs.xml_ty == FieldType::TagName
                ==> name_builder(fields, sv, ns, name)[i].set && name_builder(fields, sv, ns, name)[i].text == Some(
                utf8_lossy_text(name),
            ) && name_builder(fields, sv, ns, name)[i].ns == sv[i].ns,
        forall|i: int|
            0 <= i < sv.len() && i < fields.len() && (#[trigger] fields[i]).attrs.xml_ty == FieldType::Namespace
                ==> name_builder(fields, sv, ns, name)[i].set && name_builder(fields, sv, ns, name)[i].ns == (match ns {
                ResolvedNs::Bound(n) => Some(n@),
                _ => None,
            }) && name_builder(fields, sv, ns, name)[i].text == sv[i].text,
        forall|i: int|
            0 <= i < sv.len() && !(i < fields.len() && (fields[i].attrs.xml_ty == FieldType::TagName
                || fields[i].attrs.xml_ty == FieldType::Namespace)) ==> #[trigger] name_builder(fields, sv, ns, name)[i] == sv[i],
        child_builder(fields, sv, route).len() == sv.len(),
        match route {
            ChildRoute::Field(k) | ChildRoute::Untagged(k) => k < fields.len() && k < sv.len() ==> {
                &&& child_builder(fields, sv, route)[k as int].set
                &&& child_builder(fields, sv, route)[k as int].items == if fields[k as int].attrs.flatten {
                    sv[k as int].items + 1
                } else {
                    sv[k as int].items
                }
                &&& child_builder(fields, sv, route)[k as int].text == sv[k as int].text
                &&& forall|j: int| 0 <= j < sv.len() && j != k ==> #[trigger] child_builder(fields, sv, route)[j] == sv[j]
            },
            _ => child_builder(fields, sv, route) == sv,
        },
{
}

/// What each event of a struct's content does: the end tag ends the content
/// with the builder and text as they are; text and CDATA are appended to
/// the text, a character reference appends its character and a predefined
/// entity its text, an unknown entity fails; the end of input fails with
/// `Eof`; declarations and the like change nothing; a child element that no
/// field takes fails when unknown children are not allowed.
pub proof fn law_content_step(fields: Seq<FieldModel>, allow_invalid: bool, sv: Seq<SlotView>, text: Seq<char>, ev: ContentEvent, k: int)
    ensures
        ev is End ==> content_step_spec(fields, allow_invalid, sv, text, ev, k) == ReadState::Done(sv, text),
        ev is Eof ==> content_step_spec(fields, allow_invalid, sv, text, ev, k) == ReadState::Failed(
            StructReadError::Xml(XmlError::Eof),
        ),
        ev is Ignored ==> content_step_spec(fields, allow_invalid, sv, text, ev, k) == ReadState::Reading(sv, text),
        ev matches ContentEvent::Text(t) ==> content_step_spec(fields, allow_invalid, sv, text, ev, k) == ReadState::Reading(
            sv,
            text + t@,
        ),
        ev matches ContentEvent::CData(t) ==> content_step_spec(fields, allow_invalid, sv, text, ev, k) == ReadState::Reading(
            sv,
            text + t@,
        ),
        ev matches ContentEvent::CharRef(c) ==> content_step_spec(fields, allow_invalid, sv, text, ev, k)
            == ReadState::Reading(sv, text.push(c)),
        ev matches ContentEvent::EntityRef(n) ==> (n@ == "amp"@ ==> content_step_spec(fields, allow_invalid, sv, text, ev, k)
            == ReadState::Reading(sv, text.push('&'))),
        ev matches ContentEvent::EntityRef(n) ==> (n@ == "lt"@ ==> content_step_spec(fields, allow_invalid, sv, text, ev, k)
            == ReadState::Reading(sv, text.push('<'))),
        ev matches ContentEvent::EntityRef(n) ==> (xml_entity_spec(n@) is None ==> content_step_spec(
            fields,
            allow_invalid,
            sv,
            text,
            ev,
            k,
        ) == ReadState::Failed(StructReadError::Xml(XmlError::UnsupportedEvent("invalid XML ref")))),
        ev matches ContentEvent::Child { ns, name, .. } ==> ((forall|j: int| 0 <= j < fields.len() ==> !child_matches(
            #[trigger] fields[j],
            ns,
            name@,
        ) && fields[j].attrs.xml_ty != FieldType::Untagged) ==> content_step_spec(fields, allow_invalid, sv, text, ev, k)
            == if allow_invalid {
            ReadState::Reading(sv, text)
        } else {
            ReadState::Failed(StructReadError::InvalidChild(k as usize))
        }),
{
    reveal_strlit("amp");
    reveal_strlit("lt");
    assert(seq!['a', 'm', 'p'] =~= "amp"@);
    assert(seq!['l', 't'] =~= "lt"@);
    assert(text + seq!['&'] =~= text.push('&'));
    assert(text + seq!['<'] =~= text.push('<'));
    if let ContentEvent::Child { ns, name, .. } = ev {
        lemma_first_child_match(fields, ns, name@, 0);
        lemma_first_untagged_field(fields, 0);
    }
}

/// Builds the struct from the builder, field by field in order: the first
/// required field whose slot holds no value fails with a missing field
/// error, which names that field.
pub fn build_struct(fields: &Vec<FieldModel>, slots: &Vec<Slot>) -> (res: Result<(), usize>)
    ensures
        match res {
            Ok(()) => first_missing(fields@, slots_view(slots@), 0) is None,
            Err(i) => first_missing(fields@, slots_view(slots@), 0) == Some(i as int),
        },
{
    let ghost sv = slots_view(slots@);
    let mut i: usize = 0;
    while i < fields.len()
        invariant
            i <= fields@.len(),
            sv == slots_view(slots@),
            first_missing(fields@, sv, 0) == first_missing(fields@, sv, i as int),
        decreases fields@.len() - i,
    {
        let f = &fields[i];
        let is_required = match builder_slot(f) {
            Ok(BuilderSlot::Optional) => !is_optional(&f.ty),
            _ => false,
        };
        let is_set = i < slots.len() && slots[i].set;
        if is_required && !is_set {
            return Err(i);
        }
        i = i + 1;
    }
    Ok(())
}

/// Why reading a struct fails.
#[derive(Debug)]
pub enum StructReadError {
    /// The derive rejects the struct.
    Derive(DeriveError),
    /// The content is refused, or the input ends early.
    Xml(XmlError),
    /// The child element of the content event at this position is no field
    /// of the struct.
    InvalidChild(usize),
    /// The required field at this position got no value.
    MissingField(usize),
}

/// The state of reading a struct's content: still reading (with the
/// builder and the text gathered), done, or failed.
pub enum ReadState {
    Reading(Seq<SlotView>, Seq<char>),
    Done(Seq<SlotView>, Seq<char>),
    Failed(StructReadError),
}

/// What the content event `ev` at position `k` does: the end tag ends the
/// content, the end of input fails, a child element's value is stored in
/// the field it is routed to (an invalid child fails), text, CDATA,
/// character and entity references are gathered, and other events are
/// ignored.
pub open spec fn content_step_spec(fields: Seq<FieldModel>, allow_invalid: bool, sv: Seq<SlotView>, text: Seq<char>, ev: ContentEvent, k: int) -> ReadState {
    match ev {
        ContentEvent::End => ReadState::Done(sv, text),
        ContentEvent::Eof => ReadState::Failed(StructReadError::Xml(XmlError::Eof)),
        ContentEvent::Ignored => ReadState::Reading(sv, text),
        ContentEvent::Child { ns, name, .. } => match route_child_spec(fields, ns, name@, allow_invalid) {
            ChildRoute::Invalid => ReadState::Failed(StructReadError::InvalidChild(k as usize)),
            route => ReadState::Reading(child_builder(fields, sv, route), text),
        },
        ContentEvent::Text(t) => ReadState::Reading(sv, text + t@),
        ContentEvent::CData(t) => ReadState::Reading(sv, text + t@),
        ContentEvent::CharRef(c) => ReadState::Reading(sv, text.push(c)),
        ContentEvent::EntityRef(n) => match xml_entity_spec(n@) {
            Some(t) => ReadState::Reading(sv, text + t),
            None => ReadState::Failed(StructReadError::Xml(XmlError::UnsupportedEvent("invalid XML ref"))),
        },
    }
}

/// Reads the content events from position `k` on, from state `st`; content
/// that runs out before its end tag fails with the end of input.
pub open spec fn content_fold(fields: Seq<FieldModel>, allow_invalid: bool, events: Seq<ContentEvent>, k: int, st: ReadState) -> ReadState
    decreases events.len() - k,
{
    match st {
        ReadState::Reading(sv, text) => if k < 0 || k >= events.len() {
            ReadState::Failed(StructReadError::Xml(XmlError::Eof))
        } else {
            content_fold(fields, allow_invalid, events, k + 1, content_step_spec(fields, allow_invalid, sv, text, events[k], k))
        },
        _ => st,
    }
}

/// What reading a struct gives, as the derived `XmlDeserialize` reads it:
/// the builder starts, the element's name goes to the tag-name and
/// namespace fields, the attributes to the attribute fields, the content
/// (none for an empty element) is read, the gathered text goes to every
/// text field, and the struct is built unless a required field is missing.
pub open spec fn read_struct_spec(
    fields: Seq<FieldModel>,
    allow_invalid: bool,
    ns: ResolvedNs,
    name: Seq<u8>,
    attrs: Seq<(Seq<u8>, Seq<char>)>,
    empty: bool,
    events: Seq<ContentEvent>,
) -> Result<Seq<SlotView>, StructReadError> {
    match first_slot_error(fields, 0) {
        Some(e) => Err(StructReadError::Derive(e)),
        None => {
            let sv = attributes_builder(fields, name_builder(fields, initial_builder(fields), ns, name), attrs);
            let st = if empty {
                ReadState::Done(sv, Seq::empty())
            } else {
                content_fold(fields, allow_invalid, events, 0, ReadState::Reading(sv, Seq::empty()))
            };
            match st {
                ReadState::Done(sv2, text) => {
                    let sv3 = text_builder(fields, sv2, text);
                    match first_missing(fields, sv3, 0) {
                        Some(i) => Err(StructReadError::MissingField(i as usize)),
                        None => Ok(sv3),
                    }
                },
                ReadState::Failed(e) => Err(e),
                ReadState::Reading(_, _) => Err(StructReadError::Xml(XmlError::Eof)),
            }
        },
    }
}

/// Reading a struct: a struct whose slots the derive rejects is not read;
/// a struct that is read holds a value in every field that is neither
/// flattened, nor has a default, nor is an `Option`, and every text field
/// holds the element's text; an empty element gives its text fields the
/// empty text.
pub proof fn law_read_struct(
    fields: Seq<FieldModel>,
    allow_invalid: bool,
    ns: ResolvedNs,
    name: Seq<u8>,
    attrs: Seq<(Seq<u8>, Seq<char>)>,
    empty: bool,
    events: Seq<ContentEvent>,
)
    ensures
        first_slot_error(fields, 0) matches Some(e) ==> read_struct_spec(fields, allow_invalid, ns, name, attrs, empty, events)
            == Err::<Seq<SlotView>, StructReadError>(StructReadError::Derive(e)),
        read_struct_spec(fields, allow_invalid, ns, name, attrs, empty, events) matches Ok(sv) ==> forall|i: int|
            0 <= i < fields.len() && !(#[trigger] fields[i]).attrs.flatten && fields[i].attrs.default is None
                && !is_optional_spec(fields[i].ty) ==> i < sv.len() && sv[i].set,
        read_struct_spec(fields, allow_invalid, ns, name, attrs, empty, events) matches Ok(sv) ==> forall|i: int|
            0 <= i < fields.len() && i < sv.len() && (#[trigger] fields[i]).attrs.xml_ty == FieldType::Text
                ==> sv[i].set && sv[i].text is Some,
        empty ==> (read_struct_spec(fields, allow_invalid, ns, name, attrs, empty, events) matches Ok(sv) ==> forall|i: int|
            0 <= i < fields.len() && i < sv.len() && (#[trigger] fields[i]).attrs.xml_ty == FieldType::Text
                ==> sv[i].text == Some(Seq::<char>::empty())),
{
    if let Ok(sv) = read_struct_spec(fields, allow_invalid, ns, name, attrs, empty, events) {
        lemma_first_missing_none(fields, sv, 0);
        assert forall|i: int|
            0 <= i < fields.len() && !(#[trigger] fields[i]).attrs.flatten && fields[i].attrs.default is None
                && !is_optional_spec(fields[i].ty) implies i < sv.len() && sv[i].set by {
            assert(required(fields[i]));
        }
    }
}

fn finish(fields: &Vec<FieldModel>, slots: Vec<Slot>, text: &str) -> (res: Result<Vec<Slot>, StructReadError>)
    ensures
        match first_missing(fields@, text_builder(fields@, slots_view(slots@), text@), 0) {
            Some(i) => res matches Err(StructReadError::MissingField(j)) && j == i,
            None => res matches Ok(s) && slots_view(s@) == text_builder(fields@, slots_view(slots@), text@),
        },
{
    proof {
        lemma_first_missing_range(fields@, text_builder(fields@, slots_view(slots@), text@), 0);
    }
    let mut slots = slots;
    store_text(fields, &mut slots, text);
    match build_struct(fields, &slots) {
        Ok(()) => Ok(slots),
        Err(i) => Err(StructReadError::MissingField(i)),
    }
}

proof fn lemma_first_missing_range(fields: Seq<FieldModel>, sv: Seq<SlotView>, k: int)
    ensures
        first_missing(fields, sv, k) matches Some(i) ==> k <= i < fields.len(),
    decreases fields.len() - k,
{
    if 0 <= k < fields.len() {
        lemma_first_missing_range(fields, sv, k + 1);
    }
}

proof fn lemma_attributes_keep_items(fields: Seq<FieldModel>, sv: Seq<SlotView>, attrs: Seq<(Seq<u8>, Seq<char>)>)
    requires
        forall|j: int| 0 <= j < sv.len() ==> (#[trigger] sv[j]).items == 0,
    ensures
        attributes_builder(fields, sv, attrs).len() == sv.len(),
        forall|j: int| 0 <= j < sv.len() ==> (#[trigger] attributes_builder(fields, sv, attrs)[j]).items == 0,
    decreases attrs.len(),
{
    if attrs.len() > 0 {
        lemma_attributes_keep_items(fields, sv, attrs.drop_last());
    }
}

proof fn lemma_child_builder_items(fields: Seq<FieldModel>, sv: Seq<SlotView>, route: ChildRoute, k: nat)
    requires
        forall|j: int| 0 <= j < sv.len() ==> (#[trigger] sv[j]).items <= k,
    ensures
        child_builder(fields, sv, route).len() == sv.len(),
        forall|j: int| 0 <= j < sv.len() ==> (#[trigger] child_builder(fields, sv, route)[j]).items <= k + 1,
{
}

/// Reads a struct element: `ns` and `name` are its resolved name,
/// `attributes` the names and unescaped values of its start tag's
/// attributes, `empty` whether it is an empty element, and `events` the
/// events of its content, a child element standing for its whole content
/// as the field's type reads it.
pub fn read_struct(
    fields: &Vec<FieldModel>,
    allow_invalid: bool,
    ns: &ResolvedNs,
    name: &[u8],
    attributes: &Vec<(Vec<u8>, String)>,
    empty: bool,
    events: &Vec<ContentEvent>,
) -> (res: Result<Vec<Slot>, StructReadError>)
    ensures
        match read_struct_spec(fields@, allow_invalid, *ns, name@, read_attrs_view(attributes@), empty, events@) {
            Ok(sv) => res matches Ok(slots) && slots_view(slots@) == sv,
            Err(StructReadError::MissingField(i)) => res matches Err(StructReadError::MissingField(j)) && i == j,
            Err(e) => res matches Err(f) && f == e,
        },
{
    let ghost attrs = read_attrs_view(attributes@);
    let nf = fields.len();
    let mut slots = match init_builder(fields) {
        Ok(s) => s,
        Err(e) => return Err(StructReadError::Derive(e)),
    };
    store_element_name(fields, &mut slots, ns, name);
    store_attributes(fields, &mut slots, attributes);
    let ghost sv = slots_view(slots@);
    assert(sv == attributes_builder(fields@, name_builder(fields@, initial_builder(fields@), *ns, name@), attrs));
    proof {
        lemma_attributes_keep_items(fields@, name_builder(fields@, initial_builder(fields@), *ns, name@), attrs);
        assert forall|j: int| 0 <= j < slots@.len() implies (#[trigger] slots@[j]).items <= 0 by {
            assert(slots_view(slots@)[j] == slots@[j]@);
        }
        lemma_first_missing_range(fields@, text_builder(fields@, sv, Seq::empty()), 0);
    }
    if empty {
        proof {
            reveal_strlit("");
            assert(""@ =~= Seq::<char>::empty());
        }
        assert(read_struct_spec(fields@, allow_invalid, *ns, name@, attrs, empty, events@) == match first_missing(
            fields@,
            text_builder(fields@, sv, Seq::empty()),
            0,
        ) {
            Some(i) => Err(StructReadError::MissingField(i as usize)),
            None => Ok(text_builder(fields@, sv, Seq::empty())),
        });
        return finish(fields, slots, "");
    }
    let mut text = String::new();
    assert(text@ =~= Seq::<char>::empty());
    let mut k: usize = 0;
    while k < events.len()
        invariant
            k <= events@.len(),
            content_fold(fields@, allow_invalid, events@, 0, ReadState::Reading(sv, Seq::empty()))
                == content_fold(fields@, allow_invalid, events@, k as int, ReadState::Reading(slots_view(slots@), text@)),
            forall|j: int| 0 <= j < slots@.len() ==> (#[trigger] slots@[j]).items <= k,
            slots@.len() == sv.len(),
            !empty,
            nf == fields@.len(),
            first_slot_error(fields@, 0) is None,
            sv == attributes_builder(fields@, name_builder(fields@, initial_builder(fields@), *ns, name@), attrs),
            attrs == read_attrs_view(attributes@),
        decreases events@.len() - k,
    {
        let ghost before = slots_view(slots@);
        let ghost t0 = text@;
        let step = struct_content_step(fields, allow_invalid, &mut text, &events[k]);
        assert(content_fold(fields@, allow_invalid, events@, k as int, ReadState::Reading(before, t0)) == content_fold(
            fields@,
            allow_invalid,
            events@,
            k + 1,
            content_step_spec(fields@, allow_invalid, before, t0, events@[k as int], k as int),
        ));
        match step {
            ContentStep::Continue => {},
            ContentStep::Done => {
                assert(content_step_spec(fields@, allow_invalid, before, t0, events@[k as int], k as int)
                    == ReadState::Done(before, t0));
                assert(content_fold(fields@, allow_invalid, events@, k + 1, ReadState::Done(before, t0))
                    == ReadState::Done(before, t0));
                proof {
                    lemma_first_missing_range(fields@, text_builder(fields@, before, t0), 0);
                }
                assert(read_struct_spec(fields@, allow_invalid, *ns, name@, attrs, empty, events@) == match first_missing(
                    fields@,
                    text_builder(fields@, before, t0),
                    0,
                ) {
                    Some(i) => Err(StructReadError::MissingField(i as usize)),
                    None => Ok(text_builder(fields@, before, t0)),
                });
                return finish(fields, slots, text.as_str());
            },
            ContentStep::ReadChild { route, .. } => {
                match route {
                    ChildRoute::Invalid => {
                        let ghost failed = ReadState::Failed(StructReadError::InvalidChild(k));
                        assert(content_step_spec(fields@, allow_invalid, before, t0, events@[k as int], k as int) == failed);
                        assert(content_fold(fields@, allow_invalid, events@, k + 1, failed) == failed);
                        assert(read_struct_spec(fields@, allow_invalid, *ns, name@, attrs, empty, events@)
                            == Err::<Seq<SlotView>, StructReadError>(StructReadError::InvalidChild(k)));
                        return Err(StructReadError::InvalidChild(k));
                    },
                    _ => {
                        assert forall|j: int| 0 <= j < before.len() implies (#[trigger] before[j]).items <= k by {
                            assert(before[j] == slots@[j]@);
                        }
                        store_child(fields, &mut slots, &route);
                        proof {
                            lemma_child_builder_items(fields@, before, route, k as nat);
                            assert forall|j: int| 0 <= j < slots@.len() implies (#[trigger] slots@[j]).items <= k + 1 by {
                                assert(slots_view(slots@)[j] == slots@[j]@);
                            }
                        }
                    },
                }
            },
            ContentStep::Fail(e) => {
                let ghost failed = ReadState::Failed(StructReadError::Xml(e));
                assert(content_step_spec(fields@, allow_invalid, before, t0, events@[k as int], k as int) == failed);
                assert(content_fold(fields@, allow_invalid, events@, k + 1, failed) == failed);
                return Err(StructReadError::Xml(e));
            },
        }
        k = k + 1;
    }
    Err(StructReadError::Xml(XmlError::Eof))
}

} // verus!
