//! Calendars and address books as the stores keep them, and the birthday
//! calendars derived from address books.

use vstd::prelude::*;

verus! {

/// The kinds of calendar components a calendar may hold.
#[derive(Debug, Clone, Copy, PartialEq, Eq, Structural)]
pub enum CalendarObjectType {
    Event,
    Todo,
    Journal,
}

/// The descriptive properties of a calendar.
#[derive(Debug, Clone)]
pub struct CalendarMetadata {
    pub displayname: Option<String>,
    pub order: i64,
    pub description: Option<String>,
    pub color: Option<String>,
}

/// A calendar. `deleted_at` is the time it was moved to the trash bin, in
/// seconds since the epoch.
#[derive(Debug, Clone)]
pub struct Calendar {
    pub principal: String,
    pub id: String,
    pub meta: CalendarMetadata,
    pub timezone: Option<String>,
    pub timezone_id: Option<String>,
    pub deleted_at: Option<i64>,
    pub synctoken: i64,
    pub subscription_url: Option<String>,
    pub push_topic: String,
    pub components: Vec<CalendarObjectType>,
}

/// A row of the calendars table.
#[derive(Debug, Clone)]
pub struct CalendarRow {
    pub principal: String,
    pub id: String,
    pub displayname: Option<String>,
    pub order: i64,
    pub description: Option<String>,
    pub color: Option<String>,
    pub timezone: Option<String>,
    pub timezone_id: Option<String>,
    pub deleted_at: Option<i64>,
    pub synctoken: i64,
    pub subscription_url: Option<String>,
    pub push_topic: String,
    pub comp_event: bool,
    pub comp_todo: bool,
    pub comp_journal: bool,
}

/// The components a calendar row enables, in the order events, to-dos, journals.
pub open spec fn components_of_flags(event: bool, todo: bool, journal: bool) -> Seq<CalendarObjectType> {
    let a = if event { seq![CalendarObjectType::Event] } else { Seq::empty() };
    let b = if todo { a.push(CalendarObjectType::Todo) } else { a };
    if journal { b.push(CalendarObjectType::Journal) } else { b }
}

/// The calendar a row stands for.
pub fn calendar_from_row(row: CalendarRow) -> (res: Calendar)
    ensures
        res.principal == row.principal,
        res.id == row.id,
        res.meta.displayname == row.displayname,
        res.meta.order == row.order,
        res.meta.description == row.description,
        res.meta.color == row.color,
        res.timezone == row.timezone,
        res.timezone_id == row.timezone_id,
        res.deleted_at == row.deleted_at,
        res.synctoken == row.synctoken,
        res.subscription_url == row.subscription_url,
        res.push_topic == row.push_topic,
        res.components@ == components_of_flags(row.comp_event, row.comp_todo, row.comp_journal),
{
    let mut components: Vec<CalendarObjectType> = Vec::new();
    if row.comp_event {
        components.push(CalendarObjectType::Event);
    }
    if row.comp_todo {
        components.push(CalendarObjectType::Todo);
    }
    if row.comp_journal {
        components.push(CalendarObjectType::Journal);
    }
    assert(components@ =~= components_of_flags(row.comp_event, row.comp_todo, row.comp_journal));
    Calendar {
        principal: row.principal,
        id: row.id,
        meta: CalendarMetadata {
            displayname: row.displayname,
            order: row.order,
            description: row.description,
            color: row.color,
        },
        timezone: row.timezone,
        timezone_id: row.timezone_id,
        deleted_at: row.deleted_at,
        synctoken: row.synctoken,
        subscription_url: row.subscription_url,
        push_topic: row.push_topic,
        components,
    }
}

fn contains_component(components: &Vec<CalendarObjectType>, t: CalendarObjectType) -> (res: bool)
    ensures
        res == components@.contains(t),
{
    let mut i: usize = 0;
    while i < components.len()
        invariant
            i <= components@.len(),
            forall|j: int| 0 <= j < i ==> components@[j] != t,
        decreases components@.len() - i,
    {
        if components[i] == t {
            return true;
        }
        i = i + 1;
    }
    false
}

/// The flags stored for a calendar's components: whether it holds events,
/// to-dos and journals.
pub fn component_flags(components: &Vec<CalendarObjectType>) -> (res: (bool, bool, bool))
    ensures
        res.0 == components@.contains(CalendarObjectType::Event),
        res.1 == components@.contains(CalendarObjectType::Todo),
        res.2 == components@.contains(CalendarObjectType::Journal),
{
    (
        contains_component(components, CalendarObjectType::Event),
        contains_component(components, CalendarObjectType::Todo),
        contains_component(components, CalendarObjectType::Journal),
    )
}

/// Storing the components of a calendar read from a row gives back the row's flags.
pub proof fn law_component_flags_roundtrip(event: bool, todo: bool, journal: bool)
    ensures
        components_of_flags(event, todo, journal).contains(CalendarObjectType::Event) == event,
        components_of_flags(event, todo, journal).contains(CalendarObjectType::Todo) == todo,
        components_of_flags(event, todo, journal).contains(CalendarObjectType::Journal) == journal,
{
    let a = if event { seq![CalendarObjectType::Event] } else { Seq::<CalendarObjectType>::empty() };
    let b = if todo { a.push(CalendarObjectType::Todo) } else { a };
    let c = if journal { b.push(CalendarObjectType::Journal) } else { b };
    if event {
        assert(c[0] == CalendarObjectType::Event);
    }
    if todo {
        assert(b[b.len() - 1] == CalendarObjectType::Todo);
        assert(c[b.len() - 1] == CalendarObjectType::Todo);
    }
    if journal {
        assert(c[c.len() - 1] == CalendarObjectType::Journal);
    }
    assert(forall|i: int| 0 <= i < a.len() ==> a[i] == CalendarObjectType::Event);
    assert(forall|i: int| 0 <= i < b.len() ==> b[i] == CalendarObjectType::Event || b[i] == CalendarObjectType::Todo);
    assert(todo ==> forall|i: int| 0 <= i < a.len() ==> #[trigger] b[i] == a[i]);
    assert(journal ==> forall|i: int| 0 <= i < b.len() ==> #[trigger] c[i] == b[i]);
    assert(!event ==> forall|i: int| 0 <= i < c.len() ==> c[i] != CalendarObjectType::Event);
    assert(!todo ==> forall|i: int| 0 <= i < c.len() ==> c[i] != CalendarObjectType::Todo);
}

} // verus!
