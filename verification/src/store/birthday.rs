//! Birthday calendars: a read-only calendar for each address book, under
//! the id of the address book with a prefix.

use crate::store::calendar::{Calendar, CalendarMetadata, CalendarObjectType};
use crate::store::error::StoreError;
use crate::text::{concat, hex_lower, rsplit_once, rsplit_once_spec, strip_prefix, strip_prefix_spec, to_hex_lower};
use sha2::Digest;
use vstd::prelude::*;
use vstd::utf8::encode_utf8;

verus! {

/// An address book.
#[derive(Debug, Clone)]
pub struct Addressbook {
    pub principal: String,
    pub id: String,
    pub synctoken: i64,
    pub displayname: Option<String>,
    pub description: Option<String>,
    pub deleted_at: Option<i64>,
    pub push_topic: String,
}

/// The prefix of the ids of birthday calendars.
pub const BIRTHDAYS_PREFIX: &'static str = "_birthdays_";

/// The SHA-256 digest of `data`.
pub uninterp spec fn sha256(data: Seq<u8>) -> Seq<u8>;

/// Computes a SHA-256 digest with `sha2::Sha256::digest`. The contract says
/// that the digest depends on the data alone and has 32 bytes.
#[verifier::external_body]
fn sha256_digest(data: &[u8]) -> (res: Vec<u8>)
    ensures
        res@ == sha256(data@),
        res@.len() == 32,
{
    sha2::Sha256::digest(data).to_vec()
}

/// The push topic of the birthday calendar of an address book whose push
/// topic is `topic`: the hexadecimal SHA-256 digest of `birthdays` followed by it.
pub open spec fn birthday_push_topic(topic: Seq<char>) -> Seq<char> {
    hex_lower(sha256(encode_utf8("birthdays"@) + encode_utf8(topic)))
}

/// The name of the birthday calendar of an address book named `name`.
pub open spec fn birthday_name(name: Seq<char>) -> Seq<char> {
    name + " birthdays"@
}

/// The birthday calendar that an address book starts with: named after the
/// address book, holding events only, with its own push topic, under the
/// address book's id with the birthday prefix.
pub fn default_birthday_calendar(addressbook: Addressbook) -> (res: Calendar)
    ensures
        res.principal == addressbook.principal,
        res.id@ == "_birthdays_"@ + addressbook.id@,
        match addressbook.displayname {
            Some(n) => res.meta.displayname matches Some(d) && d@ == birthday_name(n@),
            None => res.meta.displayname is None,
        },
        res.meta.order == 0,
        res.meta.description is None,
        res.meta.color is None,
        res.timezone is None,
        res.timezone_id is None,
        res.deleted_at is None,
        res.synctoken == 0,
        res.subscription_url is None,
        res.push_topic@ == birthday_push_topic(addressbook.push_topic@),
        res.components@ == seq![CalendarObjectType::Event],
{
    let birthday_name = match &addressbook.displayname {
        Some(name) => Some(concat(name.as_str(), " birthdays")),
        None => None,
    };
    let mut data = vstd::slice::slice_to_vec("birthdays".as_bytes());
    let topic = addressbook.push_topic.as_str().as_bytes();
    let ghost start = data@;
    let mut i: usize = 0;
    while i < topic.len()
        invariant
            i <= topic@.len(),
            data@ == start + topic@.take(i as int),
        decreases topic@.len() - i,
    {
        data.push(topic[i]);
        assert(data@ =~= start + topic@.take(i + 1));
        i = i + 1;
    }
    assert(topic@.take(topic@.len() as int) =~= topic@);
    let digest = sha256_digest(data.as_slice());
    let push_topic = to_hex_lower(digest.as_slice());
    let mut components: Vec<CalendarObjectType> = Vec::new();
    components.push(CalendarObjectType::Event);
    assert(components@ =~= seq![CalendarObjectType::Event]);
    Calendar {
        principal: addressbook.principal,
        id: concat(BIRTHDAYS_PREFIX, addressbook.id.as_str()),
        meta: CalendarMetadata { displayname: birthday_name, order: 0, description: None, color: None },
        timezone: None,
        timezone_id: None,
        deleted_at: None,
        synctoken: 0,
        subscription_url: None,
        push_topic,
        components,
    }
}

/// A birthday calendar joined with the synchronisation token of its address book.
#[derive(Debug, Clone)]
pub struct BirthdayCalendarJoinRow {
    pub principal: String,
    pub id: String,
    pub displayname: Option<String>,
    pub description: Option<String>,
    pub order: i64,
    pub color: Option<String>,
    pub timezone_id: Option<String>,
    pub deleted_at: Option<i64>,
    pub push_topic: String,
    pub addr_synctoken: i64,
}

/// The calendar a birthday calendar row stands for: under the prefixed id,
/// holding events, and synchronised with its address book.
pub fn calendar_from_birthday_row(row: BirthdayCalendarJoinRow) -> (res: Calendar)
    ensures
        res.principal == row.principal,
        res.id@ == "_birthdays_"@ + row.id@,
        res.meta.displayname == row.displayname,
        res.meta.order == row.order,
        res.meta.description == row.description,
        res.meta.color == row.color,
        res.timezone is None,
        res.timezone_id == row.timezone_id,
        res.deleted_at == row.deleted_at,
        res.synctoken == row.addr_synctoken,
        res.subscription_url is None,
        res.push_topic == row.push_topic,
        res.components@ == seq![CalendarObjectType::Event],
{
    let mut components: Vec<CalendarObjectType> = Vec::new();
    components.push(CalendarObjectType::Event);
    assert(components@ =~= seq![CalendarObjectType::Event]);
    Calendar {
        principal: row.principal,
        id: concat(BIRTHDAYS_PREFIX, row.id.as_str()),
        meta: CalendarMetadata {
            displayname: row.displayname,
            order: row.order,
            description: row.description,
            color: row.color,
        },
        timezone: None,
        timezone_id: row.timezone_id,
        deleted_at: row.deleted_at,
        synctoken: row.addr_synctoken,
        subscription_url: None,
        push_topic: row.push_topic,
        components,
    }
}

/// The address book id behind a birthday calendar id; a calendar id without
/// the birthday prefix names no birthday calendar.
pub fn addressbook_id_of(cal_id: &str) -> (res: Result<String, StoreError>)
    ensures
        match strip_prefix_spec(cal_id@, "_birthdays_"@) {
            Some(r) => res matches Ok(x) && x@ == r,
            None => res == Err::<String, StoreError>(StoreError::NotFound),
        },
{
    match strip_prefix(cal_id, BIRTHDAYS_PREFIX) {
        Some(r) => Ok(r),
        None => Err(StoreError::NotFound),
    }
}

/// Where a birthday calendar object comes from: the address book, the
/// address object, and which of its dates the object is.
#[derive(Debug, Clone)]
pub struct BirthdayObjectRef {
    pub addressbook_id: String,
    pub addressobject_id: String,
    pub date_type: String,
}

/// Resolves the object `object_id` of the birthday calendar `cal_id`: the
/// object id is the address object id and the date type, joined by the
/// last `-`.
pub fn resolve_birthday_object(cal_id: &str, object_id: &str) -> (res: Result<BirthdayObjectRef, StoreError>)
    ensures
        match (strip_prefix_spec(cal_id@, "_birthdays_"@), rsplit_once_spec(object_id@, '-')) {
            (Some(a), Some((o, d))) => res matches Ok(r) && r.addressbook_id@ == a && r.addressobject_id@ == o
                && r.date_type@ == d,
            _ => res == Err::<BirthdayObjectRef, StoreError>(StoreError::NotFound),
        },
{
    let addressbook_id = match strip_prefix(cal_id, BIRTHDAYS_PREFIX) {
        Some(r) => r,
        None => return Err(StoreError::NotFound),
    };
    match rsplit_once(object_id, '-') {
        Some((o, d)) => Ok(BirthdayObjectRef { addressbook_id, addressobject_id: o, date_type: d }),
        None => Err(StoreError::NotFound),
    }
}

/// Prepares the update of a birthday calendar: the calendar is stored under
/// its id without the prefix; an id without the prefix names no birthday calendar.
pub fn birthday_calendar_for_update(id: &str, calendar: Calendar) -> (res: Result<Calendar, StoreError>)
    requires
        id@ == calendar.id@,
    ensures
        match strip_prefix_spec(calendar.id@, "_birthdays_"@) {
            Some(r) => res matches Ok(c) && c.id@ == r && c.principal == calendar.principal && c.meta
                == calendar.meta && c.timezone_id == calendar.timezone_id && c.push_topic == calendar.push_topic,
            None => res == Err::<Calendar, StoreError>(StoreError::NotFound),
        },
{
    let mut calendar = calendar;
    match strip_prefix(calendar.id.as_str(), BIRTHDAYS_PREFIX) {
        Some(r) => {
            calendar.id = r;
            Ok(calendar)
        },
        None => Err(StoreError::NotFound),
    }
}

/// What deleting a birthday calendar does: nothing for an id without the
/// prefix, otherwise delete the birthday calendar of that address book.
pub fn birthday_id_for_delete(id: &str) -> (res: Option<String>)
    ensures
        match strip_prefix_spec(id@, "_birthdays_"@) {
            Some(r) => res matches Some(x) && x@ == r,
            None => res is None,
        },
{
    strip_prefix(id, BIRTHDAYS_PREFIX)
}

/// Birthday calendars are read-only: writing objects to them, deleting or
/// restoring their objects, and importing calendars into them fail so.
pub fn birthday_write_error() -> (res: StoreError)
    ensures
        res == StoreError::ReadOnly,
{
    StoreError::ReadOnly
}


/// The birthday calendar of an address book is found under the address
/// book's id: stripping the birthday prefix from its id gives the address
/// book's id back.
pub proof fn law_birthday_id_roundtrip(addressbook_id: Seq<char>)
    ensures
        strip_prefix_spec("_birthdays_"@ + addressbook_id, "_birthdays_"@) == Some(addressbook_id),
{
    let p = "_birthdays_"@;
    let s = p + addressbook_id;
    assert(s.take(p.len() as int) =~= p);
    assert(s.skip(p.len() as int) =~= addressbook_id);
}

} // verus!
