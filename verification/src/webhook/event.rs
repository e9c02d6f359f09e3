//! Webhook events and subscriptions.

use crate::webhook::json::{
    fields_view, json_object, json_object_text, serde_json_object, serde_json_object_text, JsonScalar,
    JsonScalarView,
};
use vstd::prelude::*;

verus! {

/// Something that happened to a calendar object or an address object.
#[derive(Debug, Clone)]
pub enum WebhookEvent {
    CalendarObjectUpsert { resource_id: String, object_uid: String, timestamp: i64, ics_data: String },
    CalendarObjectDelete { resource_id: String, object_uid: String, timestamp: i64 },
    CalendarObjectRestore { resource_id: String, object_uid: String, timestamp: i64 },
    AddressbookObjectUpsert { resource_id: String, object_uid: String, timestamp: i64, vcf_data: String },
    AddressbookObjectDelete { resource_id: String, object_uid: String, timestamp: i64 },
    AddressbookObjectRestore { resource_id: String, object_uid: String, timestamp: i64 },
}

/// A registration to receive the events of one resource at a URL.
#[derive(Debug, Clone)]
pub struct WebhookSubscription {
    pub id: String,
    pub resource_type: String,
    pub resource_id: String,
    pub target_url: String,
    pub secret_key: Option<String>,
}

/// The kind of change of an event: `Upsert`, `Delete` or `Restore`.
pub open spec fn event_type_spec(e: WebhookEvent) -> Seq<char> {
    match e {
        WebhookEvent::CalendarObjectUpsert { .. } | WebhookEvent::AddressbookObjectUpsert { .. } => "Upsert"@,
        WebhookEvent::CalendarObjectDelete { .. } | WebhookEvent::AddressbookObjectDelete { .. } => "Delete"@,
        WebhookEvent::CalendarObjectRestore { .. } | WebhookEvent::AddressbookObjectRestore { .. } => "Restore"@,
    }
}

/// Whether the event is about a calendar (else about an address book).
pub open spec fn is_calendar_event(e: WebhookEvent) -> bool {
    match e {
        WebhookEvent::CalendarObjectUpsert { .. }
        | WebhookEvent::CalendarObjectDelete { .. }
        | WebhookEvent::CalendarObjectRestore { .. } => true,
        _ => false,
    }
}

/// The kind of resource of an event: `calendar` or `addressbook`.
pub open spec fn resource_type_spec(e: WebhookEvent) -> Seq<char> {
    if is_calendar_event(e) {
        "calendar"@
    } else {
        "addressbook"@
    }
}

/// The resource the event is about.
pub open spec fn resource_id_spec(e: WebhookEvent) -> Seq<char> {
    match e {
        WebhookEvent::CalendarObjectUpsert { resource_id, .. } => resource_id@,
        WebhookEvent::CalendarObjectDelete { resource_id, .. } => resource_id@,
        WebhookEvent::CalendarObjectRestore { resource_id, .. } => resource_id@,
        WebhookEvent::AddressbookObjectUpsert { resource_id, .. } => resource_id@,
        WebhookEvent::AddressbookObjectDelete { resource_id, .. } => resource_id@,
        WebhookEvent::AddressbookObjectRestore { resource_id, .. } => resource_id@,
    }
}

/// The object the event is about.
pub open spec fn object_uid_spec(e: WebhookEvent) -> Seq<char> {
    match e {
        WebhookEvent::CalendarObjectUpsert { object_uid, .. } => object_uid@,
        WebhookEvent::CalendarObjectDelete { object_uid, .. } => object_uid@,
        WebhookEvent::CalendarObjectRestore { object_uid, .. } => object_uid@,
        WebhookEvent::AddressbookObjectUpsert { object_uid, .. } => object_uid@,
        WebhookEvent::AddressbookObjectDelete { object_uid, .. } => object_uid@,
        WebhookEvent::AddressbookObjectRestore { object_uid, .. } => object_uid@,
    }
}

/// When the event happened.
pub open spec fn timestamp_spec(e: WebhookEvent) -> i64 {
    match e {
        WebhookEvent::CalendarObjectUpsert { timestamp, .. } => timestamp,
        WebhookEvent::CalendarObjectDelete { timestamp, .. } => timestamp,
        WebhookEvent::CalendarObjectRestore { timestamp, .. } => timestamp,
        WebhookEvent::AddressbookObjectUpsert { timestamp, .. } => timestamp,
        WebhookEvent::AddressbookObjectDelete { timestamp, .. } => timestamp,
        WebhookEvent::AddressbookObjectRestore { timestamp, .. } => timestamp,
    }
}

/// The fields of the JSON payload of an event: its type, resource type,
/// resource, object and time, and for an upsert the full object data
/// (`ics_data` for a calendar object, `vcf_data` for an address object).
pub open spec fn payload_fields_spec(e: WebhookEvent) -> Seq<(Seq<char>, JsonScalarView)> {
    let common = seq![
        ("event_type"@, JsonScalarView::Str(event_type_spec(e))),
        ("resource_type"@, JsonScalarView::Str(resource_type_spec(e))),
        ("resource_id"@, JsonScalarView::Str(resource_id_spec(e))),
        ("object_uid"@, JsonScalarView::Str(object_uid_spec(e))),
        ("timestamp"@, JsonScalarView::Int(timestamp_spec(e))),
    ];
    match e {
        WebhookEvent::CalendarObjectUpsert { ics_data, .. } => common.push(("ics_data"@, JsonScalarView::Str(ics_data@))),
        WebhookEvent::AddressbookObjectUpsert { vcf_data, .. } => common.push(("vcf_data"@, JsonScalarView::Str(vcf_data@))),
        _ => common,
    }
}

fn str_field(key: &str, value: &str) -> (res: (String, JsonScalar))
    ensures
        res.0@ == key@,
        res.1@ == JsonScalarView::Str(value@),
{
    (key.to_owned(), JsonScalar::Str(value.to_owned()))
}

impl WebhookEvent {
    /// The kind of change: `Upsert`, `Delete` or `Restore`.
    pub fn event_type(&self) -> (res: &str)
        ensures
            res@ == event_type_spec(*self),
    {
        match self {
            WebhookEvent::CalendarObjectUpsert { .. } => "Upsert",
            WebhookEvent::CalendarObjectDelete { .. } => "Delete",
            WebhookEvent::CalendarObjectRestore { .. } => "Restore",
            WebhookEvent::AddressbookObjectUpsert { .. } => "Upsert",
            WebhookEvent::AddressbookObjectDelete { .. } => "Delete",
            WebhookEvent::AddressbookObjectRestore { .. } => "Restore",
        }
    }

    /// The kind of resource: `calendar` or `addressbook`.
    pub fn resource_type(&self) -> (res: &'static str)
        ensures
            res@ == resource_type_spec(*self),
    {
        match self {
            WebhookEvent::CalendarObjectUpsert { .. } => "calendar",
            WebhookEvent::CalendarObjectDelete { .. } => "calendar",
            WebhookEvent::CalendarObjectRestore { .. } => "calendar",
            WebhookEvent::AddressbookObjectUpsert { .. } => "addressbook",
            WebhookEvent::AddressbookObjectDelete { .. } => "addressbook",
            WebhookEvent::AddressbookObjectRestore { .. } => "addressbook",
        }
    }

    /// The resource the event is about.
    pub fn resource_id(&self) -> (res: &str)
        ensures
            res@ == resource_id_spec(*self),
    {
        match self {
            WebhookEvent::CalendarObjectUpsert { resource_id, .. } => resource_id.as_str(),
            WebhookEvent::CalendarObjectDelete { resource_id, .. } => resource_id.as_str(),
            WebhookEvent::CalendarObjectRestore { resource_id, .. } => resource_id.as_str(),
            WebhookEvent::AddressbookObjectUpsert { resource_id, .. } => resource_id.as_str(),
            WebhookEvent::AddressbookObjectDelete { resource_id, .. } => resource_id.as_str(),
            WebhookEvent::AddressbookObjectRestore { resource_id, .. } => resource_id.as_str(),
        }
    }

    /// The object the event is about.
    pub fn object_uid(&self) -> (res: &str)
        ensures
            res@ == object_uid_spec(*self),
    {
        match self {
            WebhookEvent::CalendarObjectUpsert { object_uid, .. } => object_uid.as_str(),
            WebhookEvent::CalendarObjectDelete { object_uid, .. } => object_uid.as_str(),
            WebhookEvent::CalendarObjectRestore { object_uid, .. } => object_uid.as_str(),
            WebhookEvent::AddressbookObjectUpsert { object_uid, .. } => object_uid.as_str(),
            WebhookEvent::AddressbookObjectDelete { object_uid, .. } => object_uid.as_str(),
            WebhookEvent::AddressbookObjectRestore { object_uid, .. } => object_uid.as_str(),
        }
    }

    /// When the event happened.
    pub fn timestamp(&self) -> (res: i64)
        ensures
            res == timestamp_spec(*self),
    {
        match self {
            WebhookEvent::CalendarObjectUpsert { timestamp, .. } => *timestamp,
            WebhookEvent::CalendarObjectDelete { timestamp, .. } => *timestamp,
            WebhookEvent::CalendarObjectRestore { timestamp, .. } => *timestamp,
            WebhookEvent::AddressbookObjectUpsert { timestamp, .. } => *timestamp,
            WebhookEvent::AddressbookObjectDelete { timestamp, .. } => *timestamp,
            WebhookEvent::AddressbookObjectRestore { timestamp, .. } => *timestamp,
        }
    }

    /// The fields of the JSON payload, in the order they are written.
    pub fn payload_fields(&self) -> (res: Vec<(String, JsonScalar)>)
        ensures
            fields_view(res@) == payload_fields_spec(*self),
    {
        let mut v: Vec<(String, JsonScalar)> = Vec::new();
        v.push(str_field("event_type", self.event_type()));
        v.push(str_field("resource_type", self.resource_type()));
        v.push(str_field("resource_id", self.resource_id()));
        v.push(str_field("object_uid", self.object_uid()));
        v.push(("timestamp".to_owned(), JsonScalar::Int(self.timestamp())));
        match self {
            WebhookEvent::CalendarObjectUpsert { ics_data, .. } => {
                v.push(str_field("ics_data", ics_data.as_str()));
            },
            WebhookEvent::AddressbookObjectUpsert { vcf_data, .. } => {
                v.push(str_field("vcf_data", vcf_data.as_str()));
            },
            _ => {},
        }
        assert(fields_view(v@) =~= payload_fields_spec(*self));
        v
    }

    /// The webhook JSON payload with all required fields.
    pub fn to_payload_json(&self) -> (res: serde_json::Value)
        ensures
            res == serde_json_object(payload_fields_spec(*self)),
    {
        let fields = self.payload_fields();
        json_object(&fields)
    }

    /// The text of the webhook JSON payload, as it is sent and signed.
    pub fn payload_text(&self) -> (res: String)
        ensures
            res@ == serde_json_object_text(payload_fields_spec(*self)),
    {
        let fields = self.payload_fields();
        json_object_text(&fields)
    }
}

/// Whether the payload fields carry the key `key` with the value `value`.
pub open spec fn has_field(fields: Seq<(Seq<char>, JsonScalarView)>, key: Seq<char>, value: JsonScalarView) -> bool {
    exists|i: int| 0 <= i < fields.len() && #[trigger] fields[i] == (key, value)
}

/// Whether no payload field carries the key `key`.
pub open spec fn lacks_key(fields: Seq<(Seq<char>, JsonScalarView)>, key: Seq<char>) -> bool {
    forall|i: int| 0 <= i < fields.len() ==> (#[trigger] fields[i]).0 != key
}

/// Every event is about a calendar object or an address object: the
/// calendar-object events (upsert, delete, restore) have the resource type
/// `calendar`, the address-object events `addressbook`; upserts are of type
/// `Upsert`, deletions `Delete` and restorations `Restore`.
pub proof fn law_event_kinds(e: WebhookEvent)
    ensures
        resource_type_spec(e) == "calendar"@ <==> (e is CalendarObjectUpsert || e is CalendarObjectDelete
            || e is CalendarObjectRestore),
        resource_type_spec(e) == "addressbook"@ <==> (e is AddressbookObjectUpsert || e is AddressbookObjectDelete
            || e is AddressbookObjectRestore),
        event_type_spec(e) == "Upsert"@ <==> (e is CalendarObjectUpsert || e is AddressbookObjectUpsert),
        event_type_spec(e) == "Delete"@ <==> (e is CalendarObjectDelete || e is AddressbookObjectDelete),
        event_type_spec(e) == "Restore"@ <==> (e is CalendarObjectRestore || e is AddressbookObjectRestore),
{
    reveal_strlit("calendar");
    reveal_strlit("addressbook");
    reveal_strlit("Upsert");
    reveal_strlit("Delete");
    reveal_strlit("Restore");
    assert("calendar"@ != "addressbook"@) by {
        assert("calendar"@[0] != "addressbook"@[0]);
    }
    assert("Upsert"@ != "Delete"@) by {
        assert("Upsert"@[0] != "Delete"@[0]);
    }
    assert("Upsert"@ != "Restore"@) by {
        assert("Upsert"@[0] != "Restore"@[0]);
    }
    assert("Delete"@ != "Restore"@) by {
        assert("Delete"@[0] != "Restore"@[0]);
    }
}

/// The payload of an event names it: the fields `event_type`,
/// `resource_type`, `resource_id`, `object_uid` and `timestamp` carry the
/// event's kind, resource type, resource, object and time; the payload of a
/// calendar object upsert carries the calendar data under `ics_data` and
/// has no `vcf_data`, that of an address object upsert carries the card
/// data under `vcf_data` and has no `ics_data`, and other events carry
/// neither; there are no other fields, and no key occurs twice.
pub proof fn law_payload_fields(e: WebhookEvent)
    ensures
        has_field(payload_fields_spec(e), "event_type"@, JsonScalarView::Str(event_type_spec(e))),
        has_field(payload_fields_spec(e), "resource_type"@, JsonScalarView::Str(resource_type_spec(e))),
        has_field(payload_fields_spec(e), "resource_id"@, JsonScalarView::Str(resource_id_spec(e))),
        has_field(payload_fields_spec(e), "object_uid"@, JsonScalarView::Str(object_uid_spec(e))),
        has_field(payload_fields_spec(e), "timestamp"@, JsonScalarView::Int(timestamp_spec(e))),
        match e {
            WebhookEvent::CalendarObjectUpsert { ics_data, .. } => has_field(payload_fields_spec(e), "ics_data"@,
                JsonScalarView::Str(ics_data@)) && lacks_key(payload_fields_spec(e), "vcf_data"@),
            WebhookEvent::AddressbookObjectUpsert { vcf_data, .. } => has_field(payload_fields_spec(e), "vcf_data"@,
                JsonScalarView::Str(vcf_data@)) && lacks_key(payload_fields_spec(e), "ics_data"@),
            _ => lacks_key(payload_fields_spec(e), "ics_data"@) && lacks_key(payload_fields_spec(e), "vcf_data"@),
        },
        payload_fields_spec(e).len() == if e is CalendarObjectUpsert || e is AddressbookObjectUpsert { 6int } else { 5int },
        forall|i: int, j: int|
            0 <= i < j < payload_fields_spec(e).len() ==> (#[trigger] payload_fields_spec(e)[i]).0
                != (#[trigger] payload_fields_spec(e)[j]).0,
{
    reveal_strlit("event_type");
    reveal_strlit("resource_type");
    reveal_strlit("resource_id");
    reveal_strlit("object_uid");
    reveal_strlit("timestamp");
    reveal_strlit("ics_data");
    reveal_strlit("vcf_data");
    let f = payload_fields_spec(e);
    assert(f[0] == ("event_type"@, JsonScalarView::Str(event_type_spec(e))));
    assert(f[1] == ("resource_type"@, JsonScalarView::Str(resource_type_spec(e))));
    assert(f[2] == ("resource_id"@, JsonScalarView::Str(resource_id_spec(e))));
    assert(f[3] == ("object_uid"@, JsonScalarView::Str(object_uid_spec(e))));
    assert(f[4] == ("timestamp"@, JsonScalarView::Int(timestamp_spec(e))));
    assert("ics_data"@[0] != "vcf_data"@[0]);
    assert("event_type"@[0] != "vcf_data"@[0] && "event_type"@[0] != "ics_data"@[0]);
    assert("resource_type"@[0] != "vcf_data"@[0] && "resource_type"@[0] != "ics_data"@[0]);
    assert("resource_id"@[0] != "vcf_data"@[0] && "resource_id"@[0] != "ics_data"@[0]);
    assert("object_uid"@[0] != "vcf_data"@[0] && "object_uid"@[0] != "ics_data"@[0]);
    assert("timestamp"@[0] != "vcf_data"@[0] && "timestamp"@[0] != "ics_data"@[0]);
    assert("resource_type"@[9] != "resource_id"@[9]);
    assert("event_type"@[0] != "resource_type"@[0] && "event_type"@[0] != "resource_id"@[0]
        && "event_type"@[0] != "object_uid"@[0] && "event_type"@[0] != "timestamp"@[0]);
    assert("resource_type"@[0] != "object_uid"@[0] && "resource_type"@[0] != "timestamp"@[0]);
    assert("resource_id"@[0] != "object_uid"@[0] && "resource_id"@[0] != "timestamp"@[0]);
    assert("object_uid"@[0] != "timestamp"@[0]);
    match e {
        WebhookEvent::CalendarObjectUpsert { ics_data, .. } => {
            assert(f[5] == ("ics_data"@, JsonScalarView::Str(ics_data@)));
        },
        WebhookEvent::AddressbookObjectUpsert { vcf_data, .. } => {
            assert(f[5] == ("vcf_data"@, JsonScalarView::Str(vcf_data@)));
        },
        _ => {},
    }
}

/// The resource, object and time of an event are those it was made with.
pub proof fn law_event_fields(e: WebhookEvent)
    ensures
        match e {
            WebhookEvent::CalendarObjectUpsert { resource_id, object_uid, timestamp, .. } => resource_id_spec(e)
                == resource_id@ && object_uid_spec(e) == object_uid@ && timestamp_spec(e) == timestamp,
            WebhookEvent::CalendarObjectDelete { resource_id, object_uid, timestamp } => resource_id_spec(e)
                == resource_id@ && object_uid_spec(e) == object_uid@ && timestamp_spec(e) == timestamp,
            WebhookEvent::CalendarObjectRestore { resource_id, object_uid, timestamp } => resource_id_spec(e)
                == resource_id@ && object_uid_spec(e) == object_uid@ && timestamp_spec(e) == timestamp,
            WebhookEvent::AddressbookObjectUpsert { resource_id, object_uid, timestamp, .. } => resource_id_spec(e)
                == resource_id@ && object_uid_spec(e) == object_uid@ && timestamp_spec(e) == timestamp,
            WebhookEvent::AddressbookObjectDelete { resource_id, object_uid, timestamp } => resource_id_spec(e)
                == resource_id@ && object_uid_spec(e) == object_uid@ && timestamp_spec(e) == timestamp,
            WebhookEvent::AddressbookObjectRestore { resource_id, object_uid, timestamp } => resource_id_spec(e)
                == resource_id@ && object_uid_spec(e) == object_uid@ && timestamp_spec(e) == timestamp,
        },
{
}

} // verus!
