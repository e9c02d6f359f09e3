//! The push notifications the stores send after a change.

use crate::store::birthday::Addressbook;
use crate::store::calendar::Calendar;
use vstd::prelude::*;

verus! {

/// What changed in a collection.
#[derive(Debug, Clone, Copy, PartialEq, Eq, Structural)]
pub enum CollectionOperationType {
    /// An object of the collection changed.
    Object,
    /// The collection was deleted.
    Delete,
}

/// The kind of collection.
#[derive(Debug, Clone, Copy, PartialEq, Eq, Structural)]
pub enum CollectionOperationDomain {
    Calendar,
    Addressbook,
}

/// A notification sent to the subscribers of a collection's push topic.
#[derive(Debug, Clone)]
pub struct CollectionOperation {
    pub op_type: CollectionOperationType,
    pub domain: CollectionOperationDomain,
    pub topic: String,
    pub sync_token: Option<String>,
}

/// The notification after deleting a calendar: a deletion on the
/// calendar's push topic when the calendar existed, none otherwise.
pub fn calendar_deleted_notice(calendar: Option<Calendar>) -> (res: Option<CollectionOperation>)
    ensures
        match calendar {
            Some(c) => res matches Some(op) && op.op_type == CollectionOperationType::Delete
                && op.domain == CollectionOperationDomain::Calendar && op.topic == c.push_topic
                && op.sync_token is None,
            None => res is None,
        },
{
    match calendar {
        Some(c) => Some(CollectionOperation {
            op_type: CollectionOperationType::Delete,
            domain: CollectionOperationDomain::Calendar,
            topic: c.push_topic,
            sync_token: None,
        }),
        None => None,
    }
}

/// The notification after an object of a calendar was written, deleted or
/// restored: an object change on the calendar's push topic with the new
/// synchronisation token.
pub fn calendar_object_notice(topic: String, sync_token: String) -> (res: CollectionOperation)
    ensures
        res.op_type == CollectionOperationType::Object,
        res.domain == CollectionOperationDomain::Calendar,
        res.topic == topic,
        res.sync_token == Some(sync_token),
{
    CollectionOperation {
        op_type: CollectionOperationType::Object,
        domain: CollectionOperationDomain::Calendar,
        topic,
        sync_token: Some(sync_token),
    }
}

/// The notification after deleting an address book: a deletion on the
/// address book's push topic when the address book existed, none otherwise.
pub fn addressbook_deleted_notice(addressbook: Option<Addressbook>) -> (res: Option<CollectionOperation>)
    ensures
        match addressbook {
            Some(a) => res matches Some(op) && op.op_type == CollectionOperationType::Delete
                && op.domain == CollectionOperationDomain::Addressbook && op.topic == a.push_topic
                && op.sync_token is None,
            None => res is None,
        },
{
    match addressbook {
        Some(a) => Some(CollectionOperation {
            op_type: CollectionOperationType::Delete,
            domain: CollectionOperationDomain::Addressbook,
            topic: a.push_topic,
            sync_token: None,
        }),
        None => None,
    }
}

/// The notification after an object of an address book was written,
/// deleted or restored: a content change on the address book's push topic
/// with the new synchronisation token.
pub fn addressbook_object_notice(topic: String, sync_token: String) -> (res: CollectionOperation)
    ensures
        res.op_type == CollectionOperationType::Object,
        res.domain == CollectionOperationDomain::Addressbook,
        res.topic == topic,
        res.sync_token == Some(sync_token),
{
    CollectionOperation {
        op_type: CollectionOperationType::Object,
        domain: CollectionOperationDomain::Addressbook,
        topic,
        sync_token: Some(sync_token),
    }
}

} // verus!
