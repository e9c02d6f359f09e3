//! What the webhook subscription endpoints decide: the subscription an
//! upsert request stores, and the status and body each request answers with.

use crate::webhook::event::WebhookSubscription;
use vstd::prelude::*;

verus! {

/// The body of a request that creates or replaces a subscription.
#[derive(Debug, Clone)]
pub struct UpsertPayload {
    pub id: Option<String>,
    pub target_url: String,
    pub resource_type: String,
    pub resource_id: String,
    pub secret_key: Option<String>,
}

/// The subscription an upsert request stores: the request's fields, under
/// the request's id, or under `fresh_id` when the request has none.
pub fn subscription_from_payload(payload: UpsertPayload, fresh_id: String) -> (res: WebhookSubscription)
    ensures
        res.id == match payload.id {
            Some(id) => id,
            None => fresh_id,
        },
        res.target_url == payload.target_url,
        res.resource_type == payload.resource_type,
        res.resource_id == payload.resource_id,
        res.secret_key == payload.secret_key,
{
    let id = match payload.id {
        Some(id) => id,
        None => fresh_id,
    };
    WebhookSubscription {
        id,
        target_url: payload.target_url,
        resource_type: payload.resource_type,
        resource_id: payload.resource_id,
        secret_key: payload.secret_key,
    }
}

/// The answer to an upsert request.
#[derive(Debug, Clone)]
pub struct UpsertResponse {
    /// The HTTP status.
    pub status: u16,
    /// The id the subscription is stored under.
    pub id: String,
    /// Whether a subscription of that id existed before.
    pub updated: bool,
    /// `updated` or `created`.
    pub status_text: &'static str,
}

/// Answers an upsert request: `200 OK` and `updated` when a subscription of
/// that id existed, `201 Created` and `created` otherwise.
pub fn upsert_response(id: String, already_exists: bool) -> (res: UpsertResponse)
    ensures
        res.id == id,
        res.updated == already_exists,
        already_exists ==> res.status == 200 && res.status_text@ == "updated"@,
        !already_exists ==> res.status == 201 && res.status_text@ == "created"@,
{
    if already_exists {
        UpsertResponse { status: 200, id, updated: true, status_text: "updated" }
    } else {
        UpsertResponse { status: 201, id, updated: false, status_text: "created" }
    }
}

/// The answer to a delete request: `204 No Content` with the text `Unregistered`.
pub fn delete_response() -> (res: (u16, &'static str))
    ensures
        res.0 == 204,
        res.1@ == "Unregistered"@,
{
    (204, "Unregistered")
}

} // verus!
