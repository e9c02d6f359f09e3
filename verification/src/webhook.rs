//! Webhooks: the events that are published about calendar and address book
//! objects, their JSON payload and signature, and how deliveries are retried.

pub mod event;
pub mod json;
pub mod sign;
pub mod delivery;
pub mod endpoints;
