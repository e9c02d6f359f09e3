//! Delivery of webhook events: which deliveries an event starts, and the
//! retries of a delivery with exponential backoff.

use crate::webhook::event::{WebhookEvent, WebhookSubscription, payload_fields_spec};
use crate::webhook::json::serde_json_object_text;
use crate::webhook::sign::{sign_payload, signature_spec};
use vstd::prelude::*;

verus! {

/// How many times a delivery is attempted at most.
pub const MAX_ATTEMPTS: u32 = 5;

/// The wait, in seconds, before the first retry.
pub const INITIAL_BACKOFF_SECS: u64 = 2;

/// A delivery in progress: where it goes, what it sends, how often it was
/// attempted, and how long to wait before the next retry.
#[derive(Debug, Clone)]
pub struct RetryItem {
    pub endpoint: String,
    pub payload: String,
    pub attempts: u32,
    pub max_attempts: u32,
    pub backoff_secs: u64,
}

/// How one attempt of a delivery ended.
#[derive(Debug, Clone, Copy, PartialEq, Eq, Structural)]
pub enum DeliveryOutcome {
    /// The endpoint answered with a success status.
    Success,
    /// The endpoint answered with another status, or could not be reached.
    Failure,
}

/// What follows an attempt.
#[derive(Debug, Clone, Copy, PartialEq, Eq, Structural)]
pub enum RetryDecision {
    /// The payload was delivered; stop.
    Delivered,
    /// All attempts failed; stop.
    GiveUp,
    /// Wait this many seconds, then attempt again.
    RetryAfter { wait_secs: u64 },
}

impl RetryItem {
    /// A fresh delivery: no attempt yet, at most five attempts, and two
    /// seconds before the first retry.
    pub fn new(endpoint: String, payload: String) -> (res: RetryItem)
        ensures
            res.endpoint == endpoint,
            res.payload == payload,
            res.attempts == 0,
            res.max_attempts == MAX_ATTEMPTS,
            res.backoff_secs == INITIAL_BACKOFF_SECS,
    {
        RetryItem { endpoint, payload, attempts: 0, max_attempts: MAX_ATTEMPTS, backoff_secs: INITIAL_BACKOFF_SECS }
    }
}

/// Takes the outcome of an attempt. A success ends the delivery. A failure
/// counts the attempt; when all attempts are used the delivery is given up,
/// otherwise the next attempt comes after the current backoff, and the
/// backoff doubles.
pub fn after_attempt(item: &mut RetryItem, outcome: DeliveryOutcome) -> (res: RetryDecision)
    requires
        outcome == DeliveryOutcome::Failure ==> old(item).attempts < u32::MAX,
        outcome == DeliveryOutcome::Failure && old(item).attempts + 1 < old(item).max_attempts
            ==> old(item).backoff_secs * 2 <= u64::MAX,
    ensures
        final(item).endpoint == old(item).endpoint,
        final(item).payload == old(item).payload,
        final(item).max_attempts == old(item).max_attempts,
        outcome == DeliveryOutcome::Success ==> res == RetryDecision::Delivered && *final(item) == *old(item),
        outcome == DeliveryOutcome::Failure ==> {
            &&& final(item).attempts == old(item).attempts + 1
            &&& if old(item).attempts + 1 >= old(item).max_attempts {
                res == RetryDecision::GiveUp && final(item).backoff_secs == old(item).backoff_secs
            } else {
                res == RetryDecision::RetryAfter { wait_secs: old(item).backoff_secs }
                    && final(item).backoff_secs == old(item).backoff_secs * 2
            }
        },
{
    match outcome {
        DeliveryOutcome::Success => RetryDecision::Delivered,
        DeliveryOutcome::Failure => {
            item.attempts = item.attempts + 1;
            if item.attempts >= item.max_attempts {
                RetryDecision::GiveUp
            } else {
                let wait = item.backoff_secs;
                item.backoff_secs = item.backoff_secs * 2;
                RetryDecision::RetryAfter { wait_secs: wait }
            }
        },
    }
}

/// The waits between attempts of a delivery that fails every time, from
/// `attempts` attempts made, `max` allowed, and a current backoff of `backoff`.
pub open spec fn failure_waits(attempts: nat, max: nat, backoff: nat) -> Seq<nat>
    decreases max - attempts,
{
    if attempts + 1 >= max {
        Seq::empty()
    } else {
        seq![backoff] + failure_waits(attempts + 1, max, backoff * 2)
    }
}

/// Exponential backoff: when every attempt of a fresh delivery fails, it is
/// attempted `max` times (once when `max` is zero), and the wait before the
/// `i`-th retry is the initial backoff times `2^i`.
pub proof fn law_exponential_backoff(max: nat, backoff: nat)
    ensures
        failure_waits(0, max, backoff).len() == if max == 0 { 0 } else { max - 1 },
        forall|i: int| 0 <= i < failure_waits(0, max, backoff).len()
            ==> #[trigger] failure_waits(0, max, backoff)[i] == backoff * vstd::arithmetic::power2::pow2(i as nat),
{
    lemma_failure_waits(0, max, backoff);
}

proof fn lemma_failure_waits(a: nat, max: nat, b: nat)
    ensures
        failure_waits(a, max, b).len() == if a + 1 >= max { 0 } else { max - a - 1 },
        forall|i: int| 0 <= i < failure_waits(a, max, b).len()
            ==> #[trigger] failure_waits(a, max, b)[i] == b * vstd::arithmetic::power2::pow2(i as nat),
    decreases max - a,
{
    if a + 1 < max {
        lemma_failure_waits(a + 1, max, b * 2);
        let rest = failure_waits(a + 1, max, b * 2);
        let w = failure_waits(a, max, b);
        assert forall|i: int| 0 <= i < w.len() implies #[trigger] w[i] == b * vstd::arithmetic::power2::pow2(i as nat) by {
            if i == 0 {
                vstd::arithmetic::power2::lemma2_to64();
                assert(w[0] == b);
                assert(b * vstd::arithmetic::power2::pow2(0) == b * 1);
            } else {
                assert(w[i] == rest[i - 1]);
                vstd::arithmetic::power2::lemma_pow2_unfold(i as nat);
                assert(rest[i - 1] == (b * 2) * vstd::arithmetic::power2::pow2((i - 1) as nat));
                assert(vstd::arithmetic::power2::pow2(i as nat) == 2 * vstd::arithmetic::power2::pow2((i - 1) as nat));
                vstd::arithmetic::mul::lemma_mul_is_associative(b as int, 2, vstd::arithmetic::power2::pow2((i - 1) as nat) as int);
            }
        }
    }
}

/// A delivery to start: the retry state and the signature header, if any.
#[derive(Debug, Clone)]
pub struct DeliveryJob {
    pub item: RetryItem,
    pub signature: Option<String>,
}

/// The deliveries that an event starts: one per subscription, in order, to
/// the subscription's URL, with the payload text, and signed exactly when
/// the subscription has a secret.
pub fn plan_deliveries(event: &WebhookEvent, subscriptions: &Vec<WebhookSubscription>) -> (res: Vec<DeliveryJob>)
    ensures
        res@.len() == subscriptions@.len(),
        forall|i: int| 0 <= i < res@.len() ==> {
            let job = #[trigger] res@[i];
            let sub = subscriptions@[i];
            &&& job.item.endpoint@ == sub.target_url@
            &&& job.item.payload@ == serde_json_object_text(payload_fields_spec(*event))
            &&& job.item.attempts == 0
            &&& job.item.max_attempts == MAX_ATTEMPTS
            &&& job.item.backoff_secs == INITIAL_BACKOFF_SECS
            &&& match sub.secret_key {
                Some(k) => job.signature matches Some(s) && s@ == signature_spec(job.item.payload@, k@),
                None => job.signature is None,
            }
        },
{
    let payload = event.payload_text();
    let mut jobs: Vec<DeliveryJob> = Vec::new();
    let mut i: usize = 0;
    while i < subscriptions.len()
        invariant
            i <= subscriptions@.len(),
            jobs@.len() == i,
            payload@ == serde_json_object_text(payload_fields_spec(*event)),
            forall|j: int| 0 <= j < i ==> {
                let job = #[trigger] jobs@[j];
                let sub = subscriptions@[j];
                &&& job.item.endpoint@ == sub.target_url@
                &&& job.item.payload@ == serde_json_object_text(payload_fields_spec(*event))
                &&& job.item.attempts == 0
                &&& job.item.max_attempts == MAX_ATTEMPTS
                &&& job.item.backoff_secs == INITIAL_BACKOFF_SECS
                &&& match sub.secret_key {
                    Some(k) => job.signature matches Some(s) && s@ == signature_spec(job.item.payload@, k@),
                    None => job.signature is None,
                }
            },
        decreases subscriptions@.len() - i,
    {
        let sub = &subscriptions[i];
        let signature = match &sub.secret_key {
            Some(secret) => Some(sign_payload(payload.as_str(), secret.as_str())),
            None => None,
        };
        let item = RetryItem::new(sub.target_url.clone(), payload.clone());
        jobs.push(DeliveryJob { item, signature });
        i = i + 1;
    }
    jobs
}

} // verus!
