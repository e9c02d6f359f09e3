use rustical::webhook::delivery::{
    after_attempt, plan_deliveries, DeliveryOutcome, RetryDecision, RetryItem, INITIAL_BACKOFF_SECS, MAX_ATTEMPTS,
};
use rustical::webhook::endpoints::{delete_response, subscription_from_payload, upsert_response, UpsertPayload};
use rustical::webhook::event::{WebhookEvent, WebhookSubscription};
use rustical::webhook::json::JsonScalar;
use rustical::webhook::sign::sign_payload;

fn upsert() -> WebhookEvent {
    WebhookEvent::CalendarObjectUpsert {
        resource_id: "cal".to_string(),
        object_uid: "obj".to_string(),
        timestamp: 1700000000,
        ics_data: "BEGIN:VCALENDAR".to_string(),
    }
}

fn delete_contact() -> WebhookEvent {
    WebhookEvent::AddressbookObjectDelete { resource_id: "book".to_string(), object_uid: "card".to_string(), timestamp: -5 }
}

#[test]
fn event_accessors() {
    let e = upsert();
    assert_eq!(e.event_type(), "Upsert");
    assert_eq!(e.resource_type(), "calendar");
    assert_eq!(e.resource_id(), "cal");
    assert_eq!(e.object_uid(), "obj");
    assert_eq!(e.timestamp(), 1700000000);
    let d = delete_contact();
    assert_eq!(d.event_type(), "Delete");
    assert_eq!(d.resource_type(), "addressbook");
    let r = WebhookEvent::AddressbookObjectRestore { resource_id: "b".into(), object_uid: "o".into(), timestamp: 0 };
    assert_eq!(r.event_type(), "Restore");
}

#[test]
fn payload_fields_and_json() {
    let e = upsert();
    let fields = e.payload_fields();
    assert_eq!(
        fields,
        vec![
            ("event_type".to_string(), JsonScalar::Str("Upsert".into())),
            ("resource_type".to_string(), JsonScalar::Str("calendar".into())),
            ("resource_id".to_string(), JsonScalar::Str("cal".into())),
            ("object_uid".to_string(), JsonScalar::Str("obj".into())),
            ("timestamp".to_string(), JsonScalar::Int(1700000000)),
            ("ics_data".to_string(), JsonScalar::Str("BEGIN:VCALENDAR".into())),
        ]
    );
    let expected: serde_json::Value = serde_json::from_str(
        r#"{"event_type":"Upsert","resource_type":"calendar","resource_id":"cal","object_uid":"obj","timestamp":1700000000,"ics_data":"BEGIN:VCALENDAR"}"#,
    )
    .unwrap();
    assert_eq!(e.to_payload_json(), expected);
    let text: serde_json::Value = serde_json::from_str(&e.payload_text()).unwrap();
    assert_eq!(text, expected);

    let d = delete_contact();
    assert_eq!(d.payload_fields().len(), 5);
    let expected: serde_json::Value = serde_json::from_str(
        r#"{"event_type":"Delete","resource_type":"addressbook","resource_id":"book","object_uid":"card","timestamp":-5}"#,
    )
    .unwrap();
    assert_eq!(d.to_payload_json(), expected);
}

#[test]
fn signature_is_base64_hmac_sha256() {
    assert_eq!(sign_payload("what do ya want for nothing?", "Jefe"), "W9zBRr9gdU5qBCQmCJV1x1oAPwidJzmDnexYuWTsOEM=");
}

#[test]
fn deliveries_are_signed_when_a_secret_is_set() {
    let subs = vec![
        WebhookSubscription {
            id: "1".into(),
            resource_type: "calendar".into(),
            resource_id: "cal".into(),
            target_url: "http://a".into(),
            secret_key: Some("Jefe".into()),
        },
        WebhookSubscription {
            id: "2".into(),
            resource_type: "calendar".into(),
            resource_id: "cal".into(),
            target_url: "http://b".into(),
            secret_key: None,
        },
    ];
    let e = upsert();
    let jobs = plan_deliveries(&e, &subs);
    assert_eq!(jobs.len(), 2);
    assert_eq!(jobs[0].item.endpoint, "http://a");
    assert_eq!(jobs[0].item.payload, e.payload_text());
    assert_eq!(jobs[0].signature, Some(sign_payload(&e.payload_text(), "Jefe")));
    assert_eq!(jobs[1].item.endpoint, "http://b");
    assert_eq!(jobs[1].signature, None);
    assert_eq!(jobs[1].item.attempts, 0);
    assert_eq!(jobs[1].item.max_attempts, MAX_ATTEMPTS);
    assert_eq!(jobs[1].item.backoff_secs, INITIAL_BACKOFF_SECS);
    assert!(plan_deliveries(&e, &vec![]).is_empty());
}

#[test]
fn retries_back_off_exponentially_and_give_up() {
    let mut item = RetryItem::new("http://a".into(), "{}".into());
    let mut waits = vec![];
    loop {
        match after_attempt(&mut item, DeliveryOutcome::Failure) {
            RetryDecision::RetryAfter { wait_secs } => waits.push(wait_secs),
            RetryDecision::GiveUp => break,
            RetryDecision::Delivered => unreachable!(),
        }
    }
    assert_eq!(waits, vec![2, 4, 8, 16]);
    assert_eq!(item.attempts, 5);
}

#[test]
fn success_ends_the_delivery() {
    let mut item = RetryItem::new("http://a".into(), "{}".into());
    assert_eq!(after_attempt(&mut item, DeliveryOutcome::Failure), RetryDecision::RetryAfter { wait_secs: 2 });
    assert_eq!(after_attempt(&mut item, DeliveryOutcome::Success), RetryDecision::Delivered);
    assert_eq!(item.attempts, 1);
    assert_eq!(item.backoff_secs, 4);
}

#[test]
fn upsert_requests() {
    let payload = UpsertPayload {
        id: None,
        target_url: "http://a".into(),
        resource_type: "calendar".into(),
        resource_id: "cal".into(),
        secret_key: None,
    };
    let s = subscription_from_payload(payload.clone(), "fresh".into());
    assert_eq!(s.id, "fresh");
    assert_eq!(s.target_url, "http://a");
    let mut named = payload;
    named.id = Some("given".into());
    assert_eq!(subscription_from_payload(named, "fresh".into()).id, "given");

    let r = upsert_response("x".into(), true);
    assert_eq!((r.status, r.updated, r.status_text), (200, true, "updated"));
    let r = upsert_response("x".into(), false);
    assert_eq!((r.status, r.updated, r.status_text), (201, false, "created"));
    assert_eq!(delete_response(), (204, "Unregistered"));
}
