use rustical::store::notify::{
    addressbook_deleted_notice, addressbook_object_notice, calendar_deleted_notice, calendar_object_notice,
    CollectionOperationDomain, CollectionOperationType,
};
use rustical::store::birthday::{
    addressbook_id_of, birthday_calendar_for_update, birthday_id_for_delete, birthday_write_error,
    calendar_from_birthday_row, default_birthday_calendar, resolve_birthday_object, Addressbook,
    BirthdayCalendarJoinRow,
};
use rustical::store::calendar::{calendar_from_row, component_flags, CalendarObjectType, CalendarRow};
use rustical::store::error::{
    check_insert, existed_before, from_db_error, into_store_error, store_error_of_db, DbError, DbErrorKind,
    SqliteError, StoreError,
};
use rustical::store::principal::{principal_from_row, Principal, PrincipalRow};
use rustical::store::sync::{absorb_lookup, new_synctoken, ChangeRow};

fn db(kind: DbErrorKind) -> DbError {
    DbError { kind, message: "boom".into() }
}

#[test]
fn database_errors_become_store_errors() {
    assert_eq!(store_error_of_db(db(DbErrorKind::RowNotFound)), StoreError::NotFound);
    assert_eq!(store_error_of_db(db(DbErrorKind::UniqueViolation)), StoreError::AlreadyExists);
    assert_eq!(store_error_of_db(db(DbErrorKind::Database)), StoreError::Other("boom".into()));
    assert_eq!(store_error_of_db(db(DbErrorKind::Other)), StoreError::Other("boom".into()));
    assert!(matches!(from_db_error(db(DbErrorKind::Other)), SqliteError::SqlxError(_)));
    assert_eq!(into_store_error(SqliteError::IcalError("bad ics".into())), StoreError::Other("bad ics".into()));
    assert_eq!(into_store_error(SqliteError::StoreError(StoreError::ReadOnly)), StoreError::ReadOnly);
}

#[test]
fn existence_and_insert_checks() {
    assert_eq!(existed_before::<()>(Ok(())), Ok(true));
    assert_eq!(existed_before::<()>(Err(StoreError::NotFound)), Ok(false));
    assert_eq!(existed_before::<()>(Err(StoreError::ReadOnly)), Err(StoreError::ReadOnly));
    assert_eq!(check_insert(false, true), Err(StoreError::AlreadyExists));
    assert_eq!(check_insert(true, true), Ok(()));
    assert_eq!(check_insert(false, false), Ok(()));
}

fn row(e: bool, t: bool, j: bool) -> CalendarRow {
    CalendarRow {
        principal: "user".into(),
        id: "cal".into(),
        displayname: Some("Cal".into()),
        order: 3,
        description: None,
        color: Some("#fff".into()),
        timezone: None,
        timezone_id: Some("Europe/Berlin".into()),
        deleted_at: None,
        synctoken: 7,
        subscription_url: None,
        push_topic: "topic".into(),
        comp_event: e,
        comp_todo: t,
        comp_journal: j,
    }
}

#[test]
fn calendar_rows_and_component_flags() {
    let c = calendar_from_row(row(true, false, true));
    assert_eq!(c.components, vec![CalendarObjectType::Event, CalendarObjectType::Journal]);
    assert_eq!(c.meta.order, 3);
    assert_eq!(c.synctoken, 7);
    assert_eq!(component_flags(&c.components), (true, false, true));
    for (e, t, j) in [(false, false, false), (true, true, true), (false, true, false)] {
        assert_eq!(component_flags(&calendar_from_row(row(e, t, j)).components), (e, t, j));
    }
}

fn addressbook(name: Option<&str>) -> Addressbook {
    Addressbook {
        principal: "user".into(),
        id: "contacts".into(),
        synctoken: 4,
        displayname: name.map(|n| n.to_string()),
        description: None,
        deleted_at: None,
        push_topic: "topic-1".into(),
    }
}

#[test]
fn default_birthday_calendars() {
    let c = default_birthday_calendar(addressbook(Some("Friends")));
    assert_eq!(c.id, "_birthdays_contacts");
    assert_eq!(c.meta.displayname.as_deref(), Some("Friends birthdays"));
    assert_eq!(c.push_topic, "7856647fb03bbee756ac0719c2f7f1cabf9aa65e3ac84e7aa27c414a6c84bbf2");
    assert_eq!(c.components, vec![CalendarObjectType::Event]);
    assert_eq!(c.synctoken, 0);
    let c = default_birthday_calendar(addressbook(None));
    assert_eq!(c.meta.displayname, None);
    assert_eq!(addressbook_id_of(&c.id), Ok("contacts".to_string()));
}

#[test]
fn birthday_ids() {
    assert_eq!(addressbook_id_of("_birthdays_x"), Ok("x".to_string()));
    assert_eq!(addressbook_id_of("calendar"), Err(StoreError::NotFound));
    assert_eq!(birthday_id_for_delete("calendar"), None);
    assert_eq!(birthday_id_for_delete("_birthdays_"), Some(String::new()));
    let r = resolve_birthday_object("_birthdays_book", "card-1-birthday").unwrap();
    assert_eq!(r.addressbook_id, "book");
    assert_eq!(r.addressobject_id, "card-1");
    assert_eq!(r.date_type, "birthday");
    assert!(matches!(resolve_birthday_object("_birthdays_book", "card"), Err(StoreError::NotFound)));
    assert!(matches!(resolve_birthday_object("book", "card-x"), Err(StoreError::NotFound)));
    assert_eq!(birthday_write_error(), StoreError::ReadOnly);
}

#[test]
fn birthday_rows_and_updates() {
    let r = BirthdayCalendarJoinRow {
        principal: "user".into(),
        id: "book".into(),
        displayname: None,
        description: None,
        order: 1,
        color: None,
        timezone_id: None,
        deleted_at: Some(10),
        push_topic: "t".into(),
        addr_synctoken: 9,
    };
    let c = calendar_from_birthday_row(r);
    assert_eq!(c.id, "_birthdays_book");
    assert_eq!(c.synctoken, 9);
    assert_eq!(c.deleted_at, Some(10));
    let id = c.id.clone();
    let updated = birthday_calendar_for_update(&id, c).unwrap();
    assert_eq!(updated.id, "book");
    let plain = calendar_from_row(row(true, false, false));
    let id = plain.id.clone();
    assert!(matches!(birthday_calendar_for_update(&id, plain), Err(StoreError::NotFound)));
}

#[test]
fn sync_changes_are_split_into_changed_and_deleted() {
    assert_eq!(new_synctoken(&vec![]), 0);
    let changes = vec![
        ChangeRow { object_id: "a".into(), synctoken: 3 },
        ChangeRow { object_id: "b".into(), synctoken: 5 },
    ];
    assert_eq!(new_synctoken(&changes), 5);
    let mut objects: Vec<u32> = vec![];
    let mut deleted: Vec<String> = vec![];
    assert_eq!(absorb_lookup(&mut objects, &mut deleted, "a".into(), Ok(1)), Ok(()));
    assert_eq!(absorb_lookup(&mut objects, &mut deleted, "b".into(), Err(StoreError::NotFound)), Ok(()));
    assert_eq!(
        absorb_lookup(&mut objects, &mut deleted, "c".into(), Err(StoreError::Other("x".into()))),
        Err(StoreError::Other("x".into()))
    );
    assert_eq!(objects, vec![1]);
    assert_eq!(deleted, vec!["b".to_string()]);
}

#[test]
fn principal_memberships_skip_missing_groups() {
    let p: Principal = principal_from_row(PrincipalRow {
        id: "user".into(),
        displayname: None,
        principal_type: "individual".into(),
        password_hash: None,
        memberships: Some(vec![None, Some("group".into()), None, Some("team".into())]),
    });
    assert_eq!(p.memberships, vec!["group".to_string(), "team".to_string()]);
    let p = principal_from_row(PrincipalRow {
        id: "user".into(),
        displayname: None,
        principal_type: "individual".into(),
        password_hash: None,
        memberships: None,
    });
    assert!(p.memberships.is_empty());
}

#[test]
fn notifications_after_changes() {
    let cal = calendar_from_row(row(true, false, false));
    let n = calendar_deleted_notice(Some(cal)).unwrap();
    assert_eq!(n.op_type, CollectionOperationType::Delete);
    assert_eq!(n.domain, CollectionOperationDomain::Calendar);
    assert_eq!(n.topic, "topic");
    assert_eq!(n.sync_token, None);
    assert!(calendar_deleted_notice(None).is_none());
    let n = calendar_object_notice("topic".into(), "token".into());
    assert_eq!(n.op_type, CollectionOperationType::Object);
    assert_eq!(n.sync_token.as_deref(), Some("token"));
}

#[test]
fn address_book_notifications() {
    let n = addressbook_deleted_notice(Some(addressbook(None))).unwrap();
    assert_eq!(n.op_type, CollectionOperationType::Delete);
    assert_eq!(n.domain, CollectionOperationDomain::Addressbook);
    assert_eq!(n.topic, "topic-1");
    assert_eq!(n.sync_token, None);
    assert!(addressbook_deleted_notice(None).is_none());
    let n = addressbook_object_notice("topic-1".into(), "7".into());
    assert_eq!(n.op_type, CollectionOperationType::Object);
    assert_eq!(n.domain, CollectionOperationDomain::Addressbook);
    assert_eq!(n.topic, "topic-1");
    assert_eq!(n.sync_token.as_deref(), Some("7"));
}
