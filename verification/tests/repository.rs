use redirects::key::RedirectKey;
use redirects::record::RedirectRecord;
use redirects::responses::{CursorDefault, UrlRedirect};
use redirects::service::{InsertError, NewUrlRedirect, QueryError, UrlService};
use redirects::table::{RedirectTable, StoreError};

const ALICE: &str = "alice@example.com";
const BOB: &str = "bob@example.com";

fn new_url(owner: &str, key: &str, target: &str) -> NewUrlRedirect {
    let key = RedirectKey::try_from(key.to_string()).expect("a valid key");
    NewUrlRedirect::new(owner.to_string(), key, target.to_string())
}

fn keys(page: &[UrlRedirect]) -> Vec<String> {
    page.iter().map(|r| r.key().to_string()).collect()
}

fn service_with(owner: &str, keys: &[&str]) -> UrlService {
    let mut service = UrlService::new();
    for (i, key) in keys.iter().enumerate() {
        let created = service.create_with(100 + i as u128, new_url(owner, key, "https://t"), 7);
        assert!(created.is_ok());
    }
    service
}

#[test]
fn a_created_redirect_is_shown_with_its_identifier_key_and_target() {
    let mut service = UrlService::new();
    let created = service.create_with(42, new_url(ALICE, "home", "https://example.com"), 1_000);
    let redirect = created.expect("the key is free");
    assert_eq!(redirect.identifier(), 42);
    assert_eq!(redirect.key(), "home");
    assert_eq!(redirect.target(), "https://example.com");
    assert_eq!(redirect.target, "https://example.com");
    let row = service.table().find_by_key("home").expect("the row is stored");
    assert_eq!(row.id, 42);
    assert_eq!(row.user_email, ALICE);
    assert_eq!(row.created_at, 1_000);
    assert_eq!(row.updated_at, 1_000);
    assert_eq!(service.table().len(), 1);
}

#[test]
fn the_second_redirect_with_a_key_is_a_conflict_for_the_same_owner() {
    let mut service = UrlService::new();
    assert!(service.create_with(1, new_url(ALICE, "k", "https://one"), 5).is_ok());
    let second = service.create_with(2, new_url(ALICE, "k", "https://two"), 6);
    assert!(matches!(second, Err(InsertError::KeyAlreadyExists)));
    let first = service.get_by_key("k").expect("the first stays readable");
    assert_eq!(first.identifier(), 1);
    assert_eq!(first.target(), "https://one");
    assert_eq!(service.table().len(), 1);
}

#[test]
fn the_second_redirect_with_a_key_is_a_conflict_for_another_owner() {
    let mut service = UrlService::new();
    assert!(service.create_with(1, new_url(ALICE, "k", "https://one"), 5).is_ok());
    let second = service.create_with(2, new_url(BOB, "k", "https://two"), 6);
    assert!(matches!(second, Err(InsertError::KeyAlreadyExists)));
    let first = service.get_by_key("k").expect("the first stays readable");
    assert_eq!(first.identifier(), 1);
    assert_eq!(first.target(), "https://one");
    assert!(service.get_by_id_and_email(1, BOB).is_none());
}

#[test]
fn a_conflict_comes_with_fresh_identifiers_too() {
    let mut service = UrlService::new();
    let first = service.create(new_url(ALICE, "k", "https://one")).expect("the key is free");
    let second = service.create(new_url(BOB, "k", "https://two"));
    assert!(matches!(second, Err(InsertError::KeyAlreadyExists)));
    assert_eq!(service.get_by_key("k").map(|r| r.identifier()), Some(first.identifier()));
}

#[test]
fn a_taken_identifier_is_a_database_failure() {
    let mut service = UrlService::new();
    assert!(service.create_with(1, new_url(ALICE, "a", "https://one"), 5).is_ok());
    let second = service.create_with(1, new_url(ALICE, "b", "https://two"), 6);
    match second {
        Err(InsertError::Database(StoreError::UniqueViolation(message))) => {
            assert_eq!(message, "url_redirects_pkey")
        }
        _ => panic!("the identifier is taken"),
    }
    assert!(service.get_by_key("b").is_none());
}

#[test]
fn fresh_identifiers_are_random_identifiers() {
    let mut service = UrlService::new();
    let a = service.create(new_url(ALICE, "a", "https://a")).expect("free");
    let b = service.create(new_url(ALICE, "b", "https://b")).expect("free");
    assert_ne!(a.identifier(), b.identifier());
    for id in [a.identifier(), b.identifier()] {
        assert_eq!((id >> 76) & 0xf, 4);
        assert_eq!((id >> 62) & 0x3, 2);
        assert_eq!(uuid::Uuid::from_u128(id).get_version_num(), 4);
    }
    let row = new_url(ALICE, "c", "https://c").into_row();
    assert_eq!(uuid::Uuid::from_u128(row.id).get_version_num(), 4);
    assert_eq!(row.key, "c");
    assert_eq!(row.user_email, ALICE);
    assert_eq!(row.target, "https://c");
}

#[test]
fn a_created_redirect_is_stamped_with_the_time() {
    let before = chrono::Utc::now().timestamp_micros();
    let mut service = UrlService::new();
    service.create(new_url(ALICE, "a", "https://a")).expect("free");
    let after = chrono::Utc::now().timestamp_micros();
    let row = service.table().find_by_key("a").expect("stored");
    assert!(before <= row.created_at && row.created_at <= after);
    assert_eq!(row.created_at, row.updated_at);
}

#[test]
fn pages_follow_the_cursor() {
    let service = service_with(ALICE, &["a", "b", "c"]);
    let first = service.list_by_email(ALICE, None, 2);
    assert_eq!(keys(&first), vec!["a", "b"]);
    let second = service.list_by_email(ALICE, Some("b".to_string()), 2);
    assert_eq!(keys(&second), vec!["c"]);
    let third = service.list_by_email(ALICE, Some("c".to_string()), 2);
    assert!(third.is_empty());
}

#[test]
fn pages_are_ordered_by_key_whatever_the_order_of_creation() {
    let service = service_with(ALICE, &["m", "b", "z", "a", "B", "a-", "a_", "10", "9"]);
    let all = service.list_by_email(ALICE, None, 100);
    let mut expected = vec!["m", "b", "z", "a", "B", "a-", "a_", "10", "9"];
    expected.sort();
    assert_eq!(keys(&all), expected);
    let behind_a = service.list_by_email(ALICE, Some("a".to_string()), 3);
    assert_eq!(keys(&behind_a), vec!["a-", "a_", "b"]);
}

#[test]
fn a_cursor_that_is_no_key_works_as_well() {
    let service = service_with(ALICE, &["a", "c", "e"]);
    let page = service.list_by_email(ALICE, Some("b".to_string()), 10);
    assert_eq!(keys(&page), vec!["c", "e"]);
}

#[test]
fn a_page_of_no_rows_is_empty() {
    let service = service_with(ALICE, &["a", "b"]);
    assert!(service.list_by_email(ALICE, None, 0).is_empty());
    assert!(UrlService::new().list_by_email(ALICE, None, 10).is_empty());
}

#[test]
fn pages_hold_the_redirects_of_the_owner_only() {
    let mut service = service_with(ALICE, &["a", "c"]);
    assert!(service.create_with(7, new_url(BOB, "b", "https://b"), 9).is_ok());
    assert_eq!(keys(&service.list_by_email(ALICE, None, 10)), vec!["a", "c"]);
    assert_eq!(keys(&service.list_by_email(BOB, None, 10)), vec!["b"]);
    assert!(service.list_by_email("carol@example.com", None, 10).is_empty());
}

#[test]
fn a_redirect_is_followed_by_its_key_whoever_owns_it() {
    let service = service_with(ALICE, &["a"]);
    let found = service.get_by_key("a").expect("any request may follow it");
    assert_eq!(found.identifier(), 100);
    assert_eq!(found.id(), "a");
    assert!(service.get_by_key("A").is_none());
}

#[test]
fn another_owner_sees_and_deletes_nothing() {
    let mut service = service_with(ALICE, &["a"]);
    assert!(service.get_by_id_and_email(100, BOB).is_none());
    assert!(service.delete(BOB, 100).is_none());
    assert!(service.get_by_id_and_email(100, ALICE).is_some());
    assert_eq!(service.table().len(), 1);
    let unknown = service.get_by_id_and_email(999, BOB);
    assert!(unknown.is_none());
}

#[test]
fn another_owner_updates_nothing() {
    let mut service = service_with(ALICE, &["a"]);
    let result = service.update_at(100, new_url(BOB, "stolen", "https://evil"), 50);
    assert!(matches!(result, Ok(None)));
    let row = service.table().find_by_key("a").expect("untouched");
    assert_eq!(row.target, "https://t");
    assert_eq!(row.updated_at, 7);
    assert!(service.get_by_key("stolen").is_none());
}

#[test]
fn an_update_of_nothing_changes_nothing() {
    let mut service = service_with(ALICE, &["a", "b"]);
    let result = service.update_at(999, new_url(ALICE, "c", "https://c"), 50);
    assert!(matches!(result, Ok(None)));
    assert_eq!(keys(&service.list_by_email(ALICE, None, 10)), vec!["a", "b"]);
    let result = service.update(998, new_url(ALICE, "c", "https://c"));
    assert!(matches!(result, Ok(None)));
    assert_eq!(keys(&service.list_by_email(ALICE, None, 10)), vec!["a", "b"]);
}

#[test]
fn an_update_rewrites_key_target_and_update_time() {
    let mut service = service_with(ALICE, &["a", "b"]);
    let result = service.update_at(100, new_url(ALICE, "z", "https://z"), 50);
    let shown = result.expect("no conflict").expect("alice owns it");
    assert_eq!(shown.identifier(), 100);
    assert_eq!(shown.key(), "z");
    assert_eq!(shown.target(), "https://z");
    let row = service.table().find_by_key("z").expect("rewritten");
    assert_eq!(row.id, 100);
    assert_eq!(row.user_email, ALICE);
    assert_eq!(row.created_at, 7);
    assert_eq!(row.updated_at, 50);
    assert!(service.get_by_key("a").is_none());
    assert_eq!(keys(&service.list_by_email(ALICE, None, 10)), vec!["b", "z"]);
}

#[test]
fn an_update_may_keep_the_key() {
    let mut service = service_with(ALICE, &["a"]);
    let result = service.update_at(100, new_url(ALICE, "a", "https://new"), 50);
    let shown = result.expect("its own key is no conflict").expect("alice owns it");
    assert_eq!(shown.target(), "https://new");
}

#[test]
fn an_update_to_a_taken_key_is_a_conflict() {
    let mut service = service_with(ALICE, &["a", "b"]);
    let result = service.update_at(100, new_url(ALICE, "b", "https://new"), 50);
    assert!(matches!(result, Err(InsertError::KeyAlreadyExists)));
    let row = service.table().find_by_key("a").expect("untouched");
    assert_eq!(row.target, "https://t");
    assert_eq!(row.updated_at, 7);
}

#[test]
fn an_update_is_stamped_with_the_time() {
    let mut service = service_with(ALICE, &["a"]);
    let before = chrono::Utc::now().timestamp_micros();
    let result = service.update(100, new_url(ALICE, "a", "https://new"));
    let after = chrono::Utc::now().timestamp_micros();
    assert!(matches!(result, Ok(Some(_))));
    let row = service.table().find_by_key("a").expect("rewritten");
    assert!(before <= row.updated_at && row.updated_at <= after);
    assert_eq!(row.created_at, 7);
}

#[test]
fn a_deletion_returns_the_redirect_as_it_was() {
    let mut service = service_with(ALICE, &["a", "b", "c"]);
    let gone = service.delete(ALICE, 101).expect("alice owns it");
    assert_eq!(gone.identifier(), 101);
    assert_eq!(gone.key(), "b");
    assert!(service.get_by_key("b").is_none());
    assert!(service.get_by_id_and_email(101, ALICE).is_none());
    assert_eq!(keys(&service.list_by_email(ALICE, None, 10)), vec!["a", "c"]);
}

#[test]
fn a_second_deletion_returns_nothing() {
    let mut service = service_with(ALICE, &["a"]);
    assert!(service.delete(ALICE, 100).is_some());
    assert!(service.delete(ALICE, 100).is_none());
    assert_eq!(service.table().len(), 0);
}

#[test]
fn a_key_is_free_again_after_a_deletion() {
    let mut service = service_with(ALICE, &["a"]);
    assert!(service.delete(ALICE, 100).is_some());
    assert!(service.create_with(5, new_url(BOB, "a", "https://b"), 9).is_ok());
}

#[test]
fn the_table_reports_which_constraint_was_violated() {
    let mut table = RedirectTable::new();
    let row = |id: u128, key: &str| RedirectRecord {
        id,
        user_email: ALICE.to_string(),
        key: key.to_string(),
        target: "https://t".to_string(),
        created_at: 1,
        updated_at: 1,
    };
    assert!(table.insert(row(1, "a")).is_ok());
    match table.insert(row(2, "a")) {
        Err(StoreError::UniqueViolation(m)) => assert_eq!(m, "url_redirects_key_key"),
        _ => panic!("the key is taken"),
    }
    match table.insert(row(1, "a")) {
        Err(StoreError::UniqueViolation(m)) => assert_eq!(m, "url_redirects_key_key"),
        _ => panic!("the key is reported first"),
    }
    match table.insert(row(1, "b")) {
        Err(StoreError::UniqueViolation(m)) => assert_eq!(m, "url_redirects_pkey"),
        _ => panic!("the identifier is taken"),
    }
    assert!(matches!(table.update(row(9, "z")), Err(StoreError::RecordNotUpdated)));
    assert_eq!(table.delete(9), 0);
    assert_eq!(table.delete(1), 1);
    assert_eq!(table.len(), 0);
}

#[test]
fn a_violation_of_the_key_constraint_is_a_conflict() {
    let message = "duplicate key value violates unique constraint \"url_redirects_key_key\"";
    let error = InsertError::from(StoreError::UniqueViolation(message.to_string()));
    assert!(matches!(error, InsertError::KeyAlreadyExists));
}

#[test]
fn a_violation_of_another_constraint_is_a_database_failure() {
    let message = "duplicate key value violates unique constraint \"url_redirects_pkey\"";
    let error = InsertError::from(StoreError::UniqueViolation(message.to_string()));
    match error {
        InsertError::Database(StoreError::UniqueViolation(m)) => assert_eq!(m, message),
        _ => panic!("only the constraint on keys is a conflict"),
    }
    let error = InsertError::from(StoreError::Other("url_redirects_key_key".to_string()));
    assert!(matches!(error, InsertError::Database(StoreError::Other(_))));
    let error = InsertError::from(StoreError::RecordNotUpdated);
    assert!(matches!(error, InsertError::Database(StoreError::RecordNotUpdated)));
}

#[test]
fn a_driver_error_that_is_no_violation_is_a_database_failure() {
    let error = InsertError::from(sea_orm::DbErr::Custom("boom".to_string()));
    match error {
        InsertError::Database(StoreError::Other(detail)) => assert_eq!(detail, "Custom Error: boom"),
        _ => panic!("no constraint was violated"),
    }
    let error = QueryError::from(sea_orm::DbErr::RecordNotFound("gone".to_string()));
    match error {
        QueryError::Database(StoreError::Other(detail)) => {
            assert_eq!(detail, "RecordNotFound Error: gone")
        }
        _ => panic!("no constraint was violated"),
    }
    let error = StoreError::from_db(sea_orm::DbErr::RecordNotUpdated);
    match error {
        StoreError::Other(detail) => assert_eq!(detail, "None of the records are updated"),
        _ => panic!("no constraint was violated"),
    }
}

#[test]
fn write_errors_are_told_without_their_cause() {
    let (status, text) = InsertError::KeyAlreadyExists.into_response();
    assert_eq!((status, text.as_str()), (409, "key already exists"));
    let failure = InsertError::Database(StoreError::Other("secret detail".to_string()));
    let (status, text) = failure.into_response();
    assert_eq!((status, text.as_str()), (500, "internal server error"));
    let failure = QueryError::Database(StoreError::Other("secret detail".to_string()));
    let (status, text) = failure.into_response();
    assert_eq!((status, text.as_str()), (500, "internal server error"));
}

#[test]
fn a_record_is_rewritten_in_place() {
    let record = RedirectRecord {
        id: 3,
        user_email: ALICE.to_string(),
        key: "old".to_string(),
        target: "https://old".to_string(),
        created_at: 10,
        updated_at: 10,
    };
    let copy = record.clone();
    let rewritten = record.rewritten("new".to_string(), "https://new".to_string(), 20);
    assert_eq!(rewritten.id, 3);
    assert_eq!(rewritten.user_email, ALICE);
    assert_eq!(rewritten.key, "new");
    assert_eq!(rewritten.target, "https://new");
    assert_eq!(rewritten.created_at, 10);
    assert_eq!(rewritten.updated_at, 20);
    assert_eq!(copy.key, "old");
    let shown = UrlRedirect::from(copy);
    assert_eq!((shown.identifier(), shown.key(), shown.target()), (3, "old", "https://old"));
}
