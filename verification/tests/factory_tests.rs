use product_events::errors::PublishError;
use product_events::event::create_event;
use product_events::event::EventType;
use product_events::event::Product;
use product_events::version::increment_version;

fn snapshot(id: Option<&str>, version: Option<&str>) -> Product {
    Product {
        id: id.map(|s| s.to_string()),
        name: "Widget".to_string(),
        kind: "Gadget".to_string(),
        version: version.map(|s| s.to_string()),
    }
}

#[test]
fn missing_version_starts_at_one() {
    assert_eq!(increment_version(None), Ok("v1".to_string()));
}

#[test]
fn version_number_advances_by_one() {
    assert_eq!(increment_version(Some("v1".to_string())), Ok("v2".to_string()));
    assert_eq!(increment_version(Some("v3".to_string())), Ok("v4".to_string()));
    assert_eq!(increment_version(Some("v9".to_string())), Ok("v10".to_string()));
    assert_eq!(increment_version(Some("v99".to_string())), Ok("v100".to_string()));
    assert_eq!(increment_version(Some("v0".to_string())), Ok("v1".to_string()));
    assert_eq!(increment_version(Some("v007".to_string())), Ok("v8".to_string()));
}

#[test]
fn version_at_the_machine_limit() {
    assert_eq!(
        increment_version(Some("v18446744073709551614".to_string())),
        Ok("v18446744073709551615".to_string()),
    );
    assert_eq!(
        increment_version(Some("v18446744073709551615".to_string())),
        Err(PublishError::MalformedVersion),
    );
}

#[test]
fn malformed_versions_are_rejected() {
    assert_eq!(
        increment_version(Some("version2".to_string())),
        Err(PublishError::MalformedVersion),
    );
    assert_eq!(increment_version(Some("v".to_string())), Err(PublishError::MalformedVersion));
    assert_eq!(increment_version(Some("1".to_string())), Err(PublishError::MalformedVersion));
    assert_eq!(increment_version(Some("".to_string())), Err(PublishError::MalformedVersion));
    assert_eq!(increment_version(Some("v1x".to_string())), Err(PublishError::MalformedVersion));
    assert_eq!(increment_version(Some("w12".to_string())), Err(PublishError::MalformedVersion));
}

#[test]
fn created_event_for_fresh_snapshot() {
    let event = create_event(snapshot(None, None), EventType::Created).unwrap();
    assert!(!event.id.is_empty());
    assert_eq!(event.name, "Widget");
    assert_eq!(event.kind, "Gadget");
    assert_eq!(event.version, "v1");
    assert_eq!(event.event, EventType::Created);
}

#[test]
fn updated_event_keeps_identity_and_advances_version() {
    let event = create_event(snapshot(Some("p1"), Some("v3")), EventType::Updated).unwrap();
    assert_eq!(event.id, "p1");
    assert_eq!(event.name, "Widget");
    assert_eq!(event.kind, "Gadget");
    assert_eq!(event.version, "v4");
    assert_eq!(event.event, EventType::Updated);
}

#[test]
fn deleted_event_advances_two_digit_version() {
    let event = create_event(snapshot(Some("p1"), Some("v9")), EventType::Deleted).unwrap();
    assert_eq!(event.id, "p1");
    assert_eq!(event.version, "v10");
    assert_eq!(event.event, EventType::Deleted);
}

#[test]
fn generated_identities_are_distinct() {
    let first = create_event(snapshot(None, None), EventType::Created).unwrap();
    let second = create_event(snapshot(None, None), EventType::Created).unwrap();
    assert!(!first.id.is_empty());
    assert!(!second.id.is_empty());
    assert_ne!(first.id, second.id);
}

#[test]
fn event_type_follows_the_operation_alone() {
    let created = create_event(snapshot(Some("p1"), Some("v1")), EventType::Created).unwrap();
    let updated = create_event(snapshot(Some("p1"), Some("v1")), EventType::Updated).unwrap();
    let deleted = create_event(snapshot(Some("p1"), Some("v1")), EventType::Deleted).unwrap();
    assert_eq!(created.event, EventType::Created);
    assert_eq!(updated.event, EventType::Updated);
    assert_eq!(deleted.event, EventType::Deleted);
    assert_eq!(created.version, updated.version);
    assert_eq!(updated.version, deleted.version);
}

#[test]
fn malformed_version_fails_the_factory() {
    let err = create_event(snapshot(Some("p1"), Some("version2")), EventType::Created);
    assert!(matches!(err, Err(PublishError::MalformedVersion)));
}
