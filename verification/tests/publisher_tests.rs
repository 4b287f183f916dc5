use product_events::errors::PublishError;
use product_events::event::Product;
use product_events::publisher::ProductEventService;

fn snapshot(id: Option<&str>, version: Option<&str>) -> Product {
    Product {
        id: id.map(|s| s.to_string()),
        name: "Widget".to_string(),
        kind: "Gadget".to_string(),
        version: version.map(|s| s.to_string()),
    }
}

#[test]
fn publisher_keeps_its_topic() {
    let mut service = ProductEventService::new("products".to_string());
    assert_eq!(service.topic().as_str(), "products");
    let record = service.create(snapshot(Some("p1"), None)).unwrap();
    assert_eq!(record.topic, "products");
}

#[test]
fn operations_serialize_the_matching_event() {
    let mut service = ProductEventService::new("products".to_string());
    let created = service.create(snapshot(Some("p1"), None)).unwrap();
    assert_eq!(
        created.payload,
        "{\"id\":\"p1\",\"name\":\"Widget\",\"type\":\"Gadget\",\"version\":\"v1\",\"event\":\"CREATED\"}",
    );
    let updated = service.update(snapshot(Some("p1"), Some("v3"))).unwrap();
    assert_eq!(
        updated.payload,
        "{\"id\":\"p1\",\"name\":\"Widget\",\"type\":\"Gadget\",\"version\":\"v4\",\"event\":\"UPDATED\"}",
    );
    let deleted = service.delete(snapshot(Some("p1"), Some("v9"))).unwrap();
    assert_eq!(
        deleted.payload,
        "{\"id\":\"p1\",\"name\":\"Widget\",\"type\":\"Gadget\",\"version\":\"v10\",\"event\":\"DELETED\"}",
    );
}

#[test]
fn successive_records_come_back_in_call_order() {
    let mut service = ProductEventService::new("products".to_string());
    let mut versions = Vec::new();
    for version in ["v1", "v2", "v3", "v4"] {
        let record = service.update(snapshot(Some("p1"), Some(version))).unwrap();
        versions.push(record.payload);
    }
    assert!(versions[0].contains("\"version\":\"v2\""));
    assert!(versions[1].contains("\"version\":\"v3\""));
    assert!(versions[2].contains("\"version\":\"v4\""));
    assert!(versions[3].contains("\"version\":\"v5\""));
}

#[test]
fn malformed_version_fails_the_operation() {
    let mut service = ProductEventService::new("products".to_string());
    let err = service.create(snapshot(Some("p1"), Some("1")));
    assert!(matches!(err, Err(PublishError::MalformedVersion)));
}
