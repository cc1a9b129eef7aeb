use krill::side_effects::{RepublishMessage, Republisher};

#[test]
fn redelivery_changes_nothing() {
    let mut consumer = Republisher::new();
    let msg = RepublishMessage { handle: "ca".to_string(), version: 3 };
    assert!(consumer.deliver(&msg));
    assert!(!consumer.deliver(&msg));
    assert_eq!(consumer.published.len(), 1);
    assert_eq!(consumer.published[0].version, 3);
}

#[test]
fn older_message_is_ignored_newer_is_applied() {
    let mut consumer = Republisher::new();
    consumer.deliver(&RepublishMessage { handle: "ca".to_string(), version: 3 });
    assert!(!consumer.deliver(&RepublishMessage { handle: "ca".to_string(), version: 2 }));
    assert!(consumer.deliver(&RepublishMessage { handle: "ca".to_string(), version: 4 }));
    assert!(consumer.deliver(&RepublishMessage { handle: "other".to_string(), version: 1 }));
    assert_eq!(consumer.published.len(), 2);
    assert_eq!(consumer.published[0].version, 4);
}
