use krill::aggregate::{CaCommand, CaEvent, CaSnapshot, CommandError};

fn holding(resources: Vec<u64>) -> CaSnapshot {
    let mut s = CaSnapshot::new();
    s.apply(&CaEvent::ResourcesUpdated { resources });
    s
}

#[test]
fn issue_outside_held_resources_is_rejected() {
    let s = holding(vec![1, 2, 3]);
    let r = s.validate(&CaCommand::IssueCert { key_id: 5, resources: vec![2, 4] });
    assert!(matches!(r, Err(CommandError::ResourcesNotHeld)));
}

#[test]
fn issue_of_subset_certifies_exactly_that_subset() {
    let mut s = holding(vec![1, 2, 3]);
    let events = s.validate(&CaCommand::IssueCert { key_id: 5, resources: vec![3, 1] }).unwrap();
    assert_eq!(events.len(), 1);
    match &events[0] {
        CaEvent::CertIssued { key_id, serial, resources } => {
            assert_eq!(*key_id, 5);
            assert_eq!(*serial, 1);
            assert_eq!(resources, &vec![3, 1]);
        }
        _ => panic!("expected an issued certificate"),
    }
    s.apply(&events[0]);
    assert_eq!(s.certs.len(), 1);
    assert_eq!(s.certs[0].resources, vec![3, 1]);
    assert_eq!(s.next_serial, 2);
}

#[test]
fn issue_again_for_one_key_is_accepted() {
    let mut s = holding(vec![1, 2]);
    let events = s.validate(&CaCommand::IssueCert { key_id: 5, resources: vec![1] }).unwrap();
    s.apply(&events[0]);
    let events = s.validate(&CaCommand::IssueCert { key_id: 5, resources: vec![2] }).unwrap();
    assert_eq!(events.len(), 1);
    s.apply(&events[0]);
    assert_eq!(s.certs.len(), 2);
    assert_eq!(s.certs[1].resources, vec![2]);
    assert_eq!(s.certs[1].serial, 2);
}

#[test]
fn revoking_twice_is_rejected() {
    let mut s = holding(vec![1]);
    let events = s.validate(&CaCommand::IssueCert { key_id: 5, resources: vec![1] }).unwrap();
    s.apply(&events[0]);
    let events = s.validate(&CaCommand::RevokeCert { key_id: 5 }).unwrap();
    assert_eq!(events.len(), 1);
    s.apply(&events[0]);
    assert!(s.certs[0].revoked);
    let again = s.validate(&CaCommand::RevokeCert { key_id: 5 });
    assert!(matches!(again, Err(CommandError::AlreadyRevoked)));
    let unknown = s.validate(&CaCommand::RevokeCert { key_id: 6 });
    assert!(matches!(unknown, Err(CommandError::KeyNotFound)));
}

#[test]
fn serials_run_out() {
    let mut s = holding(vec![1]);
    s.next_serial = u64::MAX;
    let r = s.validate(&CaCommand::IssueCert { key_id: 1, resources: vec![1] });
    assert!(matches!(r, Err(CommandError::SerialsExhausted)));
}

#[test]
fn unchanged_resources_yield_no_events() {
    let s = holding(vec![1, 2]);
    let events = s.validate(&CaCommand::UpdateResources { resources: vec![1, 2] }).unwrap();
    assert!(events.is_empty());
    let events = s.validate(&CaCommand::UpdateResources { resources: vec![2, 1] }).unwrap();
    assert_eq!(events.len(), 1);
}
