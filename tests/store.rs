use krill::aggregate::{CaCommand, CaEvent, CommandError};
use krill::store::{Aggregate, CaServer, StoreError};

fn issue(key_id: u64, resources: Vec<u64>) -> CaCommand {
    CaCommand::IssueCert { key_id, resources }
}

fn same_snapshot(a: &krill::aggregate::CaSnapshot, b: &krill::aggregate::CaSnapshot) -> bool {
    a.repo == b.repo
        && a.resources == b.resources
        && a.next_serial == b.next_serial
        && a.certs.len() == b.certs.len()
        && a.certs.iter().zip(b.certs.iter()).all(|(x, y)| {
            x.key_id == y.key_id && x.serial == y.serial && x.resources == y.resources
                && x.revoked == y.revoked
        })
}

#[test]
fn replay_matches_cached_snapshot_after_each_command() {
    let mut ca = Aggregate::new();
    let commands = vec![
        CaCommand::AddRepo { repo_id: 3 },
        CaCommand::UpdateResources { resources: vec![1, 2, 3, 4] },
        issue(100, vec![1, 2]),
        issue(101, vec![3]),
        CaCommand::RevokeCert { key_id: 100 },
    ];
    for c in commands.iter() {
        let v = ca.version();
        ca.send_command(c, v, "admin".to_string(), 5).unwrap();
        let first = ca.replay();
        let second = ca.replay();
        assert!(same_snapshot(&first, &ca.snapshot));
        assert!(same_snapshot(&first, &second));
    }
    assert_eq!(ca.version(), 5);
    assert_eq!(ca.snapshot.certs.len(), 2);
    assert!(ca.snapshot.certs[0].revoked);
    assert!(!ca.snapshot.certs[1].revoked);
    assert_eq!(ca.snapshot.next_serial, 3);
}

#[test]
fn concurrent_commands_at_same_base_conflict() {
    let mut server = CaServer::new();
    let h = "ca".to_string();
    server.add_ca(h.clone()).unwrap();
    server
        .send_command(&h, &CaCommand::UpdateResources { resources: vec![1, 2] }, 0, "a".to_string(), 1)
        .unwrap();
    let first = server.send_command(&h, &issue(7, vec![1]), 1, "a".to_string(), 2);
    let second = server.send_command(&h, &issue(8, vec![2]), 1, "b".to_string(), 2);
    assert!(first.is_ok());
    assert!(matches!(second, Err(StoreError::Conflict)));
    assert_eq!(server.cas[0].ca.events.len(), 2);
    assert_eq!(server.cas[0].ca.history.len(), 2);
}

#[test]
fn conflict_after_command_without_events() {
    let mut server = CaServer::new();
    let h = "ca".to_string();
    server.add_ca(h.clone()).unwrap();
    server.send_command(&h, &CaCommand::AddRepo { repo_id: 1 }, 0, "a".to_string(), 1).unwrap();
    let first = server.send_command(&h, &CaCommand::AddRepo { repo_id: 1 }, 1, "a".to_string(), 2);
    assert!(first.unwrap().is_empty());
    let second = server.send_command(&h, &CaCommand::AddRepo { repo_id: 2 }, 1, "b".to_string(), 2);
    assert!(matches!(second, Err(StoreError::Conflict)));
    assert_eq!(server.cas[0].ca.events.len(), 1);
    assert_eq!(server.cas[0].ca.version(), 2);
    assert_eq!(server.get_snapshot(&h).unwrap().repo, Some(1));
}

#[test]
fn unknown_handle_is_reported() {
    let mut server = CaServer::new();
    let r = server.send_command(&"nobody".to_string(), &CaCommand::AddRepo { repo_id: 1 }, 0, "a".to_string(), 1);
    assert!(matches!(r, Err(StoreError::UnknownHandle)));
    assert!(server.get_snapshot(&"nobody".to_string()).is_none());
}

#[test]
fn rejected_command_appends_nothing() {
    let mut server = CaServer::new();
    let h = "ca".to_string();
    server.add_ca(h.clone()).unwrap();
    let r = server.send_command(&h, &CaCommand::RevokeCert { key_id: 1 }, 0, "a".to_string(), 1);
    assert!(matches!(r, Err(StoreError::Rejected(CommandError::KeyNotFound))));
    assert!(server.cas[0].ca.events.is_empty());
    assert!(server.cas[0].ca.history.is_empty());
}

#[test]
fn other_cas_are_untouched() {
    let mut server = CaServer::new();
    server.add_ca("a".to_string()).unwrap();
    server.add_ca("b".to_string()).unwrap();
    let events = server
        .send_command(&"b".to_string(), &CaCommand::AddRepo { repo_id: 9 }, 0, "x".to_string(), 1)
        .unwrap();
    assert!(matches!(events[0], CaEvent::RepoAdded { repo_id: 9 }));
    assert!(server.cas[0].ca.events.is_empty());
    assert_eq!(server.cas[1].ca.events.len(), 1);
    assert_eq!(server.get_snapshot(&"b".to_string()).unwrap().repo, Some(9));
    assert_eq!(server.get_snapshot(&"a".to_string()).unwrap().repo, None);
}
