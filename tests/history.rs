use krill::aggregate::{CaCommand, CaEvent};
use krill::store::{CaServer, CommandKind, HistoryCriteria, StoreError};

fn ta_server() -> CaServer {
    let mut server = CaServer::new();
    server.add_ca("ta".to_string()).unwrap();
    let add_repo = CaCommand::AddRepo { repo_id: 1 };
    server.send_command(&"ta".to_string(), &add_repo, 0, "admin".to_string(), 1_000).unwrap();
    let resources = CaCommand::UpdateResources { resources: vec![10, 11, 12] };
    server.send_command(&"ta".to_string(), &resources, 1, "admin".to_string(), 2_000).unwrap();
    server
}

#[test]
fn history() {
    let server = ta_server();
    let ta = "ta".to_string();

    let ta_history = server.get_ca_history(&ta, &HistoryCriteria::all()).unwrap();
    assert_eq!(ta_history.total, 2);
    assert_eq!(ta_history.commands.len(), 2);
    let ta_repo_add = ta_history.commands.first().unwrap();
    assert_eq!(ta_repo_add.key, 1);
    assert_eq!(ta_repo_add.kind, CommandKind::AddRepo);
    assert_eq!(ta_repo_add.timestamp, 1_000);
    assert_eq!(ta_repo_add.first_seq, 1);
    assert_eq!(ta_repo_add.event_count, 1);

    let details = server.get_ca_command_details(&ta, ta_repo_add.key).unwrap().unwrap();
    assert_eq!(details.actor, "admin");
    assert_eq!(details.events.len(), 1);
    assert!(matches!(details.events[0], CaEvent::RepoAdded { repo_id: 1 }));
}

#[test]
fn history_pages_and_time_range() {
    let server = ta_server();
    let ta = "ta".to_string();
    let crit = HistoryCriteria { after: 0, before: u64::MAX, offset: 1, rows: 5 };
    let page = server.get_ca_history(&ta, &crit).unwrap();
    assert_eq!(page.total, 2);
    assert_eq!(page.offset, 1);
    assert_eq!(page.commands.len(), 1);
    assert_eq!(page.commands[0].kind, CommandKind::UpdateResources);
    assert_eq!(page.commands[0].first_seq, 2);

    let crit = HistoryCriteria { after: 1_500, before: 3_000, offset: 0, rows: 5 };
    let page = server.get_ca_history(&ta, &crit).unwrap();
    assert_eq!(page.total, 1);
    assert_eq!(page.commands[0].key, 2);

    let crit = HistoryCriteria { after: 0, before: u64::MAX, offset: 7, rows: 5 };
    let page = server.get_ca_history(&ta, &crit).unwrap();
    assert_eq!(page.total, 2);
    assert!(page.commands.is_empty());
}

#[test]
fn command_details_unknown_key_and_handle() {
    let server = ta_server();
    assert!(server.get_ca_command_details(&"ta".to_string(), 3).unwrap().is_none());
    assert!(server.get_ca_command_details(&"ta".to_string(), 0).unwrap().is_none());
    assert!(matches!(
        server.get_ca_command_details(&"child".to_string(), 1),
        Err(StoreError::UnknownHandle)
    ));
    assert!(matches!(
        server.get_ca_history(&"child".to_string(), &HistoryCriteria::all()),
        Err(StoreError::UnknownHandle)
    ));
}

#[test]
fn command_without_events_is_recorded() {
    let mut server = ta_server();
    let ta = "ta".to_string();
    let same = CaCommand::AddRepo { repo_id: 1 };
    let events = server.send_command(&ta, &same, 2, "admin".to_string(), 3_000).unwrap();
    assert!(events.is_empty());
    let page = server.get_ca_history(&ta, &HistoryCriteria::all()).unwrap();
    assert_eq!(page.total, 3);
    assert_eq!(page.commands[2].event_count, 0);
    assert_eq!(page.commands[2].first_seq, 3);
    let details = server.get_ca_command_details(&ta, 3).unwrap().unwrap();
    assert!(details.events.is_empty());
}

#[test]
fn duplicate_handle_is_refused() {
    let mut server = ta_server();
    assert_eq!(server.add_ca("ta".to_string()), Err(StoreError::DuplicateHandle));
    assert_eq!(server.add_ca("child".to_string()), Ok(()));
    assert_eq!(server.cas.len(), 2);
}
