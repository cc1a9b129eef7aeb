use krill::aggregate::CaCommand;
use krill::provisioning::{handle_request, ProvisioningRequest, ProvisioningResponse};
use krill::store::CaServer;

fn parent() -> CaServer {
    let mut server = CaServer::new();
    server.add_ca("parent".to_string()).unwrap();
    let c = CaCommand::UpdateResources { resources: vec![10, 20, 30] };
    server.send_command(&"parent".to_string(), &c, 0, "admin".to_string(), 1).unwrap();
    server
}

fn code(r: ProvisioningResponse) -> u16 {
    match r {
        ProvisioningResponse::Error { code } => code,
        _ => 0,
    }
}

#[test]
fn list_gives_held_resources() {
    let mut server = parent();
    let r = handle_request(&mut server, &"parent".to_string(), &ProvisioningRequest::List, "child".to_string(), 2);
    match r {
        ProvisioningResponse::List { resources } => assert_eq!(resources, vec![10, 20, 30]),
        _ => panic!("expected a list response"),
    }
}

#[test]
fn issue_and_revoke_round_trip() {
    let mut server = parent();
    let h = "parent".to_string();
    let req = ProvisioningRequest::Issue { key_id: 4, resources: vec![20] };
    match handle_request(&mut server, &h, &req, "child".to_string(), 2) {
        ProvisioningResponse::Issued { key_id, serial, resources } => {
            assert_eq!(key_id, 4);
            assert_eq!(serial, 1);
            assert_eq!(resources, vec![20]);
        }
        _ => panic!("expected an issued certificate"),
    }
    match handle_request(&mut server, &h, &req, "child".to_string(), 3) {
        ProvisioningResponse::Issued { serial, resources, .. } => {
            assert_eq!(serial, 2);
            assert_eq!(resources, vec![20]);
        }
        _ => panic!("expected a second certificate for the key"),
    }
    let revoke = ProvisioningRequest::Revoke { key_id: 4 };
    assert!(matches!(
        handle_request(&mut server, &h, &revoke, "child".to_string(), 4),
        ProvisioningResponse::Revoked { key_id: 4 }
    ));
    assert_eq!(code(handle_request(&mut server, &h, &revoke, "child".to_string(), 5)), 1302);
    assert_eq!(server.cas[0].ca.events.len(), 4);
}

#[test]
fn error_codes() {
    let mut server = parent();
    let h = "parent".to_string();
    let too_much = ProvisioningRequest::Issue { key_id: 1, resources: vec![10, 40] };
    assert_eq!(code(handle_request(&mut server, &h, &too_much, "child".to_string(), 2)), 1202);
    let unknown = ProvisioningRequest::Revoke { key_id: 9 };
    assert_eq!(code(handle_request(&mut server, &h, &unknown, "child".to_string(), 2)), 1302);
    let r = handle_request(&mut server, &"nobody".to_string(), &ProvisioningRequest::List, "c".to_string(), 2);
    assert_eq!(code(r), 1201);
    assert_eq!(server.cas[0].ca.events.len(), 1);
}
