use vstd::prelude::*;

use crate::aggregate::{contains_all, copy_units, MAX_SERIAL, events_view, replay_model, CaCommand, CaEvent, CommandError, EventModel};
use crate::store::{outcome, CaServer, StoreError};

verus! {

/// A request of a child CA to its parent, after its envelope was verified.
pub enum ProvisioningRequest {
    /// Which resources is the child certified for.
    List,
    /// Issue a certificate for a key over these resources.
    Issue { key_id: u64, resources: Vec<u64> },
    /// Revoke the certificate for a key.
    Revoke { key_id: u64 },
}

/// The response to a request, before it is signed.
pub enum ProvisioningResponse {
    /// The resources the child is certified for.
    List { resources: Vec<u64> },
    /// The certificate was issued.
    Issued { key_id: u64, serial: u64, resources: Vec<u64> },
    /// The certificate was revoked.
    Revoked { key_id: u64 },
    /// The request failed for the coded reason.
    Error { code: u16 },
}

/// Already processing a request for this CA.
pub const ERR_ALREADY_PROCESSING: u16 = 1101;
/// No such resource class: the CA is unknown.
pub const ERR_NO_SUCH_CLASS: u16 = 1201;
/// The requested resources are not allocated to the child.
pub const ERR_NO_RESOURCES: u16 = 1202;
/// Revocation of a key that has no active certificate.
pub const ERR_NO_SUCH_KEY: u16 = 1302;
/// Anything else.
pub const ERR_INTERNAL: u16 = 2001;

/// The error code that a rejection maps to.
pub open spec fn error_code(e: StoreError) -> u16 {
    match e {
        StoreError::Conflict => ERR_ALREADY_PROCESSING,
        StoreError::UnknownHandle => ERR_NO_SUCH_CLASS,
        StoreError::Rejected(CommandError::ResourcesNotHeld) => ERR_NO_RESOURCES,
        StoreError::Rejected(CommandError::KeyNotFound) => ERR_NO_SUCH_KEY,
        StoreError::Rejected(CommandError::AlreadyRevoked) => ERR_NO_SUCH_KEY,
        _ => ERR_INTERNAL,
    }
}

pub fn code_of(e: StoreError) -> (r: u16)
    ensures
        r == error_code(e),
{
    match e {
        StoreError::Conflict => ERR_ALREADY_PROCESSING,
        StoreError::UnknownHandle => ERR_NO_SUCH_CLASS,
        StoreError::Rejected(CommandError::ResourcesNotHeld) => ERR_NO_RESOURCES,
        StoreError::Rejected(CommandError::KeyNotFound) => ERR_NO_SUCH_KEY,
        StoreError::Rejected(CommandError::AlreadyRevoked) => ERR_NO_SUCH_KEY,
        _ => ERR_INTERNAL,
    }
}

/// The command that a request maps to, if it changes the CA.
pub open spec fn command_of(req: ProvisioningRequest) -> Option<CaCommand> {
    match req {
        ProvisioningRequest::List => None,
        ProvisioningRequest::Issue { key_id, resources } => Some(
            CaCommand::IssueCert { key_id, resources },
        ),
        ProvisioningRequest::Revoke { key_id } => Some(CaCommand::RevokeCert { key_id }),
    }
}

/// Handles one request against the CA with this handle: a list is answered
/// from the current snapshot, an issue or revoke request is sent as a command
/// at the current sequence number, and its events or rejection are turned
/// into the response. Nothing is kept between requests.
pub fn handle_request(
    server: &mut CaServer,
    handle: &String,
    req: &ProvisioningRequest,
    actor: String,
    timestamp: u64,
) -> (r: ProvisioningResponse)
    requires
        old(server).wf(),
    ensures
        final(server).wf(),
        !old(server).has_handle(handle@) ==> r == (ProvisioningResponse::Error {
            code: ERR_NO_SUCH_CLASS,
        }) && final(server).cas@ == old(server).cas@,
        forall|j: int|
            0 <= j < old(server).cas@.len() && (#[trigger] old(server).cas@[j]).handle@ == handle@
                ==> match *req {
                ProvisioningRequest::Issue { key_id, resources } => {
                    let s = replay_model(old(server).cas@[j].ca.log());
                    contains_all(s.resources, resources@) && s.next_serial < MAX_SERIAL
                        && old(server).cas@[j].ca.log().len() < usize::MAX
                        && old(server).cas@[j].ca.history@.len() < usize::MAX ==> match r {
                        ProvisioningResponse::Issued { key_id: k, serial, resources: rs } => k
                            == key_id && serial == s.next_serial && rs@ == resources@,
                        _ => false,
                    }
                },
                _ => true,
            },
        forall|j: int|
            0 <= j < old(server).cas@.len() && (#[trigger] old(server).cas@[j]).handle@ == handle@
                ==> {
                let log = old(server).cas@[j].ca.log();
                let n = old(server).cas@[j].ca.history@.len() as int;
                match command_of(*req) {
                    None => final(server).cas@ == old(server).cas@ && match r {
                        ProvisioningResponse::List { resources } => resources@ == replay_model(
                            log,
                        ).resources,
                        _ => false,
                    },
                    Some(c) => match outcome(log, n, c, n) {
                        Ok(ms) => final(server).cas@[j].ca.log() == log + ms && match (*req, r) {
                            (
                                ProvisioningRequest::Issue { key_id, resources },
                                ProvisioningResponse::Issued { key_id: k, serial, resources: rs },
                            ) => k == key_id && rs@ == resources@ && ms == seq![
                                EventModel::CertIssued(key_id, serial, resources@),
                            ],
                            (
                                ProvisioningRequest::Revoke { key_id },
                                ProvisioningResponse::Revoked { key_id: k },
                            ) => k == key_id && ms == seq![EventModel::CertRevoked(key_id)],
                            _ => false,
                        },
                        Err(e) => final(server).cas@[j].ca.log() == log && r == (
                        ProvisioningResponse::Error { code: error_code(e) }),
                    },
                }
            },
{
    let i = match server.find(handle) {
        Some(i) => i,
        None => {
            return ProvisioningResponse::Error { code: ERR_NO_SUCH_CLASS };
        },
    };
    proof {
        assert forall|j: int|
            0 <= j < server.cas@.len() && (#[trigger] server.cas@[j]).handle@ == handle@ implies j
            == i by {
            if j < i {
                assert(server.cas@[j].handle@ != server.cas@[i as int].handle@);
            } else if j > i {
                assert(server.cas@[i as int].handle@ != server.cas@[j].handle@);
            }
        }
    }
    let expected = server.cas[i].ca.version();
    match req {
        ProvisioningRequest::List => {
            assert(server.cas@[i as int].ca.wf());
            ProvisioningResponse::List { resources: copy_units(&server.cas[i].ca.snapshot.resources) }
        },
        ProvisioningRequest::Issue { key_id, resources } => {
            let c = CaCommand::IssueCert { key_id: *key_id, resources: copy_units(resources) };
            match server.send_command(handle, &c, expected, actor, timestamp) {
                Ok(events) => {
                    proof {
                        assert(events_view(events@).len() == 1);
                    }
                    match &events[0] {
                        CaEvent::CertIssued { key_id: k, serial, resources: rs } => {
                            ProvisioningResponse::Issued {
                                key_id: *k,
                                serial: *serial,
                                resources: copy_units(rs),
                            }
                        },
                        _ => {
                            proof {
                                assert(events_view(events@)[0] == events@[0]@);
                            }
                            ProvisioningResponse::Error { code: ERR_INTERNAL }
                        },
                    }
                },
                Err(e) => ProvisioningResponse::Error { code: code_of(e) },
            }
        },
        ProvisioningRequest::Revoke { key_id } => {
            let c = CaCommand::RevokeCert { key_id: *key_id };
            match server.send_command(handle, &c, expected, actor, timestamp) {
                Ok(events) => {
                    proof {
                        assert(events_view(events@).len() == 1);
                    }
                    ProvisioningResponse::Revoked { key_id: *key_id }
                },
                Err(e) => ProvisioningResponse::Error { code: code_of(e) },
            }
        },
    }
}

} // verus!
