use vstd::prelude::*;

verus! {

/// The largest serial number a certificate can get.
pub const MAX_SERIAL: u64 = 0xffff_ffff_ffff_ffff;

/// Whether every resource unit in `wanted` is also in `held`.
pub open spec fn contains_all(held: Seq<u64>, wanted: Seq<u64>) -> bool {
    forall|i: int| 0 <= i < wanted.len() ==> held.contains(#[trigger] wanted[i])
}

/// Copies a list of resource units.
pub fn copy_units(v: &Vec<u64>) -> (r: Vec<u64>)
    ensures
        r@ == v@,
{
    let mut r: Vec<u64> = Vec::new();
    let mut i: usize = 0;
    while i < v.len()
        invariant
            i <= v.len(),
            r@ == v@.subrange(0, i as int),
        decreases v.len() - i,
    {
        r.push(v[i]);
        i += 1;
    }
    assert(r@ =~= v@);
    r
}

/// Whether two lists of resource units are the same list.
pub fn same_units(a: &Vec<u64>, b: &Vec<u64>) -> (r: bool)
    ensures
        r == (a@ == b@),
{
    if a.len() != b.len() {
        return false;
    }
    let mut i: usize = 0;
    while i < a.len()
        invariant
            i <= a.len(),
            a.len() == b.len(),
            a@.subrange(0, i as int) == b@.subrange(0, i as int),
        decreases a.len() - i,
    {
        if a[i] != b[i] {
            assert(a@[i as int] != b@[i as int]);
            return false;
        }
        assert(a@.subrange(0, i + 1) =~= a@.subrange(0, i as int).push(a@[i as int]));
        assert(b@.subrange(0, i + 1) =~= b@.subrange(0, i as int).push(b@[i as int]));
        i += 1;
    }
    assert(a@ =~= a@.subrange(0, a.len() as int));
    assert(b@ =~= b@.subrange(0, b.len() as int));
    true
}

/// Whether `held` contains every unit of `wanted`.
pub fn holds_all(held: &Vec<u64>, wanted: &Vec<u64>) -> (r: bool)
    ensures
        r == contains_all(held@, wanted@),
{
    let mut i: usize = 0;
    while i < wanted.len()
        invariant
            i <= wanted.len(),
            forall|j: int| 0 <= j < i ==> held@.contains(#[trigger] wanted@[j]),
        decreases wanted.len() - i,
    {
        let w = wanted[i];
        let mut found = false;
        let mut j: usize = 0;
        while j < held.len()
            invariant
                j <= held.len(),
                found == exists|k: int| 0 <= k < j && held@[k] == w,
            decreases held.len() - j,
        {
            if held[j] == w {
                found = true;
            }
            j += 1;
        }
        if !found {
            assert(!held@.contains(wanted@[i as int]));
            return false;
        }
        i += 1;
    }
    true
}

/// The state of one certificate as the aggregate knows it.
pub struct CertModel {
    pub key_id: u64,
    pub serial: u64,
    pub resources: Seq<u64>,
    pub revoked: bool,
}

/// A resource certificate issued by this CA, identified by the key it certifies.
pub struct Certificate {
    pub key_id: u64,
    pub serial: u64,
    pub resources: Vec<u64>,
    pub revoked: bool,
}

impl View for Certificate {
    type V = CertModel;

    open spec fn view(&self) -> CertModel {
        CertModel {
            key_id: self.key_id,
            serial: self.serial,
            resources: self.resources@,
            revoked: self.revoked,
        }
    }
}

impl Certificate {
    pub fn duplicate(&self) -> (r: Certificate)
        ensures
            r@ == self@,
    {
        Certificate {
            key_id: self.key_id,
            serial: self.serial,
            resources: copy_units(&self.resources),
            revoked: self.revoked,
        }
    }
}

/// What an event says, over plain values.
pub enum EventModel {
    RepoAdded(u64),
    ResourcesUpdated(Seq<u64>),
    CertIssued(u64, u64, Seq<u64>),
    CertRevoked(u64),
}

/// An immutable fact about one CA.
pub enum CaEvent {
    /// The CA was added to the repository with this identifier.
    RepoAdded { repo_id: u64 },
    /// The CA now holds exactly these resource units.
    ResourcesUpdated { resources: Vec<u64> },
    /// A certificate with this serial was issued for a key over these units.
    CertIssued { key_id: u64, serial: u64, resources: Vec<u64> },
    /// The certificates for this key were revoked.
    CertRevoked { key_id: u64 },
}

impl View for CaEvent {
    type V = EventModel;

    open spec fn view(&self) -> EventModel {
        match self {
            CaEvent::RepoAdded { repo_id } => EventModel::RepoAdded(*repo_id),
            CaEvent::ResourcesUpdated { resources } => EventModel::ResourcesUpdated(resources@),
            CaEvent::CertIssued { key_id, serial, resources } => EventModel::CertIssued(
                *key_id,
                *serial,
                resources@,
            ),
            CaEvent::CertRevoked { key_id } => EventModel::CertRevoked(*key_id),
        }
    }
}

impl CaEvent {
    pub fn duplicate(&self) -> (r: CaEvent)
        ensures
            r@ == self@,
    {
        match self {
            CaEvent::RepoAdded { repo_id } => CaEvent::RepoAdded { repo_id: *repo_id },
            CaEvent::ResourcesUpdated { resources } => CaEvent::ResourcesUpdated {
                resources: copy_units(resources),
            },
            CaEvent::CertIssued { key_id, serial, resources } => CaEvent::CertIssued {
                key_id: *key_id,
                serial: *serial,
                resources: copy_units(resources),
            },
            CaEvent::CertRevoked { key_id } => CaEvent::CertRevoked { key_id: *key_id },
        }
    }
}

/// The events of a log, as plain values.
pub open spec fn events_view(v: Seq<CaEvent>) -> Seq<EventModel> {
    v.map_values(|e: CaEvent| e@)
}

/// Copies a list of events.
pub fn copy_events(v: &Vec<CaEvent>) -> (r: Vec<CaEvent>)
    ensures
        events_view(r@) == events_view(v@),
{
    let mut r: Vec<CaEvent> = Vec::new();
    let mut i: usize = 0;
    while i < v.len()
        invariant
            i <= v.len(),
            events_view(r@) == events_view(v@.subrange(0, i as int)),
        decreases v.len() - i,
    {
        r.push(v[i].duplicate());
        assert(events_view(v@.subrange(0, i + 1)) =~= events_view(v@.subrange(0, i as int)).push(
            v@[i as int]@,
        ));
        assert(events_view(r@) =~= events_view(v@.subrange(0, i + 1)));
        i += 1;
    }
    assert(v@ =~= v@.subrange(0, v.len() as int));
    r
}

/// A log of one event.
pub fn one_event(e: CaEvent) -> (r: Vec<CaEvent>)
    ensures
        events_view(r@) == seq![e@],
{
    let mut r: Vec<CaEvent> = Vec::new();
    r.push(e);
    assert(events_view(r@) =~= seq![e@]);
    r
}

/// The materialised state of one CA.
pub struct CaModel {
    pub repo: Option<u64>,
    pub resources: Seq<u64>,
    pub certs: Seq<CertModel>,
    pub next_serial: u64,
}

/// The state of a CA before any event.
pub open spec fn initial_model() -> CaModel {
    CaModel { repo: None, resources: Seq::empty(), certs: Seq::empty(), next_serial: 1 }
}

/// A certificate with the revocation applied where its key matches.
pub open spec fn revoke_cert(c: CertModel, key_id: u64) -> CertModel {
    if c.key_id == key_id {
        CertModel { revoked: true, ..c }
    } else {
        c
    }
}

/// Certificates with the revocation of one key applied.
pub open spec fn revoke_all(certs: Seq<CertModel>, key_id: u64) -> Seq<CertModel> {
    certs.map_values(|c: CertModel| revoke_cert(c, key_id))
}

/// The serial that follows `serial`, staying at the largest one.
pub open spec fn serial_after(serial: u64) -> u64 {
    if serial < MAX_SERIAL {
        (serial + 1) as u64
    } else {
        serial
    }
}

/// The state after one event.
pub open spec fn apply_model(s: CaModel, e: EventModel) -> CaModel {
    match e {
        EventModel::RepoAdded(r) => CaModel { repo: Some(r), ..s },
        EventModel::ResourcesUpdated(rs) => CaModel { resources: rs, ..s },
        EventModel::CertIssued(k, serial, rs) => CaModel {
            certs: s.certs.push(CertModel { key_id: k, serial, resources: rs, revoked: false }),
            next_serial: serial_after(serial),
            ..s
        },
        EventModel::CertRevoked(k) => CaModel {
            certs: revoke_all(s.certs, k),
            ..s
        },
    }
}

/// The state that the events of a log give, folded from the initial state.
pub open spec fn replay_model(events: Seq<EventModel>) -> CaModel
    decreases events.len(),
{
    if events.len() == 0 {
        initial_model()
    } else {
        apply_model(replay_model(events.drop_last()), events.last())
    }
}

/// The state after a sequence of events, starting from a given state.
pub open spec fn apply_all(s: CaModel, es: Seq<EventModel>) -> CaModel
    decreases es.len(),
{
    if es.len() == 0 {
        s
    } else {
        apply_model(apply_all(s, es.drop_last()), es.last())
    }
}

/// Whether the CA has a certificate for the key.
pub open spec fn has_key(s: CaModel, key_id: u64) -> bool {
    exists|i: int| 0 <= i < s.certs.len() && (#[trigger] s.certs[i]).key_id == key_id
}

/// Whether the CA has a certificate for the key that is not revoked.
pub open spec fn has_active_key(s: CaModel, key_id: u64) -> bool {
    exists|i: int|
        0 <= i < s.certs.len() && (#[trigger] s.certs[i]).key_id == key_id && !s.certs[i].revoked
}

/// Why a command was rejected.
#[derive(Clone, Copy, Debug, PartialEq, Eq, Structural)]
pub enum CommandError {
    /// The requested resources are not all held by the issuer.
    ResourcesNotHeld,
    /// No certificate for this key was ever issued.
    KeyNotFound,
    /// The certificate for this key is revoked already.
    AlreadyRevoked,
    /// No serial numbers are left.
    SerialsExhausted,
}

/// An intent to change a CA.
pub enum CaCommand {
    /// Add the CA to a repository.
    AddRepo { repo_id: u64 },
    /// Set the resources the CA holds.
    UpdateResources { resources: Vec<u64> },
    /// Issue a certificate for a key over a subset of the held resources.
    IssueCert { key_id: u64, resources: Vec<u64> },
    /// Revoke the certificate for a key.
    RevokeCert { key_id: u64 },
}

/// The events a command yields on a state, or why it is rejected.
pub open spec fn validate_model(s: CaModel, c: CaCommand) -> Result<Seq<EventModel>, CommandError> {
    match c {
        CaCommand::AddRepo { repo_id } => if s.repo == Some(repo_id) {
            Ok(Seq::empty())
        } else {
            Ok(seq![EventModel::RepoAdded(repo_id)])
        },
        CaCommand::UpdateResources { resources } => if resources@ == s.resources {
            Ok(Seq::empty())
        } else {
            Ok(seq![EventModel::ResourcesUpdated(resources@)])
        },
        CaCommand::IssueCert { key_id, resources } => if !contains_all(s.resources, resources@) {
            Err(CommandError::ResourcesNotHeld)
        } else if s.next_serial == MAX_SERIAL {
            Err(CommandError::SerialsExhausted)
        } else {
            Ok(seq![EventModel::CertIssued(key_id, s.next_serial, resources@)])
        },
        CaCommand::RevokeCert { key_id } => if !has_key(s, key_id) {
            Err(CommandError::KeyNotFound)
        } else if !has_active_key(s, key_id) {
            Err(CommandError::AlreadyRevoked)
        } else {
            Ok(seq![EventModel::CertRevoked(key_id)])
        },
    }
}

/// An issue request for resources that the issuer does not hold is rejected
/// and yields no events; one for held resources yields one event after which
/// the new certificate covers exactly the requested resources.
pub proof fn law_issue_containment(s: CaModel, key_id: u64, resources: Vec<u64>)
    ensures
        !contains_all(s.resources, resources@) ==> validate_model(
            s,
            CaCommand::IssueCert { key_id, resources },
        ) == Err::<Seq<EventModel>, CommandError>(CommandError::ResourcesNotHeld),
        contains_all(s.resources, resources@) && s.next_serial < MAX_SERIAL
            ==> match validate_model(s, CaCommand::IssueCert { key_id, resources }) {
            Ok(ms) => {
                let t = apply_all(s, ms);
                &&& ms.len() == 1
                &&& t.certs.len() == s.certs.len() + 1
                &&& t.certs.last().key_id == key_id
                &&& t.certs.last().resources == resources@
                &&& !t.certs.last().revoked
            },
            Err(_) => false,
        },
{
    let c = CaCommand::IssueCert { key_id, resources };
    if let Ok(ms) = validate_model(s, c) {
        assert(ms.drop_last() =~= Seq::<EventModel>::empty());
        assert(apply_all(s, ms.drop_last()) == s);
        assert(apply_all(s, ms) == apply_model(s, ms[0]));
    }
}

/// Once a revocation of a key is accepted and applied, revoking the same key
/// again is rejected as already revoked, with no events.
pub proof fn law_revocation_final(s: CaModel, key_id: u64, ms: Seq<EventModel>)
    requires
        validate_model(s, CaCommand::RevokeCert { key_id }) == Ok::<Seq<EventModel>, CommandError>(ms),
    ensures
        validate_model(apply_all(s, ms), CaCommand::RevokeCert { key_id })
            == Err::<Seq<EventModel>, CommandError>(CommandError::AlreadyRevoked),
{
    assert(ms.drop_last() =~= Seq::<EventModel>::empty());
    assert(apply_all(s, ms.drop_last()) == s);
    let t = apply_all(s, ms);
    assert(t == apply_model(s, ms[0]));
    assert(t.certs == revoke_all(s.certs, key_id));
    let i = choose|i: int| 0 <= i < s.certs.len() && (#[trigger] s.certs[i]).key_id == key_id;
    assert(t.certs[i].key_id == key_id);
    assert(has_key(t, key_id));
    assert forall|j: int| 0 <= j < t.certs.len() && (#[trigger] t.certs[j]).key_id == key_id implies t.certs[j].revoked by {
        assert(t.certs[j] == revoke_cert(s.certs[j], key_id));
    }
}

/// The materialised state of one CA.
pub struct CaSnapshot {
    pub repo: Option<u64>,
    pub resources: Vec<u64>,
    pub certs: Vec<Certificate>,
    pub next_serial: u64,
}

pub open spec fn certs_view(v: Seq<Certificate>) -> Seq<CertModel> {
    v.map_values(|c: Certificate| c@)
}

impl View for CaSnapshot {
    type V = CaModel;

    open spec fn view(&self) -> CaModel {
        CaModel {
            repo: self.repo,
            resources: self.resources@,
            certs: certs_view(self.certs@),
            next_serial: self.next_serial,
        }
    }
}

impl CaSnapshot {
    /// The state of a CA before any event.
    pub fn new() -> (r: CaSnapshot)
        ensures
            r@ == initial_model(),
    {
        let r = CaSnapshot { repo: None, resources: Vec::new(), certs: Vec::new(), next_serial: 1 };
        assert(r@.certs =~= Seq::<CertModel>::empty());
        r
    }

    /// Finds the position of the certificate for a key.
    pub fn find_cert(&self, key_id: u64) -> (r: Option<usize>)
        ensures
            match r {
                Some(i) => i < self.certs@.len() && self.certs@[i as int].key_id == key_id
                    && forall|j: int| 0 <= j < i ==> (#[trigger] self.certs@[j]).key_id != key_id,
                None => !has_key(self@, key_id),
            },
    {
        let mut i: usize = 0;
        while i < self.certs.len()
            invariant
                i <= self.certs.len(),
                forall|j: int| 0 <= j < i ==> (#[trigger] self.certs@[j]).key_id != key_id,
            decreases self.certs.len() - i,
        {
            if self.certs[i].key_id == key_id {
                return Some(i);
            }
            i += 1;
        }
        assert forall|j: int| 0 <= j < self@.certs.len() implies (#[trigger] self@.certs[j]).key_id
            != key_id by {
            assert(self@.certs[j] == self.certs@[j]@);
        }
        None
    }

    /// Whether a certificate for the key is active.
    pub fn key_is_active(&self, key_id: u64) -> (r: bool)
        ensures
            r == has_active_key(self@, key_id),
    {
        let mut i: usize = 0;
        while i < self.certs.len()
            invariant
                i <= self.certs.len(),
                forall|j: int|
                    0 <= j < i ==> !((#[trigger] self.certs@[j]).key_id == key_id
                        && !self.certs@[j].revoked),
            decreases self.certs.len() - i,
        {
            if self.certs[i].key_id == key_id && !self.certs[i].revoked {
                assert(self@.certs[i as int] == self.certs@[i as int]@);
                return true;
            }
            i += 1;
        }
        assert forall|j: int| 0 <= j < self@.certs.len() implies !((#[trigger] self@.certs[j]).key_id
            == key_id && !self@.certs[j].revoked) by {
            assert(self@.certs[j] == self.certs@[j]@);
        }
        false
    }

    /// Applies one event. This reads nothing but the state and the event.
    pub fn apply(&mut self, e: &CaEvent)
        ensures
            final(self)@ == apply_model(old(self)@, e@),
    {
        match e {
            CaEvent::RepoAdded { repo_id } => {
                self.repo = Some(*repo_id);
            },
            CaEvent::ResourcesUpdated { resources } => {
                self.resources = copy_units(resources);
            },
            CaEvent::CertIssued { key_id, serial, resources } => {
                let c = Certificate {
                    key_id: *key_id,
                    serial: *serial,
                    resources: copy_units(resources),
                    revoked: false,
                };
                self.certs.push(c);
                self.next_serial = if *serial < MAX_SERIAL {
                    *serial + 1
                } else {
                    *serial
                };
                assert(self@.certs =~= old(self)@.certs.push(c@));
            },
            CaEvent::CertRevoked { key_id } => {
                let k = *key_id;
                let mut certs: Vec<Certificate> = Vec::new();
                let mut i: usize = 0;
                while i < self.certs.len()
                    invariant
                        i <= self.certs.len(),
                        self@ == old(self)@,
                        certs_view(certs@) == revoke_all(certs_view(self.certs@.subrange(0, i as int)), k),
                    decreases self.certs.len() - i,
                {
                    let mut c = self.certs[i].duplicate();
                    if c.key_id == k {
                        c.revoked = true;
                    }
                    assert(c@ == revoke_cert(self.certs@[i as int]@, k));
                    let ghost before = certs@;
                    certs.push(c);
                    assert(certs_view(certs@) =~= certs_view(before).push(c@));
                    assert(certs_view(self.certs@.subrange(0, i + 1)) =~= certs_view(
                        self.certs@.subrange(0, i as int),
                    ).push(self.certs@[i as int]@));
                    assert(revoke_all(certs_view(self.certs@.subrange(0, i + 1)), k) =~= revoke_all(
                        certs_view(self.certs@.subrange(0, i as int)),
                        k,
                    ).push(revoke_cert(self.certs@[i as int]@, k)));
                    assert(certs_view(certs@) =~= revoke_all(certs_view(self.certs@.subrange(0, i + 1)), k));
                    i += 1;
                }
                assert(self.certs@ =~= self.certs@.subrange(0, self.certs.len() as int));
                self.certs = certs;
            },
        }
    }

    /// The events a command yields on this state, or why it is rejected. The
    /// state itself is left as it is.
    pub fn validate(&self, c: &CaCommand) -> (r: Result<Vec<CaEvent>, CommandError>)
        ensures
            match (r, validate_model(self@, *c)) {
                (Ok(es), Ok(ms)) => events_view(es@) == ms,
                (Err(e), Err(m)) => e == m,
                _ => false,
            },
    {
        match c {
            CaCommand::AddRepo { repo_id } => {
                let present = match self.repo {
                    Some(r) => r == *repo_id,
                    None => false,
                };
                if present {
                    let r: Vec<CaEvent> = Vec::new();
                    assert(events_view(r@) =~= Seq::empty());
                    Ok(r)
                } else {
                    let r = one_event(CaEvent::RepoAdded { repo_id: *repo_id });
                    assert(events_view(r@) =~= seq![EventModel::RepoAdded(*repo_id)]);
                    Ok(r)
                }
            },
            CaCommand::UpdateResources { resources } => {
                if same_units(resources, &self.resources) {
                    let r: Vec<CaEvent> = Vec::new();
                    assert(events_view(r@) =~= Seq::empty());
                    Ok(r)
                } else {
                    let r = one_event(CaEvent::ResourcesUpdated { resources: copy_units(resources) });
                    assert(events_view(r@) =~= seq![EventModel::ResourcesUpdated(resources@)]);
                    Ok(r)
                }
            },
            CaCommand::IssueCert { key_id, resources } => {
                if !holds_all(&self.resources, resources) {
                    Err(CommandError::ResourcesNotHeld)
                } else if self.next_serial == MAX_SERIAL {
                    Err(CommandError::SerialsExhausted)
                } else {
                    let r = one_event(CaEvent::CertIssued {
                            key_id: *key_id,
                            serial: self.next_serial,
                            resources: copy_units(resources),
                        });
                    assert(events_view(r@) =~= seq![
                        EventModel::CertIssued(*key_id, self.next_serial, resources@),
                    ]);
                    Ok(r)
                }
            },
            CaCommand::RevokeCert { key_id } => {
                match self.find_cert(*key_id) {
                    None => Err(CommandError::KeyNotFound),
                    Some(i) => {
                        assert(self@.certs[i as int] == self.certs@[i as int]@);
                        if !self.key_is_active(*key_id) {
                            Err(CommandError::AlreadyRevoked)
                        } else {
                            let r = one_event(CaEvent::CertRevoked { key_id: *key_id });
                            assert(events_view(r@) =~= seq![EventModel::CertRevoked(*key_id)]);
                            Ok(r)
                        }
                    },
                }
            },
        }
    }
}

} // verus!
