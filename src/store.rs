use vstd::prelude::*;

use crate::aggregate::{
    apply_all, copy_events, events_view, replay_model, validate_model, CaCommand, CaEvent,
    CaSnapshot, CommandError, EventModel,
};

verus! {

/// Why a command sent to the store was not accepted.
#[derive(Clone, Copy, Debug, PartialEq, Eq, Structural)]
pub enum StoreError {
    /// The expected sequence number is not the current one: refresh and retry.
    Conflict,
    /// No CA has this handle.
    UnknownHandle,
    /// A CA with this handle exists already.
    DuplicateHandle,
    /// The command was validated and rejected.
    Rejected(CommandError),
    /// The log has reached the largest length this machine can count.
    LogFull,
}

/// Which kind of command a history record is about.
#[derive(Clone, Copy, Debug, PartialEq, Eq, Structural)]
pub enum CommandKind {
    AddRepo,
    UpdateResources,
    IssueCert,
    RevokeCert,
}

pub open spec fn kind_of(c: CaCommand) -> CommandKind {
    match c {
        CaCommand::AddRepo { .. } => CommandKind::AddRepo,
        CaCommand::UpdateResources { .. } => CommandKind::UpdateResources,
        CaCommand::IssueCert { .. } => CommandKind::IssueCert,
        CaCommand::RevokeCert { .. } => CommandKind::RevokeCert,
    }
}

/// The audit record of one accepted command.
pub struct CommandRecord {
    /// The position of the command among the accepted ones, from 1.
    pub key: usize,
    /// The sequence number of the first event the command produced, from 1.
    pub first_seq: usize,
    pub actor: String,
    pub timestamp: u64,
    pub kind: CommandKind,
    /// Exactly the events the command produced, in order.
    pub events: Vec<CaEvent>,
}

/// The events of all records, in order.
pub open spec fn history_events(h: Seq<CommandRecord>) -> Seq<EventModel>
    decreases h.len(),
{
    if h.len() == 0 {
        Seq::empty()
    } else {
        history_events(h.drop_last()) + events_view(h.last().events@)
    }
}

/// The result of a command sent with an expected sequence number against a
/// log after `accepted` accepted commands: the events to append, or why it is
/// not accepted. The sequence number counts accepted commands, so every
/// accepted command moves it on, with or without events.
pub open spec fn outcome(log: Seq<EventModel>, accepted: int, c: CaCommand, expected: int) -> Result<
    Seq<EventModel>,
    StoreError,
> {
    if expected != accepted {
        Err(StoreError::Conflict)
    } else if log.len() >= usize::MAX || accepted >= usize::MAX {
        Err(StoreError::LogFull)
    } else {
        match validate_model(replay_model(log), c) {
            Ok(ms) => Ok(ms),
            Err(e) => Err(StoreError::Rejected(e)),
        }
    }
}

/// Replaying a log extended by some events is applying those events to the
/// replay of the log.
pub proof fn lemma_replay_append(log: Seq<EventModel>, es: Seq<EventModel>)
    ensures
        replay_model(log + es) == apply_all(replay_model(log), es),
    decreases es.len(),
{
    if es.len() == 0 {
        assert(log + es =~= log);
    } else {
        lemma_replay_append(log, es.drop_last());
        assert((log + es).drop_last() =~= log + es.drop_last());
        assert((log + es).last() == es.last());
    }
}

/// The snapshot kept for a CA is the one that replaying its whole log gives;
/// after an accepted command, replaying the extended log gives that snapshot
/// with the command's events applied.
pub proof fn law_replay_matches_snapshot(a: Aggregate, c: CaCommand, ms: Seq<EventModel>)
    requires
        a.wf(),
        outcome(a.log(), a.history@.len() as int, c, a.history@.len() as int) == Ok::<
            Seq<EventModel>,
            StoreError,
        >(ms),
    ensures
        a.snapshot@ == replay_model(a.log()),
        replay_model(a.log() + ms) == apply_all(a.snapshot@, ms),
{
    lemma_replay_append(a.log(), ms);
}

/// Two commands sent at the same expected sequence number: once the first is
/// accepted, with or without events, the second is refused as a conflict,
/// whatever it is, and appends nothing.
pub proof fn law_concurrent_conflict(
    log: Seq<EventModel>,
    accepted: int,
    first: CaCommand,
    second: CaCommand,
    expected: int,
    ms: Seq<EventModel>,
)
    requires
        outcome(log, accepted, first, expected) == Ok::<Seq<EventModel>, StoreError>(ms),
    ensures
        outcome(log + ms, accepted + 1, second, expected) == Err::<Seq<EventModel>, StoreError>(
            StoreError::Conflict,
        ),
{
}

/// What sending a command at an expected sequence number did to a CA: on
/// acceptance the events are appended and the command recorded with exactly
/// those events; on refusal nothing changes.
pub open spec fn command_sent(
    before: Aggregate,
    after: Aggregate,
    c: CaCommand,
    expected: int,
    actor: Seq<char>,
    timestamp: u64,
    r: Result<Vec<CaEvent>, StoreError>,
) -> bool {
    match (r, outcome(before.log(), before.history@.len() as int, c, expected)) {
        (Ok(es), Ok(ms)) => {
            &&& events_view(es@) == ms
            &&& after.log() == before.log() + ms
            &&& after.history@.len() == before.history@.len() + 1
            &&& after.history@.drop_last() == before.history@
            &&& events_view(after.history@.last().events@) == ms
            &&& after.history@.last().first_seq == before.log().len() + 1
            &&& after.history@.last().kind == kind_of(c)
            &&& after.history@.last().actor@ == actor
            &&& after.history@.last().timestamp == timestamp
        },
        (Err(e), Err(m)) => {
            &&& e == m
            &&& after.log() == before.log()
            &&& after.history@ == before.history@
        },
        _ => false,
    }
}

/// One CA: its event log, the snapshot cached from it, and its history.
pub struct Aggregate {
    pub events: Vec<CaEvent>,
    pub snapshot: CaSnapshot,
    pub history: Vec<CommandRecord>,
}

impl Aggregate {
    /// The event log as plain values.
    pub open spec fn log(&self) -> Seq<EventModel> {
        events_view(self.events@)
    }

    pub open spec fn wf(&self) -> bool {
        &&& self.snapshot@ == replay_model(self.log())
        &&& history_events(self.history@) == self.log()
        &&& forall|i: int|
            0 <= i < self.history@.len() ==> (#[trigger] self.history@[i]).key == i + 1
    }

    /// A CA with no events.
    pub fn new() -> (r: Aggregate)
        ensures
            r.wf(),
            r.log() == Seq::<EventModel>::empty(),
            r.history@.len() == 0,
    {
        let r = Aggregate { events: Vec::new(), snapshot: CaSnapshot::new(), history: Vec::new() };
        assert(r.log() =~= Seq::<EventModel>::empty());
        r
    }

    /// Rebuilds the snapshot from the event log alone.
    pub fn replay(&self) -> (r: CaSnapshot)
        ensures
            r@ == replay_model(self.log()),
            self.wf() ==> r@ == self.snapshot@,
    {
        let mut s = CaSnapshot::new();
        let mut i: usize = 0;
        while i < self.events.len()
            invariant
                i <= self.events.len(),
                s@ == replay_model(events_view(self.events@.subrange(0, i as int))),
            decreases self.events.len() - i,
        {
            s.apply(&self.events[i]);
            let ghost pre = events_view(self.events@.subrange(0, i as int));
            assert(events_view(self.events@.subrange(0, i + 1)) =~= pre.push(self.events@[i as int]@));
            assert(pre.push(self.events@[i as int]@).drop_last() =~= pre);
            i += 1;
        }
        assert(self.events@ =~= self.events@.subrange(0, self.events.len() as int));
        s
    }

    /// The number of accepted commands, which the next command must name as
    /// its expected sequence number.
    pub fn version(&self) -> (r: usize)
        ensures
            r == self.history@.len(),
    {
        self.history.len()
    }

    /// Validates a command against the current state and, when it is accepted
    /// at the expected sequence number, appends its events and updates the
    /// snapshot, and records the command in the history.
    pub fn send_command(&mut self, c: &CaCommand, expected: usize, actor: String, timestamp: u64) -> (r:
        Result<Vec<CaEvent>, StoreError>)
        requires
            old(self).wf(),
        ensures
            final(self).wf(),
            command_sent(*old(self), *final(self), *c, expected as int, actor@, timestamp, r),
    {
        if expected != self.history.len() {
            return Err(StoreError::Conflict);
        }
        if self.events.len() == usize::MAX || self.history.len() == usize::MAX {
            return Err(StoreError::LogFull);
        }
        let ghost old_log = self.log();
        let produced = match self.snapshot.validate(c) {
            Ok(es) => es,
            Err(e) => {
                return Err(StoreError::Rejected(e));
            },
        };
        let ghost ms = events_view(produced@);
        let first_seq = self.events.len() + 1;
        let mut i: usize = 0;
        while i < produced.len()
            invariant
                i <= produced.len(),
                ms == events_view(produced@),
                self.log() == old_log + ms.subrange(0, i as int),
                self.snapshot@ == replay_model(self.log()),
                self.history@ == old(self).history@,
                history_events(self.history@) == old_log,
            decreases produced.len() - i,
        {
            let e = produced[i].duplicate();
            self.snapshot.apply(&e);
            let ghost pre = self.log();
            self.events.push(e);
            assert(self.log() =~= pre.push(e@));
            assert(self.log().drop_last() =~= pre);
            assert(ms.subrange(0, i + 1) =~= ms.subrange(0, i as int).push(ms[i as int]));
            assert(old_log + ms.subrange(0, i + 1) =~= (old_log + ms.subrange(0, i as int)).push(
                ms[i as int],
            ));
            i += 1;
        }
        assert(ms.subrange(0, produced.len() as int) =~= ms);
        let kind = match c {
            CaCommand::AddRepo { .. } => CommandKind::AddRepo,
            CaCommand::UpdateResources { .. } => CommandKind::UpdateResources,
            CaCommand::IssueCert { .. } => CommandKind::IssueCert,
            CaCommand::RevokeCert { .. } => CommandKind::RevokeCert,
        };
        let record = CommandRecord {
            key: self.history.len() + 1,
            first_seq,
            actor,
            timestamp,
            kind,
            events: copy_events(&produced),
        };
        let ghost old_hist = self.history@;
        self.history.push(record);
        assert(self.history@.drop_last() =~= old_hist);
        assert forall|j: int| 0 <= j < self.history@.len() implies (#[trigger] self.history@[j]).key
            == j + 1 by {
            if j < old_hist.len() {
                assert(self.history@[j] == old_hist[j]);
            }
        }
        Ok(produced)
    }

    /// The record of the command with this key, if there is one.
    pub fn command_details(&self, key: usize) -> (r: Option<&CommandRecord>)
        requires
            self.wf(),
        ensures
            match r {
                Some(rec) => 1 <= key <= self.history@.len() && *rec == self.history@[key - 1],
                None => !(1 <= key <= self.history@.len()),
            },
    {
        if key >= 1 && key <= self.history.len() {
            Some(&self.history[key - 1])
        } else {
            None
        }
    }
}

/// A filter on history records: an inclusive time range, and a page of the
/// matching rows.
#[derive(Clone, Copy, Debug, PartialEq, Eq, Structural)]
pub struct HistoryCriteria {
    pub after: u64,
    pub before: u64,
    pub offset: usize,
    pub rows: usize,
}

impl HistoryCriteria {
    /// Every record, on one page.
    pub fn all() -> (r: HistoryCriteria)
        ensures
            r == (HistoryCriteria { after: 0, before: u64::MAX, offset: 0, rows: usize::MAX }),
    {
        HistoryCriteria { after: 0, before: u64::MAX, offset: 0, rows: usize::MAX }
    }
}

/// What a history page says of one command.
#[derive(Clone, Copy, Debug, PartialEq, Eq, Structural)]
pub struct CommandSummary {
    pub key: usize,
    pub timestamp: u64,
    pub kind: CommandKind,
    pub first_seq: usize,
    pub event_count: usize,
}

pub open spec fn summary_of(rec: CommandRecord) -> CommandSummary {
    CommandSummary {
        key: rec.key,
        timestamp: rec.timestamp,
        kind: rec.kind,
        first_seq: rec.first_seq,
        event_count: rec.events@.len() as usize,
    }
}

pub open spec fn in_range(rec: CommandRecord, crit: HistoryCriteria) -> bool {
    crit.after <= rec.timestamp <= crit.before
}

/// The summaries of the records in the time range, in order.
pub open spec fn matching(h: Seq<CommandRecord>, crit: HistoryCriteria) -> Seq<CommandSummary>
    decreases h.len(),
{
    if h.len() == 0 {
        Seq::empty()
    } else if in_range(h.last(), crit) {
        matching(h.drop_last(), crit).push(summary_of(h.last()))
    } else {
        matching(h.drop_last(), crit)
    }
}

pub open spec fn clip(n: int, total: int) -> int {
    if n < total {
        n
    } else {
        total
    }
}

/// Whether a page is the one that a query with these criteria gives over
/// these records.
pub open spec fn is_page(page: HistoryPage, h: Seq<CommandRecord>, crit: HistoryCriteria) -> bool {
    &&& page.total == matching(h, crit).len()
    &&& page.offset == crit.offset
    &&& page.commands@ == matching(h, crit).subrange(
        clip(crit.offset as int, page.total as int),
        clip(crit.offset + crit.rows, page.total as int),
    )
}

/// One page of a history query.
pub struct HistoryPage {
    /// How many records match the time range.
    pub total: usize,
    pub offset: usize,
    pub commands: Vec<CommandSummary>,
}

impl Aggregate {
    /// The records in the criteria's time range, from its offset, at most its
    /// number of rows.
    pub fn history_page(&self, crit: &HistoryCriteria) -> (r: HistoryPage)
        ensures
            is_page(r, self.history@, *crit),
    {
        let mut all: Vec<CommandSummary> = Vec::new();
        let mut i: usize = 0;
        while i < self.history.len()
            invariant
                i <= self.history.len(),
                all@ == matching(self.history@.subrange(0, i as int), *crit),
            decreases self.history.len() - i,
        {
            let rec = &self.history[i];
            assert(self.history@.subrange(0, i + 1).drop_last() =~= self.history@.subrange(0, i as int));
            if crit.after <= rec.timestamp && rec.timestamp <= crit.before {
                all.push(
                    CommandSummary {
                        key: rec.key,
                        timestamp: rec.timestamp,
                        kind: rec.kind,
                        first_seq: rec.first_seq,
                        event_count: rec.events.len(),
                    },
                );
            }
            i += 1;
        }
        assert(self.history@ =~= self.history@.subrange(0, self.history.len() as int));
        let total = all.len();
        let start = if crit.offset < total {
            crit.offset
        } else {
            total
        };
        let end = if crit.rows < total - start {
            start + crit.rows
        } else {
            total
        };
        let mut commands: Vec<CommandSummary> = Vec::new();
        let mut j: usize = start;
        while j < end
            invariant
                start <= j <= end,
                end <= all@.len(),
                commands@ == all@.subrange(start as int, j as int),
            decreases end - j,
        {
            commands.push(all[j]);
            assert(all@.subrange(start as int, j + 1) =~= all@.subrange(start as int, j as int).push(
                all@[j as int],
            ));
            j += 1;
        }
        HistoryPage { total, offset: crit.offset, commands }
    }
}

/// One CA of the server under its handle.
pub struct CaEntry {
    pub handle: String,
    pub ca: Aggregate,
}

/// All CAs, each reached through its handle.
pub struct CaServer {
    pub cas: Vec<CaEntry>,
}

impl CaServer {
    pub open spec fn wf(&self) -> bool {
        &&& forall|i: int| 0 <= i < self.cas@.len() ==> (#[trigger] self.cas@[i]).ca.wf()
        &&& forall|i: int, j: int|
            0 <= i < j < self.cas@.len() ==> (#[trigger] self.cas@[i]).handle@ != (
            #[trigger] self.cas@[j]).handle@
    }

    pub open spec fn has_handle(&self, handle: Seq<char>) -> bool {
        exists|i: int| 0 <= i < self.cas@.len() && (#[trigger] self.cas@[i]).handle@ == handle
    }

    /// A server with no CAs.
    pub fn new() -> (r: CaServer)
        ensures
            r.wf(),
            r.cas@.len() == 0,
    {
        CaServer { cas: Vec::new() }
    }

    /// The position of the CA with this handle.
    pub fn find(&self, handle: &String) -> (r: Option<usize>)
        ensures
            match r {
                Some(i) => i < self.cas@.len() && self.cas@[i as int].handle@ == handle@,
                None => !self.has_handle(handle@),
            },
    {
        let mut i: usize = 0;
        while i < self.cas.len()
            invariant
                i <= self.cas.len(),
                forall|j: int| 0 <= j < i ==> (#[trigger] self.cas@[j]).handle@ != handle@,
            decreases self.cas.len() - i,
        {
            if self.cas[i].handle.eq(handle) {
                return Some(i);
            }
            i += 1;
        }
        None
    }

    /// Adds a CA with no events under a handle that is not taken.
    pub fn add_ca(&mut self, handle: String) -> (r: Result<(), StoreError>)
        requires
            old(self).wf(),
        ensures
            final(self).wf(),
            old(self).has_handle(handle@) ==> r == Err::<(), StoreError>(StoreError::DuplicateHandle)
                && final(self).cas@ == old(self).cas@,
            !old(self).has_handle(handle@) ==> r is Ok && final(self).cas@.len() == old(self).cas@.len()
                + 1 && final(self).cas@.drop_last() == old(self).cas@ && final(self).cas@.last().handle@
                == handle@ && final(self).cas@.last().ca.log().len() == 0,
    {
        if self.find(&handle).is_some() {
            return Err(StoreError::DuplicateHandle);
        }
        let ghost old_cas = self.cas@;
        self.cas.push(CaEntry { handle, ca: Aggregate::new() });
        assert(self.cas@.drop_last() =~= old_cas);
        assert forall|i: int, j: int|
            0 <= i < j < self.cas@.len() implies (#[trigger] self.cas@[i]).handle@ != (
            #[trigger] self.cas@[j]).handle@ by {
            if j < old_cas.len() {
                assert(self.cas@[i] == old_cas[i] && self.cas@[j] == old_cas[j]);
            } else {
                assert(self.cas@[i] == old_cas[i]);
            }
        }
        Ok(())
    }

    /// The cached snapshot of the CA with this handle.
    pub fn get_snapshot(&self, handle: &String) -> (r: Option<&CaSnapshot>)
        requires
            self.wf(),
        ensures
            match r {
                Some(s) => exists|i: int|
                    0 <= i < self.cas@.len() && (#[trigger] self.cas@[i]).handle@ == handle@
                        && s@ == replay_model(self.cas@[i].ca.log()),
                None => !self.has_handle(handle@),
            },
    {
        match self.find(handle) {
            Some(i) => Some(&self.cas[i].ca.snapshot),
            None => None,
        }
    }

    /// A page of the history of the CA with this handle.
    pub fn get_ca_history(&self, handle: &String, crit: &HistoryCriteria) -> (r: Result<HistoryPage, StoreError>)
        ensures
            match r {
                Ok(page) => exists|i: int|
                    0 <= i < self.cas@.len() && (#[trigger] self.cas@[i]).handle@ == handle@
                        && is_page(page, self.cas@[i].ca.history@, *crit),
                Err(e) => e == StoreError::UnknownHandle && !self.has_handle(handle@),
            },
    {
        match self.find(handle) {
            Some(i) => Ok(self.cas[i].ca.history_page(crit)),
            None => Err(StoreError::UnknownHandle),
        }
    }

    /// The record of one command of the CA with this handle.
    pub fn get_ca_command_details(&self, handle: &String, key: usize) -> (r: Result<
        Option<&CommandRecord>,
        StoreError,
    >)
        requires
            self.wf(),
        ensures
            match r {
                Ok(Some(rec)) => exists|i: int|
                    0 <= i < self.cas@.len() && (#[trigger] self.cas@[i]).handle@ == handle@ && 1
                        <= key <= self.cas@[i].ca.history@.len() && *rec
                        == self.cas@[i].ca.history@[key - 1],
                Ok(None) => exists|i: int|
                    0 <= i < self.cas@.len() && (#[trigger] self.cas@[i]).handle@ == handle@ && !(1
                        <= key <= self.cas@[i].ca.history@.len()),
                Err(e) => e == StoreError::UnknownHandle && !self.has_handle(handle@),
            },
    {
        match self.find(handle) {
            Some(i) => Ok(self.cas[i].ca.command_details(key)),
            None => Err(StoreError::UnknownHandle),
        }
    }

    /// Sends a command to the CA with this handle; the other CAs are left as
    /// they are.
    pub fn send_command(
        &mut self,
        handle: &String,
        c: &CaCommand,
        expected: usize,
        actor: String,
        timestamp: u64,
    ) -> (r: Result<Vec<CaEvent>, StoreError>)
        requires
            old(self).wf(),
        ensures
            final(self).wf(),
            final(self).cas@.len() == old(self).cas@.len(),
            !old(self).has_handle(handle@) ==> r == Err::<Vec<CaEvent>, StoreError>(
                StoreError::UnknownHandle,
            ) && final(self).cas@ == old(self).cas@,
            forall|j: int|
                0 <= j < old(self).cas@.len() && (#[trigger] old(self).cas@[j]).handle@ != handle@
                    ==> final(self).cas@[j] == old(self).cas@[j],
            forall|j: int|
                0 <= j < old(self).cas@.len() && (#[trigger] old(self).cas@[j]).handle@ == handle@
                    ==> final(self).cas@[j].handle@ == handle@ && command_sent(
                    old(self).cas@[j].ca,
                    final(self).cas@[j].ca,
                    *c,
                    expected as int,
                    actor@,
                    timestamp,
                    r,
                ),
    {
        let i = match self.find(handle) {
            Some(i) => i,
            None => {
                return Err(StoreError::UnknownHandle);
            },
        };
        let ghost old_cas = self.cas@;
        let mut entry = self.cas.remove(i);
        let r = entry.ca.send_command(c, expected, actor, timestamp);
        self.cas.insert(i, entry);
        assert forall|j: int| 0 <= j < self.cas@.len() && j != i implies self.cas@[j] == old_cas[j] by {}
        assert forall|j: int|
            0 <= j < old_cas.len() && (#[trigger] old_cas[j]).handle@ == handle@ implies j == i by {
            if j != i {
                if j < i {
                    assert(old_cas[j].handle@ != old_cas[i as int].handle@);
                } else {
                    assert(old_cas[i as int].handle@ != old_cas[j].handle@);
                }
            }
        }
        assert forall|a: int, b: int|
            0 <= a < b < self.cas@.len() implies (#[trigger] self.cas@[a]).handle@ != (
            #[trigger] self.cas@[b]).handle@ by {
            assert(self.cas@[a].handle@ == old_cas[a].handle@);
            assert(self.cas@[b].handle@ == old_cas[b].handle@);
        }
        r
    }
}

} // verus!
