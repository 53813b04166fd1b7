//! The record of the connections that are open.

use super::address::Address;
use super::clock::{elapsed_between, Elapsed, Timestamp};
use super::event::{Event, SocketCloseError};
use vstd::prelude::*;

verus! {

/// What the reporter has to say after an event: the fields of one log line.
#[derive(Debug, PartialEq, Eq)]
pub enum Report {
    /// A connection was opened.
    Opened {
        /// The number of open connections, this one included.
        count: u64,
        /// The peer of the connection.
        addr: Address,
    },
    /// A connection was closed with both directions at their end.
    ClosedGracefully {
        /// The number of connections that remain open.
        count: u64,
        /// The peer of the connection.
        addr: Address,
        /// How long the connection was open.
        connected_for: Elapsed,
    },
    /// A connection was closed because one direction failed.
    ClosedWithError {
        /// The number of connections that remain open.
        count: u64,
        /// The peer of the connection.
        addr: Address,
        /// The failure that closed the connection.
        error: SocketCloseError,
        /// How long the connection was open.
        connected_for: Elapsed,
    },
}

impl Report {
    /// The number of open connections that the report gives.
    pub open spec fn spec_count(&self) -> u64 {
        match *self {
            Report::Opened { count, .. } => count,
            Report::ClosedGracefully { count, .. } => count,
            Report::ClosedWithError { count, .. } => count,
        }
    }

    /// The peer whose connection the report is about.
    pub open spec fn spec_address(&self) -> Address {
        match *self {
            Report::Opened { addr, .. } => addr,
            Report::ClosedGracefully { addr, .. } => addr,
            Report::ClosedWithError { addr, .. } => addr,
        }
    }

    /// The number of open connections that the report gives.
    #[verifier::when_used_as_spec(spec_count)]
    pub fn count(&self) -> (count: u64)
        ensures
            count == self.spec_count(),
    {
        match self {
            Report::Opened { count, .. } => *count,
            Report::ClosedGracefully { count, .. } => *count,
            Report::ClosedWithError { count, .. } => *count,
        }
    }

    /// The peer whose connection the report is about.
    #[verifier::when_used_as_spec(spec_address)]
    pub fn address(&self) -> (addr: Address)
        ensures
            addr == self.spec_address(),
    {
        match self {
            Report::Opened { addr, .. } => *addr,
            Report::ClosedGracefully { addr, .. } => *addr,
            Report::ClosedWithError { addr, .. } => *addr,
        }
    }
}

/// Why the reporter has nothing to say after an event.
#[derive(Clone, Copy, Debug, PartialEq, Eq, Structural)]
pub enum ReportError {
    /// The clock read earlier at the close of a connection than it did when
    /// the connection was opened, so no duration can be given.
    ClockWentBackwards,
}

/// The reporter's record as a mathematical value.
pub struct ReporterView {
    /// The running count of open connections.
    pub count: int,
    /// For the peer of each open connection, the reading of the clock at its
    /// opening, in nanoseconds from the epoch.
    pub connected_since: Map<Address, int>,
}

impl ReporterView {
    /// The record before any event: nothing is open.
    pub open spec fn empty() -> ReporterView {
        ReporterView { count: 0, connected_since: Map::empty() }
    }

    /// Whether the record holds what the event speaks of. An opening is
    /// always expected; a close is expected of a peer that is on record,
    /// while the count is positive.
    pub open spec fn expects(self, event: Event) -> bool {
        event.is_close() ==> self.count > 0 && self.connected_since.dom().contains(event.address())
    }

    /// The record after an event that arrives when the clock reads `now`.
    ///
    /// An opening raises the count and puts the peer on record under `now`,
    /// in place of an earlier entry for the same peer. A close lowers the
    /// count and takes the peer off the record.
    pub open spec fn after(self, event: Event, now: int) -> ReporterView {
        if event.is_close() {
            ReporterView {
                count: self.count - 1,
                connected_since: self.connected_since.remove(event.address()),
            }
        } else {
            ReporterView {
                count: self.count + 1,
                connected_since: self.connected_since.insert(event.address(), now),
            }
        }
    }

    /// What is reported of an event that arrives when the clock reads `now`:
    /// the count after the event, the peer and, for a close, the failure if
    /// there was one and the time since the peer was put on record. A close
    /// at a reading before that of the opening has no duration and is an
    /// error.
    pub open spec fn report(self, event: Event, now: int) -> Result<Report, ReportError> {
        match event {
            Event::Opened(addr) => Ok(Report::Opened { count: (self.count + 1) as u64, addr }),
            Event::ClosedGracefully(addr) => match elapsed_between(self.connected_since[addr], now) {
                Some(connected_for) => Ok(
                    Report::ClosedGracefully { count: (self.count - 1) as u64, addr, connected_for },
                ),
                None => Err(ReportError::ClockWentBackwards),
            },
            Event::ClosedWithError(addr, error) => match elapsed_between(
                self.connected_since[addr],
                now,
            ) {
                Some(connected_for) => Ok(
                    Report::ClosedWithError {
                        count: (self.count - 1) as u64,
                        addr,
                        error,
                        connected_for,
                    },
                ),
                None => Err(ReportError::ClockWentBackwards),
            },
        }
    }
}

/// One open connection on record.
struct Connection {
    addr: Address,
    since: Timestamp,
}

/// Whether some entry is about `addr`.
spec fn on_record(entries: Seq<Connection>, addr: Address) -> bool {
    exists|i: int| 0 <= i < entries.len() && #[trigger] entries[i].addr == addr
}

/// The place of an entry about `addr`.
spec fn place_of(entries: Seq<Connection>, addr: Address) -> int {
    choose|i: int| 0 <= i < entries.len() && #[trigger] entries[i].addr == addr
}

/// No two entries are about the same peer.
spec fn distinct(entries: Seq<Connection>) -> bool {
    forall|i: int, j: int|
        0 <= i < j < entries.len() ==> #[trigger] entries[i].addr != #[trigger] entries[j].addr
}

/// The entries as a map from peer to the reading at its opening.
spec fn as_map(entries: Seq<Connection>) -> Map<Address, int> {
    Map::new(
        |addr: Address| on_record(entries, addr),
        |addr: Address| entries[place_of(entries, addr)].since@,
    )
}

/// Each entry of a list without repetition is what the map holds for its peer.
proof fn lemma_entry_is_mapped(entries: Seq<Connection>, i: int)
    requires
        distinct(entries),
        0 <= i < entries.len(),
    ensures
        on_record(entries, entries[i].addr),
        place_of(entries, entries[i].addr) == i,
        as_map(entries).dom().contains(entries[i].addr),
        as_map(entries)[entries[i].addr] == entries[i].since@,
{
}

/// A new entry for a peer that is not on record adds that peer to the map.
proof fn lemma_push_inserts(entries: Seq<Connection>, entry: Connection)
    requires
        distinct(entries),
        !on_record(entries, entry.addr),
    ensures
        distinct(entries.push(entry)),
        as_map(entries.push(entry)) == as_map(entries).insert(entry.addr, entry.since@),
{
    let grown = entries.push(entry);
    assert(distinct(grown));
    assert forall|addr: Address| #[trigger]
        as_map(grown).dom().contains(addr) == as_map(entries).insert(
            entry.addr,
            entry.since@,
        ).dom().contains(addr) by {
        if on_record(entries, addr) {
            let i = place_of(entries, addr);
            assert(grown[i].addr == addr);
        }
        if addr == entry.addr {
            assert(grown[entries.len() as int].addr == addr);
        }
    }
    assert forall|addr: Address| #[trigger] as_map(grown).dom().contains(addr) implies as_map(
        grown,
    )[addr] == as_map(entries).insert(entry.addr, entry.since@)[addr] by {
        let i = place_of(grown, addr);
        lemma_entry_is_mapped(grown, i);
        if addr != entry.addr {
            lemma_entry_is_mapped(entries, i);
        }
    }
}

/// A new entry in the place of one for the same peer replaces what the map
/// holds for that peer.
proof fn lemma_update_inserts(entries: Seq<Connection>, i: int, entry: Connection)
    requires
        distinct(entries),
        0 <= i < entries.len(),
        entries[i].addr == entry.addr,
    ensures
        distinct(entries.update(i, entry)),
        as_map(entries.update(i, entry)) == as_map(entries).insert(entry.addr, entry.since@),
{
    let changed = entries.update(i, entry);
    assert(distinct(changed));
    assert forall|addr: Address| #[trigger]
        as_map(changed).dom().contains(addr) == as_map(entries).insert(
            entry.addr,
            entry.since@,
        ).dom().contains(addr) by {
        if on_record(entries, addr) {
            let k = place_of(entries, addr);
            assert(changed[k].addr == addr);
        }
    }
    assert forall|addr: Address| #[trigger] as_map(changed).dom().contains(addr) implies as_map(
        changed,
    )[addr] == as_map(entries).insert(entry.addr, entry.since@)[addr] by {
        let k = place_of(changed, addr);
        lemma_entry_is_mapped(changed, k);
        if addr != entry.addr {
            lemma_entry_is_mapped(entries, k);
        } else {
            lemma_entry_is_mapped(changed, i);
        }
    }
}

/// Moving the last entry into the place of another and dropping the last
/// place takes the peer of the overwritten entry off the map.
proof fn lemma_swap_remove_removes(entries: Seq<Connection>, i: int)
    requires
        distinct(entries),
        0 <= i < entries.len(),
    ensures
        distinct(entries.update(i, entries.last()).drop_last()),
        as_map(entries.update(i, entries.last()).drop_last()) == as_map(entries).remove(
            entries[i].addr,
        ),
{
    let gone = entries[i].addr;
    let last = entries.len() - 1;
    let rest = entries.update(i, entries.last()).drop_last();
    assert forall|k: int| 0 <= k < rest.len() implies #[trigger] rest[k] == (if k == i {
        entries[last]
    } else {
        entries[k]
    }) by {}
    assert(distinct(rest));
    assert forall|addr: Address| #[trigger]
        as_map(rest).dom().contains(addr) == as_map(entries).remove(gone).dom().contains(
            addr,
        ) by {
        if on_record(entries, addr) && addr != gone {
            let k = place_of(entries, addr);
            if k == last {
                assert(rest[i].addr == addr);
            } else {
                assert(rest[k].addr == addr);
            }
        }
    }
    assert forall|addr: Address| #[trigger] as_map(rest).dom().contains(addr) implies as_map(
        rest,
    )[addr] == as_map(entries).remove(gone)[addr] by {
        let k = place_of(rest, addr);
        lemma_entry_is_mapped(rest, k);
        let from = if k == i { last } else { k };
        lemma_entry_is_mapped(entries, from);
    }
}

/// The record of open connections: a running count, and for the peer of each
/// open connection the time at which it was opened.
///
/// The record is kept by one owner, who applies the events in the order in
/// which they arrive.
pub struct ReporterState {
    count: u64,
    connected: Vec<Connection>,
}

impl View for ReporterState {
    type V = ReporterView;

    closed spec fn view(&self) -> ReporterView {
        ReporterView { count: self.count as int, connected_since: as_map(self.connected@) }
    }
}

impl ReporterState {
    /// Each peer is on record at most once.
    #[verifier::type_invariant]
    spec fn well_formed(self) -> bool {
        distinct(self.connected@)
    }

    /// A record with nothing open.
    pub fn new() -> (state: ReporterState)
        ensures
            state@ == ReporterView::empty(),
    {
        let state = ReporterState { count: 0, connected: Vec::with_capacity(1024) };
        assert(as_map(state.connected@) =~= Map::empty());
        state
    }

    /// The running count of open connections.
    pub fn count(&self) -> (count: u64)
        ensures
            count == self@.count,
    {
        self.count
    }

    /// The place of the entry for `addr`, if the peer is on record.
    fn find(&self, addr: Address) -> (place: Option<usize>)
        ensures
            match place {
                Some(i) => i < self.connected@.len() && self.connected@[i as int].addr == addr,
                None => !on_record(self.connected@, addr),
            },
    {
        let mut i: usize = 0;
        while i < self.connected.len()
            invariant
                i <= self.connected@.len(),
                forall|k: int| 0 <= k < i ==> (#[trigger] self.connected@[k]).addr != addr,
            decreases self.connected@.len() - i,
        {
            if self.connected[i].addr == addr {
                return Some(i);
            }
            i = i + 1;
        }
        None
    }

    /// The time at which the connection of `addr` was opened, if the peer is
    /// on record.
    pub fn connected_since(&self, addr: Address) -> (since: Option<Timestamp>)
        ensures
            match since {
                Some(at) => self@.connected_since.dom().contains(addr)
                    && self@.connected_since[addr] == at@,
                None => !self@.connected_since.dom().contains(addr),
            },
    {
        proof {
            use_type_invariant(self);
        }
        match self.find(addr) {
            Some(i) => {
                proof {
                    lemma_entry_is_mapped(self.connected@, i as int);
                }
                Some(self.connected[i].since)
            },
            None => None,
        }
    }

    /// Whether [`ReporterState::apply`] may be called with `event`: the
    /// record holds what the event speaks of, and an opening finds room in
    /// the count.
    pub fn expects(&self, event: &Event) -> (expected: bool)
        ensures
            expected == (self@.expects(*event) && (!event.is_close() ==> self@.count < u64::MAX)),
    {
        if event.is_close() {
            self.count > 0 && self.connected_since(event.address()).is_some()
        } else {
            self.count < u64::MAX
        }
    }

    /// Applies an event that arrived when the clock read `now`, and says what
    /// is to be reported of it.
    ///
    /// The record changes as [`ReporterView::after`] says, whatever the
    /// clock read. The answer is the report that [`ReporterView::report`]
    /// describes; it is an error exactly for a close at a reading before that
    /// of the opening.
    pub fn apply(&mut self, event: Event, now: Timestamp) -> (outcome: Result<Report, ReportError>)
        requires
            old(self)@.expects(event),
            !event.is_close() ==> old(self)@.count < u64::MAX,
        ensures
            final(self)@ == old(self)@.after(event, now@),
            outcome == old(self)@.report(event, now@),
    {
        match event {
            Event::Opened(addr) => {
                self.open(addr, now);
                Ok(Report::Opened { count: self.count, addr })
            },
            Event::ClosedGracefully(addr) => {
                match self.close(addr, now) {
                    Some(connected_for) => Ok(
                        Report::ClosedGracefully { count: self.count, addr, connected_for },
                    ),
                    None => Err(ReportError::ClockWentBackwards),
                }
            },
            Event::ClosedWithError(addr, error) => {
                match self.close(addr, now) {
                    Some(connected_for) => Ok(
                        Report::ClosedWithError { count: self.count, addr, error, connected_for },
                    ),
                    None => Err(ReportError::ClockWentBackwards),
                }
            },
        }
    }

    /// Counts one more open connection and puts `addr` on record under `now`.
    fn open(&mut self, addr: Address, now: Timestamp)
        requires
            old(self)@.count < u64::MAX,
        ensures
            final(self)@.count == old(self)@.count + 1,
            final(self)@.connected_since == old(self)@.connected_since.insert(addr, now@),
    {
        proof {
            use_type_invariant(&*self);
        }
        let place = self.find(addr);
        let entry = Connection { addr, since: now };
        let mut entries: Vec<Connection> = Vec::new();
        std::mem::swap(&mut entries, &mut self.connected);
        match place {
            Some(i) => {
                proof {
                    lemma_update_inserts(entries@, i as int, entry);
                }
                entries.set(i, entry);
            },
            None => {
                proof {
                    lemma_push_inserts(entries@, entry);
                }
                entries.push(entry);
            },
        }
        self.connected = entries;
        self.count = self.count + 1;
    }

    /// Counts one open connection less, takes `addr` off the record and gives
    /// the time for which it was on it, if the clock did not go backwards.
    fn close(&mut self, addr: Address, now: Timestamp) -> (connected_for: Option<Elapsed>)
        requires
            old(self)@.count > 0,
            old(self)@.connected_since.dom().contains(addr),
        ensures
            final(self)@.count == old(self)@.count - 1,
            final(self)@.connected_since == old(self)@.connected_since.remove(addr),
            connected_for == elapsed_between(old(self)@.connected_since[addr], now@),
    {
        proof {
            use_type_invariant(&*self);
        }
        self.count = self.count - 1;
        let place = self.find(addr);
        let mut entries: Vec<Connection> = Vec::new();
        std::mem::swap(&mut entries, &mut self.connected);
        let connected_for = match place {
            Some(i) => {
                proof {
                    lemma_entry_is_mapped(entries@, i as int);
                    lemma_swap_remove_removes(entries@, i as int);
                }
                let entry = entries.swap_remove(i);
                now.elapsed_since(&entry.since)
            },
            None => None,
        };
        self.connected = entries;
        connected_for
    }
}

} // verus!
