//! The life of one relayed connection.
//!
//! A relay opens a connection to the destination, forwards bytes in both
//! directions until each source is at its end, and closes. What happens on
//! the sockets is told to the relay as [`Progress`]; the relay answers with
//! the [`Action`] to carry out, which holds every event that is to be
//! reported.

use crate::reporter::address::Address;
use crate::reporter::event::{Direction, Event, SocketCloseError};
use crate::reporter::history::{still_open, well_ordered};
use vstd::prelude::*;

verus! {

/// How far one direction of a connection has come.
#[derive(Clone, Copy, Debug, PartialEq, Eq, Structural)]
pub enum Leg {
    /// Bytes are copied from the source to the other side.
    Copying,
    /// The source is at its end; the write side of the other socket is being
    /// flushed and shut down.
    Closing,
    /// The write side of the other socket is shut down.
    Done,
}

/// Where a relay stands.
#[derive(Clone, Copy, Debug, PartialEq, Eq, Structural)]
pub enum Phase {
    /// The connection to the destination is being opened.
    Connecting,
    /// Both sockets are open and the two directions run side by side.
    Forwarding {
        /// The direction from the client to the server.
        client_to_server: Leg,
        /// The direction from the server to the client.
        server_to_client: Leg,
    },
    /// The destination could not be reached. Nothing was reported.
    Refused,
    /// The connection is closed and its closing event was handed out.
    Closed,
}

/// What happened on the sockets of a connection.
#[derive(Debug, PartialEq, Eq)]
pub enum Progress {
    /// The connection to the destination is open.
    Connected,
    /// The connection to the destination could not be opened.
    ConnectFailed,
    /// The source of a direction reached its end and all of its bytes were
    /// written to the other side.
    Copied(Direction),
    /// The write side that a direction forwards to was flushed and shut down.
    ShutDown(Direction),
    /// Copying or shutting down failed in the direction that the error names.
    Failed(SocketCloseError),
}

/// What is to be done for a connection.
#[derive(Debug, PartialEq, Eq)]
pub enum Action {
    /// Report the event and start copying in both directions.
    Start(Event),
    /// Flush and shut down the write side that the direction forwards to.
    HalfClose(Direction),
    /// Nothing, until more happens on the sockets.
    Wait,
    /// Report the event and drop both sockets now, whatever is still in
    /// flight on them.
    Close(Event),
    /// Drop the inbound socket and report nothing.
    Abort,
    /// Nothing: what happened does not belong to the phase of the relay.
    Ignore,
}

impl Phase {
    /// Whether the relay has come to its end.
    pub open spec fn is_final(self) -> bool {
        self is Refused || self is Closed
    }

    /// How far a direction has come, in a relay that is forwarding.
    pub open spec fn leg(self, direction: Direction) -> Leg
        recommends
            self is Forwarding,
    {
        match direction {
            Direction::ClientToServer => self->client_to_server,
            Direction::ServerToClient => self->server_to_client,
        }
    }

    /// The forwarding phase in which a direction has come to `leg` and the
    /// other is where it was.
    pub open spec fn with_leg(self, direction: Direction, leg: Leg) -> Phase
        recommends
            self is Forwarding,
    {
        match direction {
            Direction::ClientToServer => Phase::Forwarding {
                client_to_server: leg,
                server_to_client: self->server_to_client,
            },
            Direction::ServerToClient => Phase::Forwarding {
                client_to_server: self->client_to_server,
                server_to_client: leg,
            },
        }
    }

    /// Whether what happened belongs to the phase: the outcome of connecting
    /// while connecting; while forwarding, the end of a copy that was running,
    /// the end of a shutdown that was running, or a failure in a direction
    /// that is not done.
    pub open spec fn admits(self, progress: Progress) -> bool {
        match progress {
            Progress::Connected => self is Connecting,
            Progress::ConnectFailed => self is Connecting,
            Progress::Copied(direction) => self is Forwarding && self.leg(direction) is Copying,
            Progress::ShutDown(direction) => self is Forwarding && self.leg(direction) is Closing,
            Progress::Failed(error) => self is Forwarding && !(self.leg(error.0) is Done),
        }
    }

    /// The phase after something happened on the sockets.
    ///
    /// What does not belong to the phase changes nothing. A failure ends the
    /// relay at once, wherever the other direction stands. The relay closes
    /// gracefully when the second of its directions is shut down.
    pub open spec fn next(self, progress: Progress) -> Phase {
        if !self.admits(progress) {
            self
        } else {
            match progress {
                Progress::Connected => Phase::Forwarding {
                    client_to_server: Leg::Copying,
                    server_to_client: Leg::Copying,
                },
                Progress::ConnectFailed => Phase::Refused,
                Progress::Copied(direction) => self.with_leg(direction, Leg::Closing),
                Progress::ShutDown(direction) => if self.leg(other(direction)) is Done {
                    Phase::Closed
                } else {
                    self.with_leg(direction, Leg::Done)
                },
                Progress::Failed(_) => Phase::Closed,
            }
        }
    }

    /// What is to be done after something happened on the sockets of the
    /// connection of `addr`.
    pub open spec fn answer(self, addr: Address, progress: Progress) -> Action {
        if !self.admits(progress) {
            Action::Ignore
        } else {
            match progress {
                Progress::Connected => Action::Start(Event::Opened(addr)),
                Progress::ConnectFailed => Action::Abort,
                Progress::Copied(direction) => Action::HalfClose(direction),
                Progress::ShutDown(direction) => if self.leg(other(direction)) is Done {
                    Action::Close(Event::ClosedGracefully(addr))
                } else {
                    Action::Wait
                },
                Progress::Failed(error) => Action::Close(Event::ClosedWithError(addr, error)),
            }
        }
    }
}

/// The direction opposite to `direction`.
pub open spec fn other(direction: Direction) -> Direction {
    match direction {
        Direction::ClientToServer => Direction::ServerToClient,
        Direction::ServerToClient => Direction::ClientToServer,
    }
}

/// The relay of one accepted connection.
pub struct Relay {
    addr: Address,
    phase: Phase,
}

impl Relay {
    /// The peer of the accepted connection.
    pub closed spec fn spec_address(&self) -> Address {
        self.addr
    }

    /// Where the relay stands.
    pub closed spec fn spec_phase(&self) -> Phase {
        self.phase
    }

    /// A relay for the connection accepted from `addr`, about to connect to
    /// the destination.
    pub fn new(addr: Address) -> (relay: Relay)
        ensures
            relay.address() == addr,
            relay.phase() == Phase::Connecting,
    {
        Relay { addr, phase: Phase::Connecting }
    }

    /// The peer of the accepted connection.
    #[verifier::when_used_as_spec(spec_address)]
    pub fn address(&self) -> (addr: Address)
        ensures
            addr == self.spec_address(),
    {
        self.addr
    }

    /// Where the relay stands.
    #[verifier::when_used_as_spec(spec_phase)]
    pub fn phase(&self) -> (phase: Phase)
        ensures
            phase == self.spec_phase(),
    {
        self.phase
    }

    /// Takes note of what happened on the sockets and says what to do next.
    pub fn step(&mut self, progress: Progress) -> (action: Action)
        ensures
            final(self).address() == old(self).address(),
            final(self).phase() == old(self).phase().next(progress),
            action == old(self).phase().answer(old(self).address(), progress),
    {
        match self.phase {
            Phase::Connecting => match progress {
                Progress::Connected => {
                    self.phase =
                    Phase::Forwarding {
                        client_to_server: Leg::Copying,
                        server_to_client: Leg::Copying,
                    };
                    Action::Start(Event::Opened(self.addr))
                },
                Progress::ConnectFailed => {
                    self.phase = Phase::Refused;
                    Action::Abort
                },
                _ => Action::Ignore,
            },
            Phase::Forwarding { client_to_server, server_to_client } => match progress {
                Progress::Copied(direction) => {
                    let (own, rest) = pick(direction, client_to_server, server_to_client);
                    match own {
                        Leg::Copying => {
                            self.phase = place(direction, Leg::Closing, rest);
                            Action::HalfClose(direction)
                        },
                        _ => Action::Ignore,
                    }
                },
                Progress::ShutDown(direction) => {
                    let (own, rest) = pick(direction, client_to_server, server_to_client);
                    match (own, rest) {
                        (Leg::Closing, Leg::Done) => {
                            self.phase = Phase::Closed;
                            Action::Close(Event::ClosedGracefully(self.addr))
                        },
                        (Leg::Closing, _) => {
                            self.phase = place(direction, Leg::Done, rest);
                            Action::Wait
                        },
                        _ => Action::Ignore,
                    }
                },
                Progress::Failed(error) => {
                    let (own, _) = pick(error.0, client_to_server, server_to_client);
                    match own {
                        Leg::Done => Action::Ignore,
                        _ => {
                            self.phase = Phase::Closed;
                            Action::Close(Event::ClosedWithError(self.addr, error))
                        },
                    }
                },
                _ => Action::Ignore,
            },
            _ => Action::Ignore,
        }
    }
}

/// Of the two legs of a connection, first the one in `direction`, then the
/// one opposite to it.
fn pick(direction: Direction, client_to_server: Leg, server_to_client: Leg) -> (legs: (Leg, Leg))
    ensures
        legs == match direction {
            Direction::ClientToServer => (client_to_server, server_to_client),
            Direction::ServerToClient => (server_to_client, client_to_server),
        },
{
    match direction {
        Direction::ClientToServer => (client_to_server, server_to_client),
        Direction::ServerToClient => (server_to_client, client_to_server),
    }
}

/// The forwarding phase with `own` as the leg in `direction` and `rest` as
/// the leg opposite to it.
fn place(direction: Direction, own: Leg, rest: Leg) -> (phase: Phase)
    ensures
        phase == match direction {
            Direction::ClientToServer => Phase::Forwarding {
                client_to_server: own,
                server_to_client: rest,
            },
            Direction::ServerToClient => Phase::Forwarding {
                client_to_server: rest,
                server_to_client: own,
            },
        },
{
    match direction {
        Direction::ClientToServer => Phase::Forwarding {
            client_to_server: own,
            server_to_client: rest,
        },
        Direction::ServerToClient => Phase::Forwarding {
            client_to_server: rest,
            server_to_client: own,
        },
    }
}

/// The events that an action hands out for the reporter.
pub open spec fn reported(action: Action) -> Seq<Event> {
    match action {
        Action::Start(event) => seq![event],
        Action::Close(event) => seq![event],
        _ => Seq::empty(),
    }
}

impl Phase {
    /// The phase after all that happened, in the order given.
    pub open spec fn after_all(self, happened: Seq<Progress>) -> Phase
        decreases happened.len(),
    {
        if happened.len() == 0 {
            self
        } else {
            self.after_all(happened.drop_last()).next(happened.last())
        }
    }

    /// The events handed out, in their order, while all of `happened` was
    /// told to the relay of the connection of `addr`.
    pub open spec fn history(self, addr: Address, happened: Seq<Progress>) -> Seq<Event>
        decreases happened.len(),
    {
        if happened.len() == 0 {
            Seq::empty()
        } else {
            self.history(addr, happened.drop_last()) + reported(
                self.after_all(happened.drop_last()).answer(addr, happened.last()),
            )
        }
    }
}

/// Whether a direction was copied to its end in `happened`, and its write
/// side shut down after that.
pub open spec fn ran_to_end(happened: Seq<Progress>, direction: Direction) -> bool {
    exists|i: int, j: int|
        0 <= i < j < happened.len() && #[trigger] happened[i] == Progress::Copied(direction)
            && #[trigger] happened[j] == Progress::ShutDown(direction)
}

/// Whether a direction was copied to its end in `happened`.
spec fn was_copied(happened: Seq<Progress>, direction: Direction) -> bool {
    exists|i: int| 0 <= i < happened.len() && #[trigger] happened[i] == Progress::Copied(direction)
}

/// What the phase of a relay says of the events it has handed out and of
/// what has happened on its sockets.
spec fn consistent(phase: Phase, addr: Address, happened: Seq<Progress>, events: Seq<Event>) -> bool {
    match phase {
        Phase::Connecting => events.len() == 0,
        Phase::Refused => events.len() == 0,
        Phase::Forwarding { .. } => {
            &&& events == seq![Event::Opened(addr)]
            &&& forall|direction: Direction|
                !(#[trigger] phase.leg(direction) is Copying) ==> was_copied(happened, direction)
            &&& forall|direction: Direction| #[trigger]
                phase.leg(direction) is Done ==> ran_to_end(happened, direction)
        },
        Phase::Closed => {
            &&& events.len() == 2
            &&& events[0] == Event::Opened(addr)
            &&& events[1].is_close()
            &&& events[1].address() == addr
            &&& events[1] is ClosedGracefully ==> forall|direction: Direction| #[trigger]
                ran_to_end(happened, direction)
        },
    }
}

/// What has happened stays so when more happens.
proof fn lemma_more_happened(happened: Seq<Progress>, direction: Direction)
    requires
        happened.len() > 0,
    ensures
        was_copied(happened.drop_last(), direction) ==> was_copied(happened, direction),
        ran_to_end(happened.drop_last(), direction) ==> ran_to_end(happened, direction),
        was_copied(happened.drop_last(), direction) && happened.last() == Progress::ShutDown(
            direction,
        ) ==> ran_to_end(happened, direction),
        happened.last() == Progress::Copied(direction) ==> was_copied(happened, direction),
{
    let before = happened.drop_last();
    if was_copied(before, direction) {
        let i = choose|i: int|
            0 <= i < before.len() && #[trigger] before[i] == Progress::Copied(direction);
        assert(happened[i] == before[i]);
    }
    if ran_to_end(before, direction) {
        let (i, j) = choose|i: int, j: int|
            0 <= i < j < before.len() && #[trigger] before[i] == Progress::Copied(direction)
                && #[trigger] before[j] == Progress::ShutDown(direction);
        assert(happened[i] == before[i] && happened[j] == before[j]);
    }
}

/// The phase of a relay that started by connecting is consistent with its
/// history, whatever was told to it.
proof fn lemma_history_is_consistent(addr: Address, happened: Seq<Progress>)
    ensures
        consistent(
            Phase::Connecting.after_all(happened),
            addr,
            happened,
            Phase::Connecting.history(addr, happened),
        ),
    decreases happened.len(),
{
    // By induction over what happened: the last step keeps the phase in
    // line with the events handed out so far.
    if happened.len() > 0 {
        lemma_history_is_consistent(addr, happened.drop_last());
        lemma_more_happened(happened, Direction::ClientToServer);
        lemma_more_happened(happened, Direction::ServerToClient);
    }
}

/// A connection reports its opening, then its close, and nothing else.
///
/// Whatever is told to a relay that starts by connecting, the events it has
/// handed out are these: none while it connects and none if the destination
/// refused; the opening alone while it forwards; the opening and then one
/// close, of the same peer, once it is closed. So no close comes before the
/// opening, and no second close after the first.
pub proof fn law_opening_then_one_close(addr: Address, happened: Seq<Progress>)
    ensures
        ({
            let events = Phase::Connecting.history(addr, happened);
            match Phase::Connecting.after_all(happened) {
                Phase::Connecting => events.len() == 0,
                Phase::Refused => events.len() == 0,
                Phase::Forwarding { .. } => events == seq![Event::Opened(addr)],
                Phase::Closed => {
                    &&& events.len() == 2
                    &&& events[0] == Event::Opened(addr)
                    &&& events[1].is_close()
                    &&& events[1].address() == addr
                },
            }
        }),
{
    lemma_history_is_consistent(addr, happened);
}

/// The events of one connection are a history that the reporter expects.
pub proof fn law_history_is_well_ordered(addr: Address, happened: Seq<Progress>)
    ensures
        well_ordered(Phase::Connecting.history(addr, happened)),
{
    let events = Phase::Connecting.history(addr, happened);
    lemma_history_is_consistent(addr, happened);
    assert forall|n: int| 0 <= n < events.len() implies (#[trigger] events[n]).is_close()
        == still_open(events.take(n), events[n].address()) by {
        // The opening comes first; the close, if there is one, finds it.
        if n > 0 {
            assert(events.take(n)[0] == Event::Opened(addr));
        }
    }
}

/// A connection is open, as the reporter sees it, exactly while its relay
/// forwards.
///
/// After the events that a relay has handed out, the connection of its peer
/// is open if the relay is forwarding, and not open in any other phase.
pub proof fn law_open_while_forwarding(addr: Address, happened: Seq<Progress>)
    ensures
        still_open(Phase::Connecting.history(addr, happened), addr) == (Phase::Connecting.after_all(
            happened,
        ) is Forwarding),
{
    lemma_history_is_consistent(addr, happened);
}

/// A failure in one direction ends the connection at once.
///
/// While a relay forwards, a failure in a direction that is not done closes
/// it with that failure, wherever the other direction stands: the answer is
/// to report the close and drop the sockets. Whatever is told to the relay
/// after that changes nothing and hands out nothing, so the transfer that
/// was abandoned is never waited for.
pub proof fn law_failure_abandons_other_direction(
    phase: Phase,
    addr: Address,
    error: SocketCloseError,
    later: Seq<Progress>,
)
    requires
        phase is Forwarding,
        !(phase.leg(error.0) is Done),
    ensures
        phase.next(Progress::Failed(error)) == Phase::Closed,
        phase.answer(addr, Progress::Failed(error)) == Action::Close(
            Event::ClosedWithError(addr, error),
        ),
        Phase::Closed.after_all(later) == Phase::Closed,
        Phase::Closed.history(addr, later) == Seq::<Event>::empty(),
    decreases later.len(),
{
    if later.len() > 0 {
        law_failure_abandons_other_direction(phase, addr, error, later.drop_last());
    }
}

/// A connection closes gracefully only when both directions ran to their end.
///
/// If the close that a relay reported is the graceful one, then in each
/// direction the copy reached the end of its source, and after that the
/// write side it forwards to was shut down.
pub proof fn law_graceful_close_follows_both_half_closes(
    addr: Address,
    happened: Seq<Progress>,
    direction: Direction,
)
    requires
        Phase::Connecting.after_all(happened) is Closed,
        Phase::Connecting.history(addr, happened).last() is ClosedGracefully,
    ensures
        ran_to_end(happened, direction),
{
    lemma_history_is_consistent(addr, happened);
}

} // verus!
