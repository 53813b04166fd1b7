//! The loop that accepts connections.
//!
//! The listener binds its address once and then accepts connections one
//! after the other. Each accepted connection is handed to a relay of its own,
//! which the listener does not wait for. The first failure to accept ends the
//! service: the listener does not try again.

use vstd::prelude::*;

verus! {

/// Where the listener stands.
#[derive(Clone, Copy, Debug, PartialEq, Eq, Structural)]
pub enum ListenerPhase {
    /// The listening socket is being bound.
    Binding,
    /// The socket is bound and connections are accepted.
    Accepting,
    /// The socket could not be bound: the service never started.
    Failed,
    /// Accepting failed: the service has ended.
    Stopped,
}

/// What happened on the listening socket.
#[derive(Clone, Copy, Debug, PartialEq, Eq, Structural)]
pub enum ListenerProgress {
    /// The socket is bound to its address.
    Bound,
    /// The socket could not be bound.
    BindFailed,
    /// A connection was accepted.
    Accepted,
    /// Accepting a connection failed.
    AcceptFailed,
}

/// What the listener is to do.
#[derive(Clone, Copy, Debug, PartialEq, Eq, Structural)]
pub enum ListenerAction {
    /// Wait for the first connection.
    Accept,
    /// Launch a relay for the accepted connection, without waiting for it,
    /// and wait for the next connection.
    Relay,
    /// Give up with the error of the bind: the service cannot start.
    Fail,
    /// End the service without an error.
    Stop,
    /// Nothing: what happened does not belong to the phase of the listener.
    Ignore,
}

impl ListenerPhase {
    /// Whether the listener has come to its end.
    pub open spec fn is_final(self) -> bool {
        self is Failed || self is Stopped
    }

    /// Whether what happened belongs to the phase: the outcome of binding
    /// while binding, the outcome of accepting while accepting.
    pub open spec fn admits(self, progress: ListenerProgress) -> bool {
        match progress {
            ListenerProgress::Bound => self is Binding,
            ListenerProgress::BindFailed => self is Binding,
            ListenerProgress::Accepted => self is Accepting,
            ListenerProgress::AcceptFailed => self is Accepting,
        }
    }

    /// The phase after something happened on the listening socket. What does
    /// not belong to the phase changes nothing.
    pub open spec fn next(self, progress: ListenerProgress) -> ListenerPhase {
        if !self.admits(progress) {
            self
        } else {
            match progress {
                ListenerProgress::Bound => ListenerPhase::Accepting,
                ListenerProgress::BindFailed => ListenerPhase::Failed,
                ListenerProgress::Accepted => ListenerPhase::Accepting,
                ListenerProgress::AcceptFailed => ListenerPhase::Stopped,
            }
        }
    }

    /// What is to be done after something happened on the listening socket.
    pub open spec fn answer(self, progress: ListenerProgress) -> ListenerAction {
        if !self.admits(progress) {
            ListenerAction::Ignore
        } else {
            match progress {
                ListenerProgress::Bound => ListenerAction::Accept,
                ListenerProgress::BindFailed => ListenerAction::Fail,
                ListenerProgress::Accepted => ListenerAction::Relay,
                ListenerProgress::AcceptFailed => ListenerAction::Stop,
            }
        }
    }

    /// The phase after all that happened, in the order given.
    pub open spec fn after_all(self, happened: Seq<ListenerProgress>) -> ListenerPhase
        decreases happened.len(),
    {
        if happened.len() == 0 {
            self
        } else {
            self.after_all(happened.drop_last()).next(happened.last())
        }
    }
}

/// The listener of the service.
pub struct Listener {
    phase: ListenerPhase,
}

impl Listener {
    /// Where the listener stands.
    pub closed spec fn spec_phase(&self) -> ListenerPhase {
        self.phase
    }

    /// A listener that is about to bind its address.
    pub fn new() -> (listener: Listener)
        ensures
            listener.phase() == ListenerPhase::Binding,
    {
        Listener { phase: ListenerPhase::Binding }
    }

    /// Where the listener stands.
    #[verifier::when_used_as_spec(spec_phase)]
    pub fn phase(&self) -> (phase: ListenerPhase)
        ensures
            phase == self.spec_phase(),
    {
        self.phase
    }

    /// Takes note of what happened on the listening socket and says what to
    /// do next.
    pub fn step(&mut self, progress: ListenerProgress) -> (action: ListenerAction)
        ensures
            final(self).phase() == old(self).phase().next(progress),
            action == old(self).phase().answer(progress),
    {
        match (self.phase, progress) {
            (ListenerPhase::Binding, ListenerProgress::Bound) => {
                self.phase = ListenerPhase::Accepting;
                ListenerAction::Accept
            },
            (ListenerPhase::Binding, ListenerProgress::BindFailed) => {
                self.phase = ListenerPhase::Failed;
                ListenerAction::Fail
            },
            (ListenerPhase::Accepting, ListenerProgress::Accepted) => ListenerAction::Relay,
            (ListenerPhase::Accepting, ListenerProgress::AcceptFailed) => {
                self.phase = ListenerPhase::Stopped;
                ListenerAction::Stop
            },
            _ => ListenerAction::Ignore,
        }
    }
}

/// The listener does not try again.
///
/// Once binding or accepting has failed, whatever is told to the listener
/// changes nothing and is answered by nothing: no connection is relayed after
/// the first failure to accept, and none at all if the bind failed.
pub proof fn law_listener_never_retries(
    phase: ListenerPhase,
    later: Seq<ListenerProgress>,
    progress: ListenerProgress,
)
    requires
        phase.is_final(),
    ensures
        phase.after_all(later) == phase,
        phase.after_all(later).answer(progress) == ListenerAction::Ignore,
    decreases later.len(),
{
    if later.len() > 0 {
        law_listener_never_retries(phase, later.drop_last(), progress);
    }
}

} // verus!
