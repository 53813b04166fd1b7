//! The reporter as an actor: a mailbox of events with one consumer, who keeps
//! the record, and any number of handles that put events into it.

use super::clock::Timestamp;
use super::event::Event;
use super::state::{Report, ReportError, ReporterState, ReporterView};
use tokio::sync::mpsc::error::SendError;
use tokio::sync::mpsc::{UnboundedReceiver, UnboundedSender};
use vstd::prelude::*;

verus! {

/// The sending half of tokio's unbounded channel, `tokio::sync::mpsc::UnboundedSender`.
#[verifier::external_type_specification]
#[verifier::external_body]
#[verifier::reject_recursive_types(T)]
pub struct ExUnboundedSender<T>(UnboundedSender<T>);

/// The receiving half of tokio's unbounded channel, `tokio::sync::mpsc::UnboundedReceiver`.
#[verifier::external_type_specification]
#[verifier::external_body]
#[verifier::reject_recursive_types(T)]
pub struct ExUnboundedReceiver<T>(UnboundedReceiver<T>);

/// The error of a send on a closed channel, `tokio::sync::mpsc::error::SendError`.
#[verifier::external_type_specification]
#[verifier::external_body]
#[verifier::reject_recursive_types(T)]
pub struct ExSendError<T>(SendError<T>);

/// `tokio::sync::mpsc::unbounded_channel` makes a channel without a bound and
/// gives its two halves. Nothing is claimed of them.
pub assume_specification<T>[ tokio::sync::mpsc::unbounded_channel::<T> ]() -> (halves: (
    UnboundedSender<T>,
    UnboundedReceiver<T>,
))
;

/// `UnboundedSender::send` puts a message into the channel without waiting;
/// it fails once the receiving half is closed or dropped. Nothing is claimed
/// of the answer.
pub assume_specification<T>[ UnboundedSender::<T>::send ](
    sender: &UnboundedSender<T>,
    message: T,
) -> (sent: Result<(), SendError<T>>)
;

/// `UnboundedSender::clone` gives another sender for the same channel.
/// Nothing is claimed of it.
pub assume_specification<T>[ <UnboundedSender<T> as Clone>::clone ](
    sender: &UnboundedSender<T>,
) -> (other: UnboundedSender<T>)
;

/// Creates a reporter: the actor that keeps the record, and a handle for
/// sending it events. The record starts with nothing open.
pub fn create() -> (reporter: (ReporterHandle, ReporterActor))
    ensures
        reporter.1@ == ReporterView::empty(),
{
    let (sender, receiver) = tokio::sync::mpsc::unbounded_channel();
    let actor = ReporterActor::new(receiver);
    let handle = ReporterHandle::new(sender);
    (handle, actor)
}

/// Used for sending events to the reporter. A handle can be cloned and
/// shared freely; it never touches the record.
pub struct ReporterHandle {
    sender: UnboundedSender<Event>,
}

impl Clone for ReporterHandle {
    /// Another handle to the same reporter.
    fn clone(&self) -> ReporterHandle {
        ReporterHandle { sender: self.sender.clone() }
    }
}

impl ReporterHandle {
    /// The sending end of the mailbox that the handle holds.
    pub closed spec fn spec_sender(&self) -> UnboundedSender<Event> {
        self.sender
    }

    /// A handle that sends into the channel of `sender`: it holds that
    /// sender and nothing else.
    fn new(sender: UnboundedSender<Event>) -> (handle: ReporterHandle)
        ensures
            handle.spec_sender() == sender,
    {
        ReporterHandle { sender }
    }

    /// Puts the event into the reporter's mailbox and returns at once.
    ///
    /// The mailbox has no bound, so the call never waits. An event sent after
    /// the actor is gone is lost without notice.
    pub fn report(&self, event: Event) {
        let _ = self.sender.send(event);
    }
}

/// The actor that owns the record of open connections and the receiving end
/// of the mailbox.
pub struct ReporterActor {
    state: ReporterState,
    receiver: UnboundedReceiver<Event>,
}

impl View for ReporterActor {
    type V = ReporterView;

    closed spec fn view(&self) -> ReporterView {
        self.state@
    }
}

impl ReporterActor {
    /// An actor that reads from `receiver` and has nothing on record.
    fn new(receiver: UnboundedReceiver<Event>) -> (actor: ReporterActor)
        ensures
            actor.spec_mailbox() == receiver,
            actor@ == ReporterView::empty(),
    {
        ReporterActor { state: ReporterState::new(), receiver }
    }

    /// The record that the actor keeps.
    pub fn state(&self) -> (state: &ReporterState)
        ensures
            state@ == self@,
    {
        &self.state
    }

    /// The receiving end of the mailbox.
    pub closed spec fn spec_mailbox(&self) -> UnboundedReceiver<Event> {
        self.receiver
    }

    /// The receiving end of the mailbox, from which the owner of the actor
    /// takes the events one by one. The record is not touched.
    pub fn mailbox(&mut self) -> (receiver: &mut UnboundedReceiver<Event>)
        ensures
            *receiver == old(self).spec_mailbox(),
            final(self).spec_mailbox() == *final(receiver),
            final(self)@ == old(self)@,
    {
        &mut self.receiver
    }

    /// Whether [`ReporterActor::receive`] may be called with `event`: the
    /// record holds what the event speaks of, and an opening finds room in
    /// the count.
    pub fn expects(&self, event: &Event) -> (expected: bool)
        ensures
            expected == (self@.expects(*event) && (!event.is_close() ==> self@.count < u64::MAX)),
    {
        self.state.expects(event)
    }

    /// Receives an event: reads the clock, brings the record up to date and
    /// says what is to be reported.
    ///
    /// The record and the answer are those of [`ReporterState::apply`] for
    /// the reading of the clock, of which nothing is known.
    pub fn receive(&mut self, event: Event) -> (outcome: Result<Report, ReportError>)
        requires
            old(self)@.expects(event),
            !event.is_close() ==> old(self)@.count < u64::MAX,
        ensures
            exists|now: int|
                final(self)@ == #[trigger] old(self)@.after(event, now) && outcome == old(
                    self,
                )@.report(event, now),
    {
        let now = Timestamp::now();
        self.state.apply(event, now)
    }
}

} // verus!
