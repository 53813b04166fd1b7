//! What holds of the record after a whole history of events.

use super::address::Address;
use super::event::Event;
use super::state::ReporterView;
use vstd::prelude::*;

verus! {

/// Whether the connection of `addr` is open after `events`: it was opened,
/// and no later event is about it.
pub open spec fn still_open(events: Seq<Event>, addr: Address) -> bool {
    exists|i: int|
        0 <= i < events.len() && #[trigger] events[i] == Event::Opened(addr) && forall|j: int|
            i < j < events.len() ==> (#[trigger] events[j]).address() != addr
}

/// The peers whose connections are open after `events`.
pub open spec fn open_after(events: Seq<Event>) -> Set<Address> {
    Set::new(|addr: Address| still_open(events, addr))
}

/// Whether `events` is a history that connections can produce, in whatever
/// way they are interleaved: a close comes only for a peer whose connection
/// is open, an opening only for a peer whose connection is not. So no
/// connection is closed before it is opened, and none is closed twice.
pub open spec fn well_ordered(events: Seq<Event>) -> bool {
    forall|n: int|
        0 <= n < events.len() ==> (#[trigger] events[n]).is_close() == still_open(
            events.take(n),
            events[n].address(),
        )
}

/// The events that are about the connection of `addr`, in their order.
pub open spec fn about(events: Seq<Event>, addr: Address) -> Seq<Event> {
    events.filter(|event: Event| event.address() == addr)
}

impl ReporterView {
    /// The record after the events of a history, the `n`-th of which arrived
    /// when the clock read `readings[n]`.
    pub open spec fn after_all(self, events: Seq<Event>, readings: Seq<int>) -> ReporterView
        recommends
            events.len() == readings.len(),
        decreases events.len(),
    {
        if events.len() == 0 {
            self
        } else {
            self.after_all(events.drop_last(), readings.drop_last()).after(
                events.last(),
                readings.last(),
            )
        }
    }
}

/// After one more event, the connection of the event's peer is open if the
/// event is an opening, and every other connection is as it was.
proof fn lemma_still_open_push(events: Seq<Event>, event: Event, addr: Address)
    ensures
        still_open(events.push(event), addr) == if event.address() == addr {
            !event.is_close()
        } else {
            still_open(events, addr)
        },
{
    let longer = events.push(event);
    let last = events.len() as int;
    if still_open(longer, addr) {
        let i = choose|i: int|
            0 <= i < longer.len() && #[trigger] longer[i] == Event::Opened(addr) && forall|j: int|
                i < j < longer.len() ==> (#[trigger] longer[j]).address() != addr;
        if i < last {
            assert forall|j: int| i < j < events.len() implies (#[trigger] events[j]).address()
                != addr by {
                assert(longer[j].address() != addr);
            }
        }
    }
    if event.address() == addr {
        if !event.is_close() {
            assert(longer[last] == Event::Opened(addr));
        }
    } else if still_open(events, addr) {
        let i = choose|i: int|
            0 <= i < events.len() && #[trigger] events[i] == Event::Opened(addr) && forall|j: int|
                i < j < events.len() ==> (#[trigger] events[j]).address() != addr;
        assert(longer[i] == Event::Opened(addr));
        assert forall|j: int| i < j < longer.len() implies (#[trigger] longer[j]).address()
            != addr by {
            if j < last {
                assert(longer[j] == events[j]);
            }
        }
    }
}

/// After one more event, the open connections are those that were open
/// before, with the peer of the event added by an opening and taken away by a
/// close.
proof fn lemma_open_after_push(events: Seq<Event>, event: Event)
    ensures
        open_after(events.push(event)) == if event.is_close() {
            open_after(events).remove(event.address())
        } else {
            open_after(events).insert(event.address())
        },
{
    let expected = if event.is_close() {
        open_after(events).remove(event.address())
    } else {
        open_after(events).insert(event.address())
    };
    assert forall|addr: Address| open_after(events.push(event)).contains(addr)
        == expected.contains(addr) by {
        lemma_still_open_push(events, event, addr);
    }
}

/// Whether a connection is open shows in the events about it alone.
proof fn lemma_still_open_in_own_events(events: Seq<Event>, addr: Address)
    ensures
        still_open(events, addr) == still_open(about(events, addr), addr),
    decreases events.len(),
{
    if events.len() == 0 {
        assert(about(events, addr).len() == 0) by {
            events.lemma_filter_len(|event: Event| event.address() == addr);
        }
    } else {
        let before = events.drop_last();
        let event = events.last();
        assert(before.push(event) =~= events);
        lemma_still_open_in_own_events(before, addr);
        lemma_still_open_push(before, event, addr);
        before.lemma_filter_push(event, |event: Event| event.address() == addr);
        if event.address() == addr {
            lemma_still_open_push(about(before, addr), event, addr);
        }
    }
}

/// The events about a peer that come before one of its events are the first
/// of all the events about it, and that event is the next.
proof fn lemma_own_events_before(events: Seq<Event>, n: int)
    requires
        0 <= n < events.len(),
    ensures
        ({
            let own = about(events, events[n].address());
            let earlier = about(events.take(n), events[n].address());
            &&& earlier.len() < own.len()
            &&& own.take(earlier.len() as int) == earlier
            &&& own[earlier.len() as int] == events[n]
        }),
    decreases events.len(),
{
    let addr = events[n].address();
    let before = events.drop_last();
    let last = events.last();
    assert(before.push(last) =~= events);
    before.lemma_filter_push(last, |event: Event| event.address() == addr);
    if n < events.len() - 1 {
        lemma_own_events_before(before, n);
        assert(before.take(n) =~= events.take(n));
    }
}

/// Every start of a well-ordered history is well ordered.
proof fn lemma_prefix_is_well_ordered(events: Seq<Event>, n: int)
    requires
        well_ordered(events),
        0 <= n <= events.len(),
    ensures
        well_ordered(events.take(n)),
{
    let prefix = events.take(n);
    assert forall|k: int| 0 <= k < prefix.len() implies (#[trigger] prefix[k]).is_close()
        == still_open(prefix.take(k), prefix[k].address()) by {
        assert(prefix.take(k) =~= events.take(k));
    }
}

/// The record after a well-ordered history holds exactly the peers whose
/// connections are open, and counts them.
proof fn lemma_record_follows_history(events: Seq<Event>, readings: Seq<int>)
    requires
        well_ordered(events),
        events.len() == readings.len(),
    ensures
        open_after(events).finite(),
        ReporterView::empty().after_all(events, readings).count == open_after(events).len(),
        ReporterView::empty().after_all(events, readings).connected_since.dom() == open_after(
            events,
        ),
    decreases events.len(),
{
    if events.len() == 0 {
        assert(ReporterView::empty().connected_since.dom() =~= open_after(events));
    } else {
        let before = events.drop_last();
        lemma_prefix_is_well_ordered(events, events.len() - 1);
        lemma_record_follows_history(before, readings.drop_last());
        lemma_open_after_push(before, events.last());
        assert(before.push(events.last()) =~= events);
    }
}

/// The count of the record is the number of connections that are open.
///
/// For every well-ordered history, whenever its events arrived: after all of
/// them the record holds exactly the peers whose connections were opened and
/// not closed since, and its count is their number.
pub proof fn law_count_is_number_of_open_connections(events: Seq<Event>, readings: Seq<int>)
    requires
        well_ordered(events),
        events.len() == readings.len(),
    ensures
        open_after(events).finite(),
        ReporterView::empty().after_all(events, readings).count == open_after(events).len(),
        ReporterView::empty().after_all(events, readings).connected_since.dom() == open_after(
            events,
        ),
{
    lemma_record_follows_history(events, readings);
}

/// The count never goes below zero, and no event comes unexpected.
///
/// For every well-ordered history and each of its events: the record as it
/// stands when the event arrives expects it, and the count is at least zero
/// both before and after the event.
pub proof fn law_count_is_never_negative(events: Seq<Event>, readings: Seq<int>, n: int)
    requires
        well_ordered(events),
        events.len() == readings.len(),
        0 <= n < events.len(),
    ensures
        ReporterView::empty().after_all(events.take(n), readings.take(n)).expects(events[n]),
        ReporterView::empty().after_all(events.take(n), readings.take(n)).count >= 0,
        ReporterView::empty().after_all(events.take(n + 1), readings.take(n + 1)).count >= 0,
        ReporterView::empty().after_all(events.take(n + 1), readings.take(n + 1))
            == ReporterView::empty().after_all(events.take(n), readings.take(n)).after(
            events[n],
            readings[n],
        ),
{
    lemma_prefix_is_well_ordered(events, n);
    lemma_prefix_is_well_ordered(events, n + 1);
    lemma_record_follows_history(events.take(n), readings.take(n));
    lemma_record_follows_history(events.take(n + 1), readings.take(n + 1));
    assert(events.take(n + 1).drop_last() =~= events.take(n));
    assert(readings.take(n + 1).drop_last() =~= readings.take(n));
}

/// Connections may be interleaved in any way.
///
/// A history is well ordered as soon as, for each peer, the events about
/// that peer are well ordered among themselves: how the events of different
/// connections fall between one another does not matter.
pub proof fn law_interleaving_is_well_ordered(events: Seq<Event>)
    requires
        forall|addr: Address| well_ordered(#[trigger] about(events, addr)),
    ensures
        well_ordered(events),
{
    assert forall|n: int| 0 <= n < events.len() implies (#[trigger] events[n]).is_close()
        == still_open(events.take(n), events[n].address()) by {
        // The event is one of those about its peer, and whether the peer's
        // connection is open when it comes shows in the ones before it.
        lemma_own_events_before(events, n);
        lemma_still_open_in_own_events(events.take(n), events[n].address());
    }
}

/// Which connections are open shows peer by peer: a connection is open after
/// a history exactly if it is open after the events about its peer.
pub proof fn law_open_connections_show_peer_by_peer(events: Seq<Event>, addr: Address)
    ensures
        open_after(events).contains(addr) == still_open(about(events, addr), addr),
{
    lemma_still_open_in_own_events(events, addr);
}

} // verus!
