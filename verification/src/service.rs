//! The relays and the reporter together.

use crate::proxy::relay::{
    law_history_is_well_ordered, law_open_while_forwarding, Phase, Progress,
};
use crate::reporter::address::Address;
use crate::reporter::event::Event;
use crate::reporter::history::{
    about, law_count_is_number_of_open_connections, law_interleaving_is_well_ordered,
    law_open_connections_show_peer_by_peer, open_after, well_ordered,
};
use crate::reporter::state::ReporterView;
use vstd::prelude::*;

verus! {

/// The reporter counts the connections that are being forwarded.
///
/// Let every peer have a relay, to which `happened(addr)` was told, and let
/// `events` hold the events of all relays, interleaved in any way: for each
/// peer, the events about it are those that its relay handed out, in their
/// order. Then `events` is well ordered, so the reporter expects each of
/// them when it arrives. The connections that are open after `events` are
/// those whose relay is forwarding, which is to say opened and not closed.
/// And whenever the events arrived, the count of a record that started empty
/// is the number of those connections.
pub proof fn law_reporter_counts_forwarding_relays(
    events: Seq<Event>,
    readings: Seq<int>,
    happened: spec_fn(Address) -> Seq<Progress>,
)
    requires
        events.len() == readings.len(),
        forall|addr: Address| #[trigger]
            about(events, addr) == Phase::Connecting.history(addr, happened(addr)),
    ensures
        well_ordered(events),
        forall|addr: Address|
            open_after(events).contains(addr) == (Phase::Connecting.after_all(
                #[trigger] happened(addr),
            ) is Forwarding),
        open_after(events).finite(),
        ReporterView::empty().after_all(events, readings).count == open_after(events).len(),
{
    assert forall|addr: Address| well_ordered(#[trigger] about(events, addr)) by {
        law_history_is_well_ordered(addr, happened(addr));
    }
    law_interleaving_is_well_ordered(events);
    assert forall|addr: Address|
        open_after(events).contains(addr) == (Phase::Connecting.after_all(
            #[trigger] happened(addr),
        ) is Forwarding) by {
        law_open_connections_show_peer_by_peer(events, addr);
        law_open_while_forwarding(addr, happened(addr));
    }
    law_count_is_number_of_open_connections(events, readings);
}

} // verus!
