use sockgauge::reporter::{
    create, Address, Direction, Event, Report, ReporterHandle, SocketCloseError,
};
use std::time::Instant;

fn peer(port: u16) -> Address {
    Address::V6 { ip: 1, port, flowinfo: 0, scope_id: 0 }
}

#[test]
fn a_new_actor_has_nothing_on_record() {
    let (_handle, actor) = create();
    assert_eq!(actor.state().count(), 0);
    assert!(actor.expects(&Event::Opened(peer(1))));
    assert!(!actor.expects(&Event::ClosedGracefully(peer(1))));
}

#[test]
fn reported_events_arrive_in_order() {
    let (handle, mut actor) = create();
    handle.report(Event::Opened(peer(1)));
    handle.report(Event::Opened(peer(2)));
    handle.report(Event::ClosedGracefully(peer(1)));
    assert_eq!(actor.mailbox().try_recv().ok(), Some(Event::Opened(peer(1))));
    assert_eq!(actor.mailbox().try_recv().ok(), Some(Event::Opened(peer(2))));
    assert_eq!(
        actor.mailbox().try_recv().ok(),
        Some(Event::ClosedGracefully(peer(1)))
    );
    assert!(actor.mailbox().try_recv().is_err());
}

#[test]
fn handles_share_one_mailbox() {
    let (handle, mut actor) = create();
    let other: ReporterHandle = handle.clone();
    other.report(Event::Opened(peer(7)));
    handle.report(Event::ClosedWithError(
        peer(7),
        SocketCloseError(Direction::ServerToClient, "reset".to_string()),
    ));
    drop(handle);
    assert_eq!(actor.mailbox().try_recv().ok(), Some(Event::Opened(peer(7))));
    assert_eq!(
        actor.mailbox().try_recv().ok(),
        Some(Event::ClosedWithError(
            peer(7),
            SocketCloseError(Direction::ServerToClient, "reset".to_string()),
        ))
    );
    assert!(!actor.mailbox().is_closed() || actor.mailbox().is_empty());
}

#[test]
fn the_mailbox_ends_when_all_handles_are_gone() {
    let (handle, mut actor) = create();
    let other = handle.clone();
    handle.report(Event::Opened(peer(1)));
    drop(handle);
    drop(other);
    assert_eq!(actor.mailbox().blocking_recv(), Some(Event::Opened(peer(1))));
    assert_eq!(actor.mailbox().blocking_recv(), None);
}

#[test]
fn a_report_after_the_actor_is_gone_is_lost_silently() {
    let (handle, actor) = create();
    drop(actor);
    handle.report(Event::Opened(peer(1)));
    handle.report(Event::ClosedGracefully(peer(1)));
}

#[test]
fn the_actor_keeps_the_record() {
    let (handle, mut actor) = create();
    handle.report(Event::Opened(peer(1)));
    handle.report(Event::Opened(peer(2)));
    handle.report(Event::ClosedGracefully(peer(1)));
    drop(handle);

    let started = Instant::now();
    let mut reports = Vec::new();
    while let Some(event) = actor.mailbox().blocking_recv() {
        assert!(actor.expects(&event));
        reports.push(actor.receive(event));
    }
    let took = started.elapsed().as_nanos();

    assert_eq!(reports.len(), 3);
    assert_eq!(reports[0], Ok(Report::Opened { count: 1, addr: peer(1) }));
    assert_eq!(reports[1], Ok(Report::Opened { count: 2, addr: peer(2) }));
    match &reports[2] {
        Ok(Report::ClosedGracefully { count, addr, connected_for }) => {
            assert_eq!(*count, 1);
            assert_eq!(*addr, peer(1));
            assert!(connected_for.nanos <= took);
        }
        _ => unreachable!(),
    }
    assert_eq!(actor.state().count(), 1);
    assert!(actor.state().connected_since(peer(2)).is_some());
    assert!(actor.state().connected_since(peer(1)).is_none());
}
