use sockgauge::proxy::{Action, Leg, Phase, Progress, Relay};
use sockgauge::reporter::{
    Address, Direction, Event, Report, ReporterState, SocketCloseError, Timestamp,
};

fn client() -> Address {
    Address::V4 { ip: 0x0a00_0001, port: 51234 }
}

fn forwarding(client_to_server: Leg, server_to_client: Leg) -> Phase {
    Phase::Forwarding { client_to_server, server_to_client }
}

#[test]
fn a_new_relay_is_connecting() {
    let relay = Relay::new(client());
    assert_eq!(relay.phase(), Phase::Connecting);
    assert_eq!(relay.address(), client());
}

#[test]
fn ping_is_echoed_and_the_client_closes() {
    let mut relay = Relay::new(client());
    let mut state = ReporterState::new();
    let mut reports = Vec::new();

    let action = relay.step(Progress::Connected);
    assert_eq!(action, Action::Start(Event::Opened(client())));
    if let Action::Start(event) = action {
        reports.push(state.apply(event, Timestamp::after_epoch(1_000, 0)));
    }
    assert_eq!(relay.phase(), forwarding(Leg::Copying, Leg::Copying));

    // The client has sent "ping", got it back and closed its socket.
    assert_eq!(
        relay.step(Progress::Copied(Direction::ClientToServer)),
        Action::HalfClose(Direction::ClientToServer)
    );
    assert_eq!(relay.phase(), forwarding(Leg::Closing, Leg::Copying));
    assert_eq!(relay.step(Progress::ShutDown(Direction::ClientToServer)), Action::Wait);
    assert_eq!(relay.phase(), forwarding(Leg::Done, Leg::Copying));

    // The destination saw the end of its input and closed in turn.
    assert_eq!(
        relay.step(Progress::Copied(Direction::ServerToClient)),
        Action::HalfClose(Direction::ServerToClient)
    );
    assert_eq!(relay.phase(), forwarding(Leg::Done, Leg::Closing));
    let action = relay.step(Progress::ShutDown(Direction::ServerToClient));
    assert_eq!(action, Action::Close(Event::ClosedGracefully(client())));
    if let Action::Close(event) = action {
        assert!(state.expects(&event));
        reports.push(state.apply(event, Timestamp::after_epoch(1_000, 42_000_000)));
    }
    assert_eq!(relay.phase(), Phase::Closed);

    assert_eq!(reports.len(), 2);
    assert_eq!(reports[0], Ok(Report::Opened { count: 1, addr: client() }));
    match &reports[1] {
        Ok(Report::ClosedGracefully { count, addr, connected_for }) => {
            assert_eq!(*count, 0);
            assert_eq!(*addr, client());
            assert_eq!(connected_for.nanos, 42_000_000);
        }
        _ => unreachable!(),
    }
    assert_eq!(state.count(), 0);
}

#[test]
fn an_unreachable_destination_reports_nothing() {
    let mut state = ReporterState::new();
    let _ = state.apply(
        Event::Opened(Address::V4 { ip: 1, port: 1 }),
        Timestamp::after_epoch(1, 0),
    );

    let mut relay = Relay::new(client());
    assert_eq!(relay.step(Progress::ConnectFailed), Action::Abort);
    assert_eq!(relay.phase(), Phase::Refused);

    // Nothing that is told to the relay afterwards brings an event.
    assert_eq!(relay.step(Progress::Connected), Action::Ignore);
    assert_eq!(relay.step(Progress::Copied(Direction::ClientToServer)), Action::Ignore);
    assert_eq!(relay.step(Progress::ShutDown(Direction::ServerToClient)), Action::Ignore);
    assert_eq!(
        relay.step(Progress::Failed(SocketCloseError(
            Direction::ClientToServer,
            "reset".to_string()
        ))),
        Action::Ignore
    );
    assert_eq!(relay.phase(), Phase::Refused);

    assert_eq!(state.count(), 1);
    assert_eq!(state.connected_since(client()), None);
}

#[test]
fn the_directions_may_end_in_either_order() {
    let mut relay = Relay::new(client());
    let _ = relay.step(Progress::Connected);
    assert_eq!(
        relay.step(Progress::Copied(Direction::ServerToClient)),
        Action::HalfClose(Direction::ServerToClient)
    );
    assert_eq!(
        relay.step(Progress::Copied(Direction::ClientToServer)),
        Action::HalfClose(Direction::ClientToServer)
    );
    assert_eq!(relay.phase(), forwarding(Leg::Closing, Leg::Closing));
    assert_eq!(relay.step(Progress::ShutDown(Direction::ServerToClient)), Action::Wait);
    assert_eq!(relay.phase(), forwarding(Leg::Closing, Leg::Done));
    assert_eq!(
        relay.step(Progress::ShutDown(Direction::ClientToServer)),
        Action::Close(Event::ClosedGracefully(client()))
    );
    assert_eq!(relay.phase(), Phase::Closed);
}

#[test]
fn a_failed_copy_closes_at_once() {
    let mut relay = Relay::new(client());
    let _ = relay.step(Progress::Connected);
    let action = relay.step(Progress::Failed(SocketCloseError(
        Direction::ServerToClient,
        "connection reset".to_string(),
    )));
    assert_eq!(
        action,
        Action::Close(Event::ClosedWithError(
            client(),
            SocketCloseError(Direction::ServerToClient, "connection reset".to_string()),
        ))
    );
    assert_eq!(relay.phase(), Phase::Closed);

    // The other direction was still copying; what it does now is of no interest.
    assert_eq!(relay.step(Progress::Copied(Direction::ClientToServer)), Action::Ignore);
    assert_eq!(relay.step(Progress::ShutDown(Direction::ClientToServer)), Action::Ignore);
    assert_eq!(
        relay.step(Progress::Failed(SocketCloseError(
            Direction::ClientToServer,
            "broken pipe".to_string()
        ))),
        Action::Ignore
    );
    assert_eq!(relay.phase(), Phase::Closed);
}

#[test]
fn a_failed_shutdown_closes_with_its_direction() {
    let mut relay = Relay::new(client());
    let _ = relay.step(Progress::Connected);
    let _ = relay.step(Progress::Copied(Direction::ClientToServer));
    let action = relay.step(Progress::Failed(SocketCloseError(
        Direction::ClientToServer,
        "not connected".to_string(),
    )));
    assert_eq!(
        action,
        Action::Close(Event::ClosedWithError(
            client(),
            SocketCloseError(Direction::ClientToServer, "not connected".to_string()),
        ))
    );
    assert_eq!(relay.phase(), Phase::Closed);
}

#[test]
fn a_failure_after_one_direction_is_done_still_closes_with_error() {
    let mut relay = Relay::new(client());
    let _ = relay.step(Progress::Connected);
    let _ = relay.step(Progress::Copied(Direction::ClientToServer));
    let _ = relay.step(Progress::ShutDown(Direction::ClientToServer));
    let action = relay.step(Progress::Failed(SocketCloseError(
        Direction::ServerToClient,
        "reset".to_string(),
    )));
    assert_eq!(
        action,
        Action::Close(Event::ClosedWithError(
            client(),
            SocketCloseError(Direction::ServerToClient, "reset".to_string()),
        ))
    );
    assert_eq!(relay.phase(), Phase::Closed);
}

#[test]
fn what_does_not_belong_to_the_phase_is_ignored() {
    let mut relay = Relay::new(client());
    assert_eq!(relay.step(Progress::Copied(Direction::ClientToServer)), Action::Ignore);
    assert_eq!(relay.step(Progress::ShutDown(Direction::ClientToServer)), Action::Ignore);
    assert_eq!(
        relay.step(Progress::Failed(SocketCloseError(
            Direction::ClientToServer,
            "reset".to_string()
        ))),
        Action::Ignore
    );
    assert_eq!(relay.phase(), Phase::Connecting);

    let _ = relay.step(Progress::Connected);
    assert_eq!(relay.step(Progress::Connected), Action::Ignore);
    assert_eq!(relay.step(Progress::ConnectFailed), Action::Ignore);
    assert_eq!(relay.step(Progress::ShutDown(Direction::ClientToServer)), Action::Ignore);
    assert_eq!(relay.phase(), forwarding(Leg::Copying, Leg::Copying));

    let _ = relay.step(Progress::Copied(Direction::ClientToServer));
    assert_eq!(relay.step(Progress::Copied(Direction::ClientToServer)), Action::Ignore);
    let _ = relay.step(Progress::ShutDown(Direction::ClientToServer));
    assert_eq!(relay.step(Progress::ShutDown(Direction::ClientToServer)), Action::Ignore);
    assert_eq!(
        relay.step(Progress::Failed(SocketCloseError(
            Direction::ClientToServer,
            "late".to_string()
        ))),
        Action::Ignore
    );
    assert_eq!(relay.phase(), forwarding(Leg::Done, Leg::Copying));
}

#[test]
fn interleaved_connections_are_counted() {
    let peers: Vec<Address> =
        (0..4).map(|n| Address::V4 { ip: 0x0a00_0000 + n, port: 40_000 }).collect();
    let mut relays: Vec<Relay> = peers.iter().map(|addr| Relay::new(*addr)).collect();
    let mut state = ReporterState::new();
    let mut clock = 0;
    let mut tell = |relay: &mut Relay, progress: Progress, state: &mut ReporterState| {
        clock += 1;
        match relay.step(progress) {
            Action::Start(event) | Action::Close(event) => {
                assert!(state.expects(&event));
                assert!(state.apply(event, Timestamp::after_epoch(clock, 0)).is_ok());
            }
            _ => {}
        }
    };

    tell(&mut relays[0], Progress::Connected, &mut state);
    tell(&mut relays[1], Progress::Connected, &mut state);
    tell(&mut relays[2], Progress::ConnectFailed, &mut state);
    assert_eq!(state.count(), 2);
    tell(&mut relays[0], Progress::Copied(Direction::ClientToServer), &mut state);
    tell(&mut relays[3], Progress::Connected, &mut state);
    assert_eq!(state.count(), 3);
    tell(
        &mut relays[1],
        Progress::Failed(SocketCloseError(Direction::ClientToServer, "reset".to_string())),
        &mut state,
    );
    assert_eq!(state.count(), 2);
    tell(&mut relays[0], Progress::ShutDown(Direction::ClientToServer), &mut state);
    tell(&mut relays[0], Progress::Copied(Direction::ServerToClient), &mut state);
    tell(&mut relays[1], Progress::Copied(Direction::ServerToClient), &mut state);
    assert_eq!(state.count(), 2);
    tell(&mut relays[0], Progress::ShutDown(Direction::ServerToClient), &mut state);
    assert_eq!(state.count(), 1);

    assert_eq!(relays[0].phase(), Phase::Closed);
    assert_eq!(relays[1].phase(), Phase::Closed);
    assert_eq!(relays[2].phase(), Phase::Refused);
    assert_eq!(relays[3].phase(), forwarding(Leg::Copying, Leg::Copying));
    assert!(state.connected_since(peers[3]).is_some());
    assert!(state.connected_since(peers[0]).is_none());
    assert!(state.connected_since(peers[2]).is_none());
}
