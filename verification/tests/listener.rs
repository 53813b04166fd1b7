use sockgauge::proxy::{Listener, ListenerAction, ListenerPhase, ListenerProgress};

#[test]
fn a_new_listener_is_binding() {
    let listener = Listener::new();
    assert_eq!(listener.phase(), ListenerPhase::Binding);
}

#[test]
fn a_failed_bind_is_fatal() {
    let mut listener = Listener::new();
    assert_eq!(listener.step(ListenerProgress::BindFailed), ListenerAction::Fail);
    assert_eq!(listener.phase(), ListenerPhase::Failed);
    assert_eq!(listener.step(ListenerProgress::Bound), ListenerAction::Ignore);
    assert_eq!(listener.step(ListenerProgress::Accepted), ListenerAction::Ignore);
    assert_eq!(listener.phase(), ListenerPhase::Failed);
}

#[test]
fn every_accepted_connection_is_relayed() {
    let mut listener = Listener::new();
    assert_eq!(listener.step(ListenerProgress::Bound), ListenerAction::Accept);
    assert_eq!(listener.phase(), ListenerPhase::Accepting);
    for _ in 0..5 {
        assert_eq!(listener.step(ListenerProgress::Accepted), ListenerAction::Relay);
        assert_eq!(listener.phase(), ListenerPhase::Accepting);
    }
}

#[test]
fn the_first_failed_accept_ends_the_service() {
    let mut listener = Listener::new();
    let _ = listener.step(ListenerProgress::Bound);
    let _ = listener.step(ListenerProgress::Accepted);
    assert_eq!(listener.step(ListenerProgress::AcceptFailed), ListenerAction::Stop);
    assert_eq!(listener.phase(), ListenerPhase::Stopped);
    assert_eq!(listener.step(ListenerProgress::Accepted), ListenerAction::Ignore);
    assert_eq!(listener.step(ListenerProgress::AcceptFailed), ListenerAction::Ignore);
    assert_eq!(listener.step(ListenerProgress::Bound), ListenerAction::Ignore);
    assert_eq!(listener.phase(), ListenerPhase::Stopped);
}

#[test]
fn nothing_is_accepted_before_the_bind() {
    let mut listener = Listener::new();
    assert_eq!(listener.step(ListenerProgress::Accepted), ListenerAction::Ignore);
    assert_eq!(listener.step(ListenerProgress::AcceptFailed), ListenerAction::Ignore);
    assert_eq!(listener.phase(), ListenerPhase::Binding);
    let _ = listener.step(ListenerProgress::Bound);
    assert_eq!(listener.step(ListenerProgress::Bound), ListenerAction::Ignore);
    assert_eq!(listener.step(ListenerProgress::BindFailed), ListenerAction::Ignore);
    assert_eq!(listener.phase(), ListenerPhase::Accepting);
}
