use lbproxy::dispatch::{step, ConnAction, ConnEvent, ConnState};

#[test]
fn dispatched_connection_relays_and_records_byte_counts() {
    let (s, a) = step(ConnState::Accepted, ConnEvent::Begin);
    assert_eq!(s, ConnState::Selecting);
    assert_eq!(a, ConnAction::DoSelect);

    let (s, a) = step(s, ConnEvent::Selected(Some("upstream:1".to_string())));
    assert_eq!(s, ConnState::Connecting("upstream:1".to_string()));
    assert_eq!(a, ConnAction::DoConnect);

    let (s, a) = step(s, ConnEvent::ConnectFinished(true));
    assert_eq!(s, ConnState::Relaying("upstream:1".to_string()));
    assert_eq!(a, ConnAction::DoRelay);

    // The client sent 4 bytes one way and read 4 bytes the other way.
    let (s, a) = step(s, ConnEvent::RelayFinished(4, 4));
    assert_eq!(s, ConnState::Closed(4, 4));
    assert_eq!(a, ConnAction::Done);
}

#[test]
fn no_eligible_server_rejects_without_upstream_attempt() {
    let (s, _) = step(ConnState::Accepted, ConnEvent::Begin);
    let (s, a) = step(s, ConnEvent::Selected(None));
    assert_eq!(s, ConnState::Rejected);
    assert_eq!(a, ConnAction::CloseInbound);
}

#[test]
fn failed_upstream_connection_rejects() {
    let s = ConnState::Connecting("upstream:1".to_string());
    let (s, a) = step(s, ConnEvent::ConnectFinished(false));
    assert_eq!(s, ConnState::Rejected);
    assert_eq!(a, ConnAction::CloseInbound);
}
