use vstd::prelude::*;

verus! {

/// The per-connection states: a connection is accepted, a server is
/// selected for it, the upstream connection is opened, bytes are relayed,
/// and the connection ends closed — or rejected, when no server is eligible
/// or the upstream connection fails.
#[derive(Clone, PartialEq, Eq, Debug)]
pub enum ConnState {
    Accepted,
    Selecting,
    Connecting(String),
    Relaying(String),
    Rejected,
    Closed(u64, u64),
}

/// What the surrounding connection task observed: the dispatch began, the
/// selector answered, the upstream connection attempt finished, or the relay
/// ended with the bytes moved in each direction.
#[derive(Clone, PartialEq, Eq, Debug)]
pub enum ConnEvent {
    Begin,
    Selected(Option<String>),
    ConnectFinished(bool),
    RelayFinished(u64, u64),
}

/// What the connection task must do next: consult the selector, open the
/// upstream connection to the address the state carries, relay both
/// directions, close the inbound stream without any upstream attempt, or
/// release everything.
#[derive(Clone, PartialEq, Eq, Debug)]
pub enum ConnAction {
    DoSelect,
    DoConnect,
    DoRelay,
    CloseInbound,
    Done,
}

/// The transition relation of the dispatcher. "No eligible server" and a
/// failed upstream connection both reject the connection: the inbound
/// stream is closed and nothing further is attempted. A finished relay
/// closes the connection and records the byte counts of both directions.
/// An event that does not fit the state changes nothing.
pub open spec fn spec_step(s: ConnState, e: ConnEvent) -> (ConnState, ConnAction) {
    match (s, e) {
        (ConnState::Accepted, ConnEvent::Begin) => (ConnState::Selecting, ConnAction::DoSelect),
        (ConnState::Selecting, ConnEvent::Selected(r)) => match r {
            Some(addr) => (ConnState::Connecting(addr), ConnAction::DoConnect),
            None => (ConnState::Rejected, ConnAction::CloseInbound),
        },
        (ConnState::Connecting(addr), ConnEvent::ConnectFinished(ok)) => if ok {
            (ConnState::Relaying(addr), ConnAction::DoRelay)
        } else {
            (ConnState::Rejected, ConnAction::CloseInbound)
        },
        (ConnState::Relaying(_), ConnEvent::RelayFinished(tx, rx)) => (
            ConnState::Closed(tx, rx),
            ConnAction::Done,
        ),
        (_, _) => (s, ConnAction::Done),
    }
}

/// Advance one connection by one observed event.
pub fn step(state: ConnState, event: ConnEvent) -> (r: (ConnState, ConnAction))
    ensures
        r == spec_step(state, event),
{
    match (state, event) {
        (ConnState::Accepted, ConnEvent::Begin) => (ConnState::Selecting, ConnAction::DoSelect),
        (ConnState::Selecting, ConnEvent::Selected(r)) => match r {
            Some(addr) => (ConnState::Connecting(addr), ConnAction::DoConnect),
            None => (ConnState::Rejected, ConnAction::CloseInbound),
        },
        (ConnState::Connecting(addr), ConnEvent::ConnectFinished(ok)) => {
            if ok {
                (ConnState::Relaying(addr), ConnAction::DoRelay)
            } else {
                (ConnState::Rejected, ConnAction::CloseInbound)
            }
        },
        (ConnState::Relaying(_), ConnEvent::RelayFinished(tx, rx)) => (
            ConnState::Closed(tx, rx),
            ConnAction::Done,
        ),
        (s, _) => (s, ConnAction::Done),
    }
}

/// A connection whose selection reports "no eligible server" is rejected:
/// the inbound stream is closed and no upstream connection is attempted.
pub proof fn lemma_no_eligible_server_rejects()
    ensures
        spec_step(ConnState::Selecting, ConnEvent::Selected(None)) == (
            ConnState::Rejected,
            ConnAction::CloseInbound,
        ),
{
}

} // verus!
