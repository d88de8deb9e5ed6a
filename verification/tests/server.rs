use ziliwebka::server::pool_size;
use ziliwebka::server::Activity;
use ziliwebka::server::ServerMessage;
use ziliwebka::server::ServerState;

#[test]
fn server_needs_two_threads() {
    assert_eq!(pool_size(0), None);
    assert_eq!(pool_size(1), None);
    assert_eq!(pool_size(2), Some(1));
    assert_eq!(pool_size(5), Some(4));
    assert_eq!(pool_size(usize::MAX), Some(usize::MAX - 1));
}

#[test]
fn loop_begins_paused_and_waits() {
    let state: ServerState<u8> = ServerState::new();
    assert!(matches!(state, ServerState::Paused));
    assert_eq!(state.activity(), Activity::Wait);
    assert_eq!(state.handler(), None);
    let state = state.receive(None);
    assert!(matches!(state, ServerState::Paused));
}

#[test]
fn start_streams_with_the_handler() {
    let state: ServerState<&str> = ServerState::new();
    let state = state.receive(Some(ServerMessage::Start("first")));
    assert_eq!(state.activity(), Activity::Accept);
    assert_eq!(state.handler(), Some(&"first"));
    let state = state.receive(None);
    assert_eq!(state.handler(), Some(&"first"));
    let state = state.receive(Some(ServerMessage::Start("second")));
    assert_eq!(state.activity(), Activity::Accept);
    assert_eq!(state.handler(), Some(&"second"));
}

#[test]
fn pause_stops_accepting_until_the_next_start() {
    let state: ServerState<u8> = ServerState::new();
    let state = state.receive(Some(ServerMessage::Start(1)));
    let state = state.receive(Some(ServerMessage::Pause));
    assert_eq!(state.activity(), Activity::Wait);
    assert_eq!(state.handler(), None);
    let state = state.receive(Some(ServerMessage::Start(2)));
    assert_eq!(state.handler(), Some(&2));
}

#[test]
fn stop_is_final() {
    let state: ServerState<u8> = ServerState::new();
    let state = state.receive(Some(ServerMessage::Start(1)));
    let state = state.receive(Some(ServerMessage::Stop));
    assert_eq!(state.activity(), Activity::Exit);
    let state = state.receive(Some(ServerMessage::Start(2)));
    assert!(matches!(state, ServerState::Stopped));
    let state = state.receive(Some(ServerMessage::Pause));
    assert!(matches!(state, ServerState::Stopped));
    let state = state.receive(None);
    assert_eq!(state.activity(), Activity::Exit);
    assert_eq!(state.handler(), None);
}
