use nrts_client::lifecycle::{startup, LinkState, NetworkEvent};
use nrts_client::protocol::{encode_request, encode_response, DecodeError, NetworkRequest, NetworkResponse};
use nrts_client::sync::{handle_event, handle_packets, Action};
use nrts_client::world::WorldStore;

fn response_packet(handle: u32, payload: &[u8]) -> NetworkEvent {
    NetworkEvent::Packet(handle, encode_response(&NetworkResponse::ResponseWorld(payload.to_vec())))
}

fn broadcasts(actions: &[Action]) -> Vec<Vec<u8>> {
    actions
        .iter()
        .filter_map(|a| match a {
            Action::Broadcast(b) => Some(b.clone()),
            _ => None,
        })
        .collect()
}

fn started() -> (LinkState, WorldStore) {
    let mut state = LinkState::Disconnected;
    assert!(startup(&mut state));
    assert_eq!(state, LinkState::Connecting);
    (state, WorldStore::new())
}

#[test]
fn connect_then_snapshot_applies_it() {
    let (mut state, mut world) = started();
    let actions = handle_packets(&mut state, &mut world, &vec![NetworkEvent::Connected(1)]);
    let sent = broadcasts(&actions);
    assert_eq!(sent.len(), 1);
    assert_eq!(sent[0], encode_request(&NetworkRequest::RequestWorld));
    assert_eq!(state, LinkState::Connected(1));
    assert!(world.is_empty());

    let actions = handle_packets(&mut state, &mut world, &vec![response_packet(1, &[7, 8, 9])]);
    assert!(matches!(actions[..], [Action::Applied]));
    assert_eq!(world.snapshot(), Some(&vec![7, 8, 9]));
}

#[test]
fn two_snapshots_in_one_tick_last_wins() {
    let (mut state, mut world) = started();
    let events = vec![
        NetworkEvent::Connected(1),
        response_packet(1, &[1, 1, 1, 1]),
        response_packet(1, &[2, 2]),
    ];
    let actions = handle_packets(&mut state, &mut world, &events);
    assert_eq!(actions.len(), 3);
    assert!(matches!(actions[1], Action::Applied));
    assert!(matches!(actions[2], Action::Applied));
    assert_eq!(world.snapshot(), Some(&vec![2, 2]));

    let mut other = WorldStore::new();
    let mut other_state = LinkState::Connected(1);
    handle_packets(&mut other_state, &mut other, &vec![response_packet(1, &[5]), response_packet(1, &[2, 2])]);
    assert_eq!(other.snapshot(), world.snapshot());
}

#[test]
fn error_before_connect_sends_nothing() {
    let (mut state, mut world) = started();
    let actions = handle_packets(&mut state, &mut world, &vec![NetworkEvent::Error(1)]);
    assert!(broadcasts(&actions).is_empty());
    assert!(matches!(actions[..], [Action::Idle]));
    assert_eq!(state, LinkState::Disconnected);
    assert!(world.is_empty());
}

#[test]
fn repeated_connected_requests_once() {
    let (mut state, mut world) = started();
    let events = vec![
        NetworkEvent::Connected(3),
        NetworkEvent::Connected(3),
        NetworkEvent::Connected(4),
    ];
    let actions = handle_packets(&mut state, &mut world, &events);
    assert_eq!(broadcasts(&actions).len(), 1);
    assert!(matches!(actions[0], Action::Broadcast(_)));
    assert_eq!(state, LinkState::Connected(3));
    let again = handle_packets(&mut state, &mut world, &vec![NetworkEvent::Connected(3)]);
    assert!(broadcasts(&again).is_empty());
}

#[test]
fn bad_packet_is_dropped_and_later_ones_handled() {
    let (mut state, mut world) = started();
    let events = vec![
        NetworkEvent::Connected(1),
        response_packet(1, &[4, 4]),
        NetworkEvent::Packet(1, vec![]),
        NetworkEvent::Packet(1, vec![9, 1, 2]),
        response_packet(1, &[6]),
    ];
    let actions = handle_packets(&mut state, &mut world, &events);
    assert_eq!(actions.len(), 5);
    assert!(matches!(actions[2], Action::Discarded(DecodeError::Empty)));
    assert!(matches!(actions[3], Action::Discarded(DecodeError::UnknownKind(9))));
    assert!(matches!(actions[4], Action::Applied));
    assert_eq!(world.snapshot(), Some(&vec![6]));
}

#[test]
fn bad_packet_keeps_world() {
    let mut state = LinkState::Connected(1);
    let mut world = WorldStore::new();
    handle_packets(&mut state, &mut world, &vec![response_packet(1, &[3, 3])]);
    let action = handle_event(&mut state, &mut world, &NetworkEvent::Packet(1, vec![200]));
    assert!(matches!(action, Action::Discarded(DecodeError::UnknownKind(200))));
    assert_eq!(world.snapshot(), Some(&vec![3, 3]));
    assert_eq!(state, LinkState::Connected(1));
}

#[test]
fn lifecycle_follows_allowed_edges() {
    let (mut state, mut world) = started();
    handle_event(&mut state, &mut world, &NetworkEvent::Packet(2, vec![0]));
    assert_eq!(state, LinkState::Connecting);
    handle_event(&mut state, &mut world, &NetworkEvent::Connected(2));
    assert_eq!(state, LinkState::Connected(2));
    handle_event(&mut state, &mut world, &NetworkEvent::Disconnected(5));
    assert_eq!(state, LinkState::Connected(2));
    handle_event(&mut state, &mut world, &NetworkEvent::Error(2));
    assert_eq!(state, LinkState::Connected(2));
    handle_event(&mut state, &mut world, &NetworkEvent::Disconnected(2));
    assert_eq!(state, LinkState::Disconnected);
    let action = handle_event(&mut state, &mut world, &NetworkEvent::Connected(2));
    assert!(matches!(action, Action::Idle));
    assert_eq!(state, LinkState::Disconnected);
}

#[test]
fn disconnect_while_connecting_keeps_attempt() {
    let (mut state, mut world) = started();
    let action = handle_event(&mut state, &mut world, &NetworkEvent::Disconnected(8));
    assert!(matches!(action, Action::Idle));
    assert_eq!(state, LinkState::Connecting);
    handle_event(&mut state, &mut world, &NetworkEvent::Connected(8));
    assert_eq!(state, LinkState::Connected(8));
}

#[test]
fn startup_only_from_disconnected() {
    let mut state = LinkState::Connected(1);
    assert!(!startup(&mut state));
    assert_eq!(state, LinkState::Connected(1));
    let mut state = LinkState::Connecting;
    assert!(!startup(&mut state));
    assert_eq!(state, LinkState::Connecting);
}

#[test]
fn empty_tick_changes_nothing() {
    let (mut state, mut world) = started();
    let actions = handle_packets(&mut state, &mut world, &vec![]);
    assert!(actions.is_empty());
    assert_eq!(state, LinkState::Connecting);
    assert!(world.is_empty());
}

#[test]
fn event_handle_is_reported() {
    assert_eq!(NetworkEvent::Connected(4).handle(), 4);
    assert_eq!(NetworkEvent::Disconnected(5).handle(), 5);
    assert_eq!(NetworkEvent::Packet(6, vec![1]).handle(), 6);
    assert_eq!(NetworkEvent::Error(7).handle(), 7);
}
