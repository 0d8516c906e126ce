use aviator5g::error::ErrorKind;
use aviator5g::registry::{ConnectionState, ServerState, SocketAddress};
use aviator5g::routing::{handle_connection, handle_control_message, handle_message, recipients, Frame};
use aviator5g::{
    id_from_str, ClientType, ControlMessage, ControlMessageAction, Id, IdentificationMessageData,
};

const PILOT: &str = "11111111-1111-1111-1111-111111111111";
const VEHICLE: &str = "22222222-2222-2222-2222-222222222222";
const OTHER_VEHICLE: &str = "33333333-3333-3333-3333-333333333333";
const GROUP_A: &str = "aaaaaaaa-aaaa-aaaa-aaaa-aaaaaaaaaaaa";
const GROUP_B: &str = "bbbbbbbb-bbbb-bbbb-bbbb-bbbbbbbbbbbb";
const CONTROL: &str = "{\"type\":\"control\",\"axes\":[0.5,-0.25,0,0]}";

fn address(port: u16) -> SocketAddress {
    SocketAddress::V4 { ip: 0x7f00_0001, port }
}

fn text(frame: &str) -> Frame {
    Frame::Text(frame.to_string())
}

fn identification(id: &str, group: &str, role: &str) -> Frame {
    text(&format!(
        "{{\"type\":\"identification\",\"id\":\"{}\",\"group_id\":\"{}\",\"client_type\":\"{}\"}}",
        id, group, role
    ))
}

fn join(state: &mut ServerState<u16>, port: u16, id: &str, group: &str, role: &str) {
    state.accept_connection(address(port), port);
    let targets = handle_connection(state, address(port), &identification(id, group, role)).unwrap();
    assert!(targets.is_empty());
}

fn pilot_and_vehicle() -> ServerState<u16> {
    let mut state = ServerState::new();
    join(&mut state, 1, PILOT, GROUP_A, "pilot");
    join(&mut state, 2, VEHICLE, GROUP_A, "vehicle");
    state
}

#[test]
fn control_reaches_the_vehicle_of_the_group() {
    let mut state = pilot_and_vehicle();
    let targets = handle_connection(&mut state, address(1), &text(CONTROL)).unwrap();
    assert_eq!(targets, vec![address(2)]);
}

#[test]
fn control_stays_out_of_other_groups() {
    let mut state = pilot_and_vehicle();
    join(&mut state, 3, OTHER_VEHICLE, GROUP_B, "vehicle");
    let targets = handle_connection(&mut state, address(1), &text(CONTROL)).unwrap();
    assert_eq!(targets, vec![address(2)]);
    let from_other = handle_connection(&mut state, address(3), &text(CONTROL)).unwrap();
    assert!(from_other.is_empty());
}

#[test]
fn latency_probe_and_answer_find_the_pilot() {
    let mut state = pilot_and_vehicle();
    join(&mut state, 3, OTHER_VEHICLE, GROUP_B, "vehicle");
    let request = text(&format!(
        "{{\"type\":\"latency_request\",\"initiator_id\":\"{}\",\"timestamp\":\"2021-06-01T12:00:00Z\"}}",
        PILOT
    ));
    let probed = handle_connection(&mut state, address(2), &request).unwrap();
    assert_eq!(probed, vec![address(1)]);
    let response = text(&format!(
        "{{\"type\":\"latency_response\",\"initiator_id\":\"{}\",\"responder_id\":\"{}\",\"timestamp\":\"2021-06-01T12:00:00Z\"}}",
        PILOT, VEHICLE
    ));
    let answered = handle_connection(&mut state, address(2), &response).unwrap();
    assert_eq!(answered, vec![address(1)]);
}

#[test]
fn latency_answer_crosses_groups_by_identifier() {
    let mut state = pilot_and_vehicle();
    join(&mut state, 3, OTHER_VEHICLE, GROUP_B, "vehicle");
    let response = text(&format!(
        "{{\"type\":\"latency_response\",\"initiator_id\":\"{}\",\"responder_id\":\"{}\",\"timestamp\":\"2021-06-01T12:00:00Z\"}}",
        PILOT, OTHER_VEHICLE
    ));
    let answered = handle_connection(&mut state, address(3), &response).unwrap();
    assert_eq!(answered, vec![address(1)]);
}

#[test]
fn latency_answer_to_nobody_is_dropped() {
    let mut state = pilot_and_vehicle();
    let response = text(&format!(
        "{{\"type\":\"latency_response\",\"initiator_id\":\"{}\",\"responder_id\":\"{}\",\"timestamp\":\"2021-06-01T12:00:00Z\"}}",
        OTHER_VEHICLE, VEHICLE
    ));
    let answered = handle_connection(&mut state, address(2), &response).unwrap();
    assert!(answered.is_empty());
}

#[test]
fn malformed_frame_ends_only_its_connection() {
    let mut state = pilot_and_vehicle();
    let error = handle_connection(&mut state, address(2), &text("{\"type\":\"control\"}")).unwrap_err();
    assert_eq!(error.kind(), ErrorKind::Malformed);
    assert_eq!(
        error.message(),
        "The control message is malformed: missing or invalid field `axes`"
    );
    assert_eq!(state.len(), 2);
    state.release_connection(&address(2));
    assert_eq!(state.len(), 1);
    assert!(state.connection_from_socket_address(address(1)).unwrap().is_identified());
    assert!(state.connection_from_socket_address(address(2)).is_none());
}

#[test]
fn control_before_identification_is_refused() {
    let mut state = pilot_and_vehicle();
    state.accept_connection(address(9), 9);
    let error = handle_connection(&mut state, address(9), &text(CONTROL)).unwrap_err();
    assert_eq!(error.kind(), ErrorKind::NotIdentified);
    assert!(!state.connection_from_socket_address(address(9)).unwrap().is_identified());
}

#[test]
fn latency_frames_before_identification_are_refused() {
    let mut state: ServerState<u16> = ServerState::new();
    state.accept_connection(address(9), 9);
    let response = text(&format!(
        "{{\"type\":\"latency_response\",\"initiator_id\":\"{}\",\"responder_id\":\"{}\",\"timestamp\":\"2021-06-01T12:00:00Z\"}}",
        PILOT, VEHICLE
    ));
    let error = handle_message(&mut state, address(9), &response).unwrap_err();
    assert_eq!(error.kind(), ErrorKind::NotIdentified);
}

#[test]
fn second_identification_is_refused_and_changes_nothing() {
    let mut state = pilot_and_vehicle();
    let again = identification(OTHER_VEHICLE, GROUP_B, "vehicle");
    let error = handle_connection(&mut state, address(1), &again).unwrap_err();
    assert_eq!(error.kind(), ErrorKind::AlreadyIdentified);
    assert_eq!(error.message(), "Client has already been identified");
    let record = state.connection_from_socket_address(address(1)).unwrap();
    assert_eq!(record.get_id(), Some(id_from_str(PILOT)));
    assert_eq!(record.get_group_id(), Some(id_from_str(GROUP_A)));
    assert_eq!(record.get_client_type(), Some(ClientType::Pilot));
}

#[test]
fn identification_sets_all_three_at_once() {
    let mut state: ServerState<u16> = ServerState::new();
    state.accept_connection(address(1), 1);
    let fresh = state.connection_from_socket_address(address(1)).unwrap();
    assert!(!fresh.is_identified());
    assert_eq!(fresh.get_identity(), None);
    assert_eq!(fresh.get_id(), None);
    assert_eq!(fresh.get_group_id(), None);
    assert_eq!(fresh.get_client_type(), None);
    let message = ControlMessage::Identification(IdentificationMessageData {
        id: Id(7),
        group_id: Id(8),
        client_type: ClientType::Vehicle,
    });
    let action = handle_control_message(&mut state, address(1), &message).unwrap();
    assert_eq!(action, ControlMessageAction::Drop);
    let record = state.connection_from_socket_address(address(1)).unwrap();
    assert!(record.is_identified());
    assert_eq!(record.get_id(), Some(Id(7)));
    assert_eq!(record.get_group_id(), Some(Id(8)));
    assert_eq!(record.get_client_type(), Some(ClientType::Vehicle));
    assert_eq!(*record.sender(), 1);
}

#[test]
fn frames_that_are_not_text_are_dropped() {
    let mut state: ServerState<u16> = ServerState::new();
    state.accept_connection(address(1), 1);
    for frame in [
        Frame::Binary(vec![1, 2, 3]),
        Frame::Ping(vec![]),
        Frame::Pong(vec![9]),
        Frame::Close,
    ] {
        let action = handle_message(&mut state, address(1), &frame).unwrap();
        assert_eq!(action, ControlMessageAction::Drop);
        assert!(handle_connection(&mut state, address(1), &frame).unwrap().is_empty());
    }
}

#[test]
fn actions_for_an_identified_sender() {
    let mut state = pilot_and_vehicle();
    let control = handle_message(&mut state, address(1), &text(CONTROL)).unwrap();
    assert_eq!(control, ControlMessageAction::ForwardAll);
    let response = text(&format!(
        "{{\"type\":\"latency_response\",\"initiator_id\":\"{}\",\"responder_id\":\"{}\",\"timestamp\":\"2021-06-01T12:00:00Z\"}}",
        PILOT, VEHICLE
    ));
    let single = handle_message(&mut state, address(2), &response).unwrap();
    assert_eq!(single, ControlMessageAction::ForwardSingle(id_from_str(PILOT)));
}

#[test]
fn fan_out_keeps_registry_order_and_skips_the_sender() {
    let mut state: ServerState<u16> = ServerState::new();
    join(&mut state, 5, VEHICLE, GROUP_A, "vehicle");
    join(&mut state, 1, PILOT, GROUP_A, "pilot");
    join(&mut state, 4, OTHER_VEHICLE, GROUP_A, "vehicle");
    join(&mut state, 3, "44444444-4444-4444-4444-444444444444", GROUP_A, "pilot");
    state.accept_connection(address(7), 7);
    let targets = recipients(&state, address(1), ControlMessageAction::ForwardAll);
    assert_eq!(targets, vec![address(5), address(4)]);
    let back = recipients(&state, address(4), ControlMessageAction::ForwardAll);
    assert_eq!(back, vec![address(1), address(3)]);
    assert!(recipients(&state, address(1), ControlMessageAction::Drop).is_empty());
}

#[test]
fn accepting_an_address_again_starts_it_afresh() {
    let mut state = pilot_and_vehicle();
    state.accept_connection(address(1), 100);
    assert_eq!(state.len(), 2);
    let record = state.connection_from_socket_address(address(1)).unwrap();
    assert!(!record.is_identified());
    assert_eq!(*record.sender(), 100);
    assert_eq!(state.index_of(address(1)), Some(0));
    assert_eq!(state.address_at(1), address(2));
}

#[test]
fn releasing_an_unknown_address_changes_nothing() {
    let mut state = pilot_and_vehicle();
    state.release_connection(&address(77));
    assert_eq!(state.len(), 2);
    state.release_connection(&address(1));
    assert_eq!(state.len(), 1);
    assert_eq!(state.index_of(address(2)), Some(0));
    assert_eq!(state.index_of(address(1)), None);
}

#[test]
fn lookup_by_identifier_takes_the_first_and_skips_the_unidentified() {
    let mut state: ServerState<u16> = ServerState::new();
    state.accept_connection(address(1), 1);
    join(&mut state, 2, PILOT, GROUP_A, "pilot");
    join(&mut state, 3, PILOT, GROUP_B, "pilot");
    assert_eq!(state.index_of_id(id_from_str(PILOT)), Some(1));
    assert_eq!(*state.connection_from_id(id_from_str(PILOT)).unwrap().sender(), 2);
    assert!(state.connection_from_id(id_from_str(VEHICLE)).is_none());
    assert_eq!(*state.connection_at(2).sender(), 3);
}

#[test]
fn addresses_of_both_families_are_told_apart() {
    let mut state: ServerState<u16> = ServerState::new();
    let four = SocketAddress::V4 { ip: 1, port: 9000 };
    let six = SocketAddress::V6 { ip: 1, port: 9000, flowinfo: 0, scope_id: 0 };
    state.accept_connection(four, 4);
    state.accept_connection(six, 6);
    assert_eq!(state.len(), 2);
    assert_eq!(*state.connection_from_socket_address(six).unwrap().sender(), 6);
}

#[test]
fn a_record_is_identified_by_hand() {
    let mut record = ConnectionState::new("queue");
    assert!(!record.is_identified());
    record.identify(Id(1), Id(2), ClientType::Pilot);
    assert!(record.is_identified());
    assert_eq!(record.get_group_id(), Some(Id(1)));
    assert_eq!(record.get_id(), Some(Id(2)));
    assert_eq!(*record.sender(), "queue");
}
