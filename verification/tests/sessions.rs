use hal1210::client::com::{
    ClientConn, ClientConnEvent, ClientConnEventData, ComAction, ComEvent, ComMan, ConnAction,
    ConnEvent,
};
use hal1210::client::session::{ClientSessions, DisconnectOutcome, ManualTransition};
use hal1210::client::{pack_addr, ClientReqData, ServerRes};
use hal1210::daemoncomm::client::{prepare, sent};
use hal1210::daemoncomm::{MessageToClient, MessageToClientData, MessageToServerData};

fn only(mut actions: Vec<ComAction>) -> ComAction {
    assert_eq!(actions.len(), 1);
    actions.remove(0)
}

#[test]
fn tcp_command_roundtrip() {
    let mut manager = ComMan::new();
    let peer = pack_addr([127, 0, 0, 1], 40_000);
    let conn = match only(manager.step(ComEvent::Accepted(peer))) {
        ComAction::Serve(addr) => ClientConn::new(addr),
        other => panic!("unexpected action: {other:?}"),
    };

    let request = prepare(MessageToServerData::SetManualMode { enabled: true });
    let request_id = sent(&request, true).expect("failed to send manual mode command");

    let event = match conn.step(ConnEvent::Incoming(request)) {
        ConnAction::Report(event) => event,
        other => panic!("unexpected action: {other:?}"),
    };
    let client_req = match only(manager.step(ComEvent::Client(event))) {
        ComAction::Forward(req) => req,
        other => panic!("unexpected action: {other:?}"),
    };

    let addr = client_req.addr;
    let message = match client_req.data {
        ClientReqData::Message(message) => message,
        other => panic!("unexpected client manager event: {other:?}"),
    };

    assert_eq!(message.id, request_id, "client manager rewrote message id");
    match message.data {
        MessageToServerData::SetManualMode { enabled } => {
            assert!(enabled, "manual mode request should enable manual mode");
        }
        other => panic!("unexpected message payload forwarded to bridge: {other:?}"),
    }

    let reply = MessageToClient {
        id: request_id,
        data: MessageToClientData::ManualMode { enabled: true },
    };
    let delivered = match only(manager.step(ComEvent::Response(ServerRes::new(addr, reply)))) {
        ComAction::Deliver(res) => res,
        other => panic!("unexpected action: {other:?}"),
    };
    assert_eq!(delivered.addr, peer);
    let response = match conn.step(ConnEvent::Outgoing(delivered.msg)) {
        ConnAction::Write(msg) => msg,
        other => panic!("unexpected action: {other:?}"),
    };

    assert_eq!(response.id, request_id, "response id should match request");
    match response.data {
        MessageToClientData::ManualMode { enabled } => {
            assert!(enabled, "manual mode response should report enabled");
        }
        other => panic!("unexpected client response payload: {other:?}"),
    }

    let event = match conn.step(ConnEvent::Closed) {
        ConnAction::ReportAndStop(event) => event,
        other => panic!("unexpected action: {other:?}"),
    };
    let actions = manager.step(ComEvent::Client(event));
    assert_eq!(actions.len(), 2);
    let disconnect = match &actions[0] {
        ComAction::Forward(req) => req,
        other => panic!("unexpected action: {other:?}"),
    };
    assert!(
        matches!(disconnect.data, ClientReqData::Disconnected),
        "expected disconnect event, got {:?}",
        disconnect.data
    );
    assert!(matches!(actions[1], ComAction::Drop(addr) if addr == peer));
}

#[test]
fn answers_to_absent_clients_are_dropped() {
    let mut manager = ComMan::new();
    let reply = MessageToClient { id: 1, data: MessageToClientData::Ack };
    assert!(manager.step(ComEvent::Response(ServerRes::new(9, reply))).is_empty());
    assert!(manager.step(ComEvent::AcceptFailed).is_empty());
    let gone = ClientConnEvent { addr: 9, data: ClientConnEventData::Disconnect };
    match only(manager.step(ComEvent::Client(gone))) {
        ComAction::Forward(req) => {
            assert_eq!(req.addr, 9);
            assert!(matches!(req.data, ClientReqData::Disconnected));
        }
        other => panic!("unexpected action: {other:?}"),
    }
}

#[test]
fn cancelling_drains_every_connection() {
    let mut manager = ComMan::new();
    manager.step(ComEvent::Accepted(3));
    manager.step(ComEvent::Accepted(5));
    match only(manager.step(ComEvent::Cancelled)) {
        ComAction::Drain(mut addrs) => {
            addrs.sort();
            assert_eq!(addrs, vec![3, 5]);
        }
        other => panic!("unexpected action: {other:?}"),
    }
    match only(manager.step(ComEvent::Cancelled)) {
        ComAction::Drain(addrs) => assert!(addrs.is_empty()),
        other => panic!("unexpected action: {other:?}"),
    }
}

#[test]
fn connection_survives_bad_messages() {
    let conn = ClientConn::new(4);
    assert!(matches!(conn.step(ConnEvent::DecodeError), ConnAction::Continue));
    assert!(matches!(conn.step(ConnEvent::Cancelled), ConnAction::Stop));
}

#[test]
fn addresses_stay_apart() {
    assert_eq!(pack_addr([127, 0, 0, 1], 1210), 0x7f00_0001_04ba);
    assert_ne!(pack_addr([127, 0, 0, 1], 1), pack_addr([127, 0, 0, 1], 2));
    assert_ne!(pack_addr([127, 0, 0, 1], 1), pack_addr([127, 0, 0, 2], 1));
}

#[test]
fn last_client_takes_manual_mode_along() {
    let mut sessions = ClientSessions::new();
    assert!(sessions.register(1));
    assert!(sessions.register(2));
    assert!(!sessions.register(1));
    assert_eq!(sessions.client_count(), 2);
    assert_eq!(sessions.set_manual_enabled(true), ManualTransition::Changed(true));
    assert_eq!(sessions.set_manual_enabled(true), ManualTransition::Unchanged(true));
    assert_eq!(sessions.remove(1), DisconnectOutcome::Removed);
    assert!(sessions.manual_enabled());
    assert_eq!(sessions.iter(), vec![2]);
    assert_eq!(sessions.remove(2), DisconnectOutcome::ManualDisabled);
    assert!(!sessions.manual_enabled());
    assert_eq!(sessions.remove(2), DisconnectOutcome::Unknown);
    assert!(sessions.register(3));
    assert_eq!(sessions.remove(3), DisconnectOutcome::Removed);
}

#[test]
fn transitions_tell_what_holds_now() {
    assert!(ManualTransition::Changed(true).changed());
    assert!(ManualTransition::Changed(true).enabled());
    assert!(!ManualTransition::Unchanged(false).changed());
    assert!(!ManualTransition::Unchanged(false).enabled());
}
