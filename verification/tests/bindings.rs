use hal1210::bindings::{
    listener_step, next_message, send_json, sent_text, traces, BindingError, ListenerEvent,
    ListenerStep, Listeners, Received,
};
use hal1210::daemoncomm::client::ClientError;
use hal1210::daemoncomm::{
    MessageToClient, MessageToClientData, MessageToServer, MessageToServerData,
};

#[test]
fn lost_messages_read_as_none() {
    let message = MessageToClient { id: 8, data: MessageToClientData::Ack };
    assert_eq!(next_message(Received::Message(message)).unwrap().id, 8);
    assert!(next_message(Received::Lagged).is_none());
    assert!(next_message(Received::Closed).is_none());
}

#[test]
fn listener_outlives_a_lag_only() {
    assert_eq!(listener_step(ListenerEvent::Message { taken: true }), ListenerStep::Continue);
    assert_eq!(listener_step(ListenerEvent::Lagged), ListenerStep::Continue);
    assert_eq!(listener_step(ListenerEvent::Message { taken: false }), ListenerStep::Stop);
    assert_eq!(listener_step(ListenerEvent::Unserializable), ListenerStep::ReportAndStop);
    assert_eq!(listener_step(ListenerEvent::Closed), ListenerStep::Stop);
    assert_eq!(listener_step(ListenerEvent::Cancelled), ListenerStep::Stop);
}

#[test]
fn stopping_forgets_the_listeners() {
    let mut listeners = Listeners::new();
    listeners.started(4);
    listeners.started(9);
    assert_eq!(listeners.stop_all_listeners(), vec![4, 9]);
    assert!(listeners.stop_all_listeners().is_empty());
}

#[test]
fn requests_from_text_get_an_id() {
    let message = send_json(Ok(MessageToServerData::GetManualMode)).unwrap();
    assert!(matches!(message.data, MessageToServerData::GetManualMode));
    let text = sent_text(&message, true).unwrap();
    assert_eq!(text, uuid::Uuid::from_u128(message.id).to_string());
    let error = send_json(Err("expected value".to_string())).unwrap_err();
    assert_eq!(error.message(""), "expected value");
}

#[test]
fn ids_are_shown_with_hyphens() {
    let message = MessageToServer {
        id: 0x0123_4567_89ab_cdef_0011_2233_4455_6677,
        data: MessageToServerData::GetManualMode,
    };
    assert_eq!(
        sent_text(&message, true).unwrap(),
        "01234567-89ab-cdef-0011-223344556677"
    );
    let error = sent_text(&message, false).unwrap_err();
    assert!(matches!(error, BindingError::Client(ClientError::ConnectionClosed)));
    assert_eq!(error.message("connection closed"), "connection closed");
    assert_eq!(BindingError::NotConnected.message(""), "client not connected");
}

#[test]
fn tracing_is_asked_for() {
    assert!(traces(Some(true)));
    assert!(!traces(Some(false)));
    assert!(!traces(None));
}
