use octos_app::connection::{
    connection_change, make_session_key, reply_dropped_text, rpc_error_text, rpc_method_error_text,
    transport_unavailable_text, ConnectionEvent, ConnectionState, ToastKind,
};

#[test]
fn session_keys() {
    assert_eq!(make_session_key(true, "octos", 0x65a1b2c3, 7), "octos:api:65a1b2c3-00000007");
    assert_eq!(make_session_key(false, "octos", 255, 0x1_0000_002a), "octos-app:000000ff-0000002a");
    assert_eq!(
        make_session_key(false, "x", 0x1_2345_6789, 0),
        format!("octos-app:{:08x}-{:08x}", 0x1_2345_6789u64, 0u32)
    );
}

#[test]
fn connection_changes() {
    assert!(connection_change(ConnectionState::Live, ConnectionState::Live).is_none());
    let (ev, t) = connection_change(ConnectionState::Dialing, ConnectionState::Live).unwrap();
    assert_eq!(ev, ConnectionEvent::Connected);
    let t = t.unwrap();
    assert_eq!((t.kind, t.text.as_str()), (ToastKind::ReconnectSuccess, "Connected"));
    let (ev, t) = connection_change(ConnectionState::Live, ConnectionState::Reconnecting { attempt: 3 }).unwrap();
    assert_eq!(ev, ConnectionEvent::Reconnecting);
    assert_eq!(t.unwrap().text, "Reconnecting (attempt 3)");
    let (_, t) = connection_change(ConnectionState::Reconnecting { attempt: 3 }, ConnectionState::Live).unwrap();
    assert_eq!(t.unwrap().text, "Reconnected");
    let (ev, t) = connection_change(ConnectionState::Live, ConnectionState::Failed).unwrap();
    assert_eq!(ev, ConnectionEvent::Offline);
    assert_eq!(t.unwrap().kind, ToastKind::Error);
    let (ev, t) = connection_change(ConnectionState::Idle, ConnectionState::Dialing).unwrap();
    assert_eq!(ev, ConnectionEvent::Offline);
    assert!(t.is_none());
}

#[test]
fn rpc_error_texts() {
    assert_eq!(rpc_error_text("not pending", -32011), "not pending (-32011)");
    assert_eq!(rpc_method_error_text("session/open", "denied", 403), "session/open: denied (403)");
    assert_eq!(transport_unavailable_text(), "transport unavailable");
    assert_eq!(reply_dropped_text(), "transport dropped the reply channel");
}

#[test]
fn connection_indicator_labels() {
    assert_eq!(ConnectionEvent::Connected.indicator(), ("Live", "#x4FCB6E"));
    assert_eq!(ConnectionEvent::Reconnecting.indicator(), ("Reconnecting", "#xF6BE63"));
    assert_eq!(ConnectionEvent::Offline.indicator(), ("Offline", "#xE36363"));
}
