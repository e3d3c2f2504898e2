use syncer::channel::ChannelState;
use syncer::trust_store::FileTrustStore;
use syncer::facade::{
    devices_json, facade_error_to_code, transport_error_to_code, FacadeError, Incoming, SyncEngine,
};
use syncer::message::{TransportErrorCode, TransportMessage};
use syncer::model::{ClipboardEvent, ClipboardPayload, DeviceId, EventVersion, PeerDevice, SessionStatus, TrustStoreError};
use syncer::text::{decimal_string, json_escape};

fn update(id: &str, device: &str, version: u64, content: &str) -> TransportMessage {
    TransportMessage::ClipboardUpdate(ClipboardEvent {
        event_id: id.into(),
        source_device: DeviceId(device.into()),
        version: EventVersion(version),
        payload: ClipboardPayload { content: content.into() },
        timestamp_ms: 0,
    })
}

#[test]
fn error_codes() {
    assert_eq!(transport_error_to_code(TransportErrorCode::InvalidPairingCode), 1);
    assert_eq!(transport_error_to_code(TransportErrorCode::InvalidMessageField), 10);
    assert_eq!(facade_error_to_code(FacadeError::Transport(TransportErrorCode::NotPaired)), -104);
    assert_eq!(facade_error_to_code(FacadeError::Transport(TransportErrorCode::DecodeFailed)), -109);
    assert_eq!(facade_error_to_code(FacadeError::TrustStore(TrustStoreError::Io("x".into()))), -200);
    assert_eq!(facade_error_to_code(FacadeError::from(TransportErrorCode::SendFailed)), -107);
    assert_eq!(facade_error_to_code(FacadeError::from(TrustStoreError::Parse("x".into()))), -200);
}

#[test]
fn json_helpers() {
    assert_eq!(json_escape("a\"b\\c\nd\re\tf"), "a\\\"b\\\\c\\nd\\re\\tf");
    assert_eq!(decimal_string(0), "0");
    assert_eq!(decimal_string(1234567890123456789), "1234567890123456789");
    let devices = vec![
        PeerDevice { id: DeviceId("a".into()), display_name: "A \"one\"".into() },
        PeerDevice { id: DeviceId("b".into()), display_name: "B".into() },
    ];
    assert_eq!(devices_json(&devices), "[{\"id\":\"a\",\"name\":\"A \\\"one\\\"\"},{\"id\":\"b\",\"name\":\"B\"}]");
    assert_eq!(devices_json(&[]), "[]");
}

#[test]
fn untrusted_update_is_dropped_and_recorded() {
    let mut engine = SyncEngine::new("right".into());
    let out = engine.handle_incoming(update("left-1", "left", 1, "hi"));
    assert!(matches!(out, Incoming::Ignored));
    assert_eq!(engine.current_clipboard_content(), "");
    assert_eq!(engine.record_count(), 1);
    let json = engine.sync_records_json(10);
    assert!(json.contains("\"result\":\"dropped\""));
    assert!(json.contains("\"direction\":\"inbound\""));
    assert!(json.contains("\"content_len\":2"));
}

#[test]
fn trusted_update_is_applied_once_and_acknowledged() {
    let mut engine = SyncEngine::new("right".into());
    engine.register_trusted_device(PeerDevice { id: DeviceId("left".into()), display_name: "Left".into() });
    let out = engine.handle_incoming(update("left-1", "left", 1, "hello-syncer"));
    let Incoming::Applied { ack, event_id, device_id } = out else { panic!("expected applied") };
    assert!(matches!(ack, TransportMessage::Ack { ref event_id } if event_id == "left-1"));
    assert_eq!(engine.current_clipboard_content(), "hello-syncer");
    engine.record_inbound_applied(event_id, device_id);
    assert!(engine.sync_records_json(10).contains("\"result\":\"success\""));
    let again = engine.handle_incoming(update("left-1", "left", 1, "hello-syncer"));
    assert!(matches!(again, Incoming::Ignored));
    assert_eq!(engine.record_count(), 1);
}

#[test]
fn ack_is_remembered() {
    let mut engine = SyncEngine::new("left".into());
    assert!(engine.last_ack_event_id().is_none());
    let out = engine.handle_incoming(TransportMessage::Ack { event_id: "left-1".into() });
    assert!(matches!(out, Incoming::Acknowledged));
    assert_eq!(engine.last_ack_event_id().as_deref(), Some("left-1"));
    assert!(matches!(engine.handle_incoming(TransportMessage::Heartbeat), Incoming::Ignored));
}

#[test]
fn local_sync_and_reports() {
    let mut engine = SyncEngine::new("left".into());
    engine.start();
    assert_eq!(engine.status(), SessionStatus::Running);
    engine.set_local_clipboard_content("hello");
    let event = engine.prepare_local_sync();
    assert_eq!(event.event_id, "left-1");
    assert_eq!(event.payload.content, "hello");
    engine.record_outbound(&event);
    let second = engine.prepare_local_sync();
    engine.record_outbound(&second);
    let json = engine.sync_records_json(1);
    assert!(json.starts_with("[{\"event_id\":\"left-2\",\"device_id\":\"left\",\"direction\":\"outbound\",\"result\":\"success\",\"content_len\":5,\"timestamp_ms\":"));
    assert_eq!(json.matches("event_id").count(), 1);
    assert_eq!(engine.sync_records_json(0), "[]");
    assert_eq!(engine.sync_records_json(10).matches("event_id").count(), 2);
    assert_eq!(
        engine.snapshot_json(false, 3),
        "{\"status\":\"running\",\"paired\":false,\"trusted_count\":0,\"discovered_count\":3,\"last_ack_event_id\":null,\"record_count\":2}"
    );
}

#[test]
fn snapshot_with_ack_and_trusted_devices() {
    let mut engine = SyncEngine::new("left".into());
    engine.register_trusted_device(PeerDevice { id: DeviceId("r".into()), display_name: "R".into() });
    engine.handle_incoming(TransportMessage::Ack { event_id: "a\"b".into() });
    assert_eq!(
        engine.snapshot_json(true, 0),
        "{\"status\":\"idle\",\"paired\":true,\"trusted_count\":1,\"discovered_count\":0,\"last_ack_event_id\":\"a\\\"b\",\"record_count\":0}"
    );
    assert_eq!(engine.trusted_devices_json(), "[{\"id\":\"r\",\"name\":\"R\"}]");
    engine.revoke_trusted_device(&DeviceId("r".into()));
    assert_eq!(engine.trusted_devices_json(), "[]");
}

#[test]
fn engines_complete_sync_with_ack() {
    let pair = |code: &str| {
        let mut channel = ChannelState::new();
        channel.begin_pairing(code).expect("code");
        channel.confirm_pairing(code);
        channel
    };
    let left_channel = pair("123456");
    let right_channel = pair("123456");
    let mut left = SyncEngine::new("left".into());
    let mut right = SyncEngine::new("right".into());
    left.start();
    right.start();
    left.register_trusted_device(PeerDevice { id: DeviceId("right".into()), display_name: "Right".into() });
    right.register_trusted_device(PeerDevice { id: DeviceId("left".into()), display_name: "Left".into() });

    left.set_local_clipboard_content("hello-syncer");
    let event = left.prepare_local_sync();
    let frame = left_channel.seal(&TransportMessage::ClipboardUpdate(event.clone())).expect("seal");
    left.record_outbound(&event);

    let received = right_channel.open(&frame).expect("open");
    let Incoming::Applied { ack, event_id, device_id } = right.handle_incoming(received) else {
        panic!("expected the update to apply");
    };
    let ack_frame = right_channel.seal(&ack).expect("seal ack");
    right.record_inbound_applied(event_id, device_id);

    let ack = left_channel.open(&ack_frame).expect("open ack");
    assert!(matches!(left.handle_incoming(ack), Incoming::Acknowledged));

    assert_eq!(right.current_clipboard_content(), "hello-syncer");
    assert!(left.last_ack_event_id().is_some());
    assert!(left.sync_records_json(10).contains("outbound"));
    assert!(right.sync_records_json(10).contains("inbound"));
    assert!(right.snapshot_json(true, 0).contains("\"status\":\"running\""));
}

#[test]
fn persists_and_revokes_trusted_device() {
    let mut store = FileTrustStore::new("trust.db".into());
    let contents = store.upsert(PeerDevice { id: DeviceId("remote-2".into()), display_name: "Tablet".into() });

    let mut recovered = FileTrustStore::new("trust.db".into());
    recovered.load_contents(&contents).expect("load");
    let mut engine = SyncEngine::new("local".into());
    engine.trust_devices(&recovered.devices());
    assert_eq!(engine.trusted_devices().len(), 1);
    let id = DeviceId("remote-2".into());
    engine.revoke_trusted_device(&id);
    let (removed, contents) = recovered.remove(&id);
    assert!(removed);
    assert!(engine.trusted_devices().is_empty());

    let mut reloaded = FileTrustStore::new("trust.db".into());
    reloaded.load_contents(&contents).expect("reload");
    assert!(reloaded.devices().is_empty());
}

#[test]
fn trust_devices_later_entries_win() {
    let mut engine = SyncEngine::new("local".into());
    engine.register_trusted_device(PeerDevice { id: DeviceId("a".into()), display_name: "A0".into() });
    engine.trust_devices(&[
        PeerDevice { id: DeviceId("a".into()), display_name: "A1".into() },
        PeerDevice { id: DeviceId("b".into()), display_name: "B".into() },
        PeerDevice { id: DeviceId("b".into()), display_name: "B2".into() },
    ]);
    let mut devices = engine.trusted_devices();
    devices.sort_by(|x, y| x.id.0.cmp(&y.id.0));
    assert_eq!(devices.len(), 2);
    assert_eq!(devices[0].display_name, "A1");
    assert_eq!(devices[1].display_name, "B2");
}

#[test]
fn failed_trust_write_withdraws_trust() {
    let mut engine = SyncEngine::new("local".into());
    let peer = PeerDevice { id: DeviceId("peer".into()), display_name: "Peer".into() };
    engine.register_trusted_device(peer.clone());
    assert!(engine.settle_trust(&peer.id, Ok(())).is_ok());
    assert_eq!(engine.trusted_devices().len(), 1);
    let res = engine.settle_trust(&peer.id, Err(TrustStoreError::Io("disk full".into())));
    assert!(matches!(res, Err(FacadeError::TrustStore(TrustStoreError::Io(_)))));
    assert!(engine.trusted_devices().is_empty());
}
