use syncer::model::{ClipboardEvent, ClipboardPayload, DeviceId, EventVersion, PeerDevice, SessionStatus};
use syncer::session::SyncSession;

fn remote_event(id: &str, device: &str, version: u64) -> ClipboardEvent {
    ClipboardEvent {
        event_id: id.to_string(),
        source_device: DeviceId(device.to_string()),
        version: EventVersion(version),
        payload: ClipboardPayload { content: "new".to_string() },
        timestamp_ms: 0,
    }
}

#[test]
fn rejects_duplicate_event() {
    let mut session = SyncSession::new(DeviceId("local-a".into()));
    let event = session.next_local_event(ClipboardPayload {
        content: "hello".into(),
    });
    assert!(!session.should_apply_remote_event(&event));
}

#[test]
fn accepts_newer_remote_event() {
    let mut session = SyncSession::new(DeviceId("local-a".into()));
    let remote = ClipboardEvent {
        event_id: "remote-1".into(),
        source_device: DeviceId("remote".into()),
        version: EventVersion(1),
        payload: ClipboardPayload {
            content: "new".into(),
        },
        timestamp_ms: 0,
    };
    assert!(session.should_apply_remote_event(&remote));
}

#[test]
fn local_events_are_numbered_from_one() {
    let mut session = SyncSession::new(DeviceId("local-a".into()));
    assert_eq!(session.next_local_version(), 1);
    let first = session.next_local_event(ClipboardPayload { content: "x".into() });
    let second = session.next_local_event_at(ClipboardPayload { content: "y".into() }, 42);
    assert_eq!(first.event_id, "local-a-1");
    assert_eq!(first.version, EventVersion(1));
    assert_eq!(first.source_device.0, "local-a");
    assert_eq!(first.payload.content, "x");
    assert_eq!(second.event_id, "local-a-2");
    assert_eq!(second.version, EventVersion(2));
    assert_eq!(second.timestamp_ms, 42);
    assert_eq!(session.next_local_version(), 3);
}

#[test]
fn event_id_uses_decimal_version() {
    let mut session = SyncSession::new(DeviceId("dev".into()));
    let mut last = String::new();
    for _ in 0..10 {
        last = session.next_local_event_at(ClipboardPayload { content: String::new() }, 0).event_id;
    }
    assert_eq!(last, "dev-10");
}

#[test]
fn same_remote_event_applies_once() {
    let mut session = SyncSession::new(DeviceId("local-a".into()));
    let remote = remote_event("remote-1", "remote", 1);
    assert!(session.should_apply_remote_event(&remote));
    assert!(!session.should_apply_remote_event(&remote));
}

#[test]
fn stale_remote_event_is_dropped() {
    let mut session = SyncSession::new(DeviceId("local-a".into()));
    assert!(session.should_apply_remote_event(&remote_event("r-5", "remote", 5)));
    assert!(!session.should_apply_remote_event(&remote_event("r-4", "remote", 4)));
    assert!(!session.should_apply_remote_event(&remote_event("r-5b", "remote", 5)));
    assert!(session.should_apply_remote_event(&remote_event("r-6", "remote", 6)));
}

#[test]
fn version_zero_is_never_newer() {
    let mut session = SyncSession::new(DeviceId("local-a".into()));
    assert!(!session.should_apply_remote_event(&remote_event("r-0", "remote", 0)));
}

#[test]
fn versions_are_tracked_per_device() {
    let mut session = SyncSession::new(DeviceId("local-a".into()));
    assert!(session.should_apply_remote_event(&remote_event("a-3", "a", 3)));
    assert!(session.should_apply_remote_event(&remote_event("b-1", "b", 1)));
}

#[test]
fn session_starts_idle_and_runs_after_start() {
    let mut session = SyncSession::new(DeviceId("local".into()));
    assert_eq!(session.status(), SessionStatus::Idle);
    session.start();
    assert_eq!(session.status(), SessionStatus::Running);
}

#[test]
fn trust_register_replace_and_revoke() {
    let mut session = SyncSession::new(DeviceId("local".into()));
    let id = DeviceId("remote-1".into());
    assert!(!session.is_trusted_device(&id));
    session.register_trusted_device(PeerDevice { id: id.clone(), display_name: "Phone".into() });
    session.register_trusted_device(PeerDevice { id: id.clone(), display_name: "New phone".into() });
    assert!(session.is_trusted_device(&id));
    let devices = session.trusted_devices();
    assert_eq!(devices.len(), 1);
    assert_eq!(devices[0].display_name, "New phone");
    session.revoke_trusted_device(&id);
    assert!(!session.is_trusted_device(&id));
    assert!(session.trusted_devices().is_empty());
}

#[test]
fn own_older_events_are_never_applied_back() {
    let mut session = SyncSession::new(DeviceId("local".into()));
    let first = session.next_local_event(ClipboardPayload { content: "a".into() });
    let _second = session.next_local_event(ClipboardPayload { content: "b".into() });
    session.register_trusted_device(PeerDevice { id: DeviceId("peer".into()), display_name: "P".into() });
    let echo = ClipboardEvent { event_id: "other-id".into(), ..first };
    assert!(!session.should_apply_remote_event(&echo));
    assert_eq!(session.status(), SessionStatus::Idle);
    session.start();
    assert_eq!(session.status(), SessionStatus::Running);
}
