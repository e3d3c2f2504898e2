//! The synchronisation session: trusted devices, the numbering of local
//! clipboard events, and the decision whether a remote event is applied.
use vstd::hash_map::StringHashMap;
use vstd::hash_set::StringHashSet;
use vstd::prelude::*;

use crate::device_table::{ids_distinct, peer_map, peer_views, DeviceTable};
use crate::model::{
    ClipboardEvent, ClipboardPayload, DeviceId, EventVersion, EventView, PeerDevice,
    SessionStatus,
};
use crate::text::{decimal, push_decimal, push_str, string_push};

verus! {

/// The time elapsed since the Unix epoch in milliseconds, or zero when the
/// clock reads earlier than the epoch (`SystemTime::elapsed` on
/// `UNIX_EPOCH`).
///
/// Trusted: nothing is claimed of the value; it depends on the clock.
#[verifier::external_body]
pub(crate) fn now_ms() -> u128 {
    std::time::UNIX_EPOCH.elapsed().map(|d| d.as_millis()).unwrap_or_default()
}

/// The abstract state of a session.
pub struct SessionView {
    /// The identity of this device.
    pub local: Seq<char>,
    pub status: SessionStatus,
    /// Trusted devices: identity to display name.
    pub trusted: Map<Seq<char>, Seq<char>>,
    /// Identifiers of the events seen so far, local and remote.
    pub seen: Set<Seq<char>>,
    /// For each device, the highest version of its events seen so far.
    pub latest: Map<Seq<char>, u64>,
    /// The version the next local event gets.
    pub next_version: u64,
}

/// The identifier of a local event: the device identity, a hyphen and the
/// decimal version.
pub open spec fn local_event_id(local: Seq<char>, version: u64) -> Seq<char> {
    local + seq!['-'] + decimal(version as nat)
}

/// The latest version seen from `device`, zero when none was seen.
pub open spec fn latest_version(s: SessionView, device: Seq<char>) -> u64 {
    if s.latest.contains_key(device) {
        s.latest[device]
    } else {
        0
    }
}

/// Whether a remote event is to be applied: it has not been seen, and its
/// version is newer than the latest one seen from its device.
pub open spec fn accepts(s: SessionView, e: EventView) -> bool {
    &&& !s.seen.contains(e.event_id)
    &&& e.version > latest_version(s, e.source_device)
}

/// The state after an event has been taken into account: its identifier is
/// seen and its version is its device's latest.
pub open spec fn record_event(s: SessionView, e: EventView) -> SessionView {
    SessionView {
        seen: s.seen.insert(e.event_id),
        latest: s.latest.insert(e.source_device, e.version),
        ..s
    }
}

/// The local event that a session with state `s` issues for `content` at
/// time `timestamp_ms`.
pub open spec fn local_event(s: SessionView, content: Seq<char>, timestamp_ms: u128) -> EventView {
    EventView {
        event_id: local_event_id(s.local, s.next_version),
        source_device: s.local,
        version: s.next_version,
        content,
        timestamp_ms,
    }
}

/// The state of a new session of the device `local`: idle, nothing trusted
/// or seen, the first local event gets version 1.
pub open spec fn initial_session(local: Seq<char>) -> SessionView {
    SessionView {
        local,
        status: SessionStatus::Idle,
        trusted: Map::empty(),
        seen: Set::empty(),
        latest: Map::empty(),
        next_version: 1,
    }
}

/// An operation on a session, by what it hands the session.
pub enum SessionOp {
    /// `start`.
    Start,
    /// `register_trusted_device` with a device's identity and name.
    Register(Seq<char>, Seq<char>),
    /// `revoke_trusted_device` with an identity.
    Revoke(Seq<char>),
    /// `next_local_event` for some content at some time.
    IssueLocal(Seq<char>, u128),
    /// `should_apply_remote_event` with an event.
    Remote(EventView),
}

/// The state after one operation.
pub open spec fn session_step(s: SessionView, op: SessionOp) -> SessionView {
    match op {
        SessionOp::Start => SessionView { status: SessionStatus::Running, ..s },
        SessionOp::Register(id, name) => SessionView { trusted: s.trusted.insert(id, name), ..s },
        SessionOp::Revoke(id) => SessionView { trusted: s.trusted.remove(id), ..s },
        SessionOp::IssueLocal(content, timestamp_ms) => SessionView {
            next_version: (s.next_version + 1) as u64,
            ..record_event(s, local_event(s, content, timestamp_ms))
        },
        SessionOp::Remote(e) => if accepts(s, e) {
            record_event(s, e)
        } else {
            s
        },
    }
}

/// The state after a sequence of operations, in order.
pub open spec fn run_ops(s: SessionView, ops: Seq<SessionOp>) -> SessionView
    decreases ops.len(),
{
    if ops.len() == 0 {
        s
    } else {
        session_step(run_ops(s, ops.drop_last()), ops.last())
    }
}

/// The synchronisation session of one device.
pub struct SyncSession {
    local_device: DeviceId,
    status: SessionStatus,
    trusted_devices: DeviceTable,
    seen_events: StringHashSet,
    latest_version_by_device: StringHashMap<u64>,
    next_local_version: u64,
}

impl View for SyncSession {
    type V = SessionView;

    closed spec fn view(&self) -> SessionView {
        SessionView {
            local: self.local_device@,
            status: self.status,
            trusted: self.trusted_devices@,
            seen: self.seen_events@,
            latest: self.latest_version_by_device@,
            next_version: self.next_local_version,
        }
    }
}

impl SyncSession {
    /// A new idle session for `local_device`: nothing trusted or seen yet,
    /// the first local event gets version 1.
    pub fn new(local_device: DeviceId) -> (out: Self)
        ensures
            out@.local == local_device@,
            out@.status == SessionStatus::Idle,
            out@.trusted == Map::<Seq<char>, Seq<char>>::empty(),
            out@.seen == Set::<Seq<char>>::empty(),
            out@.latest == Map::<Seq<char>, u64>::empty(),
            out@.next_version == 1,
            out@ == initial_session(local_device@),
    {
        SyncSession {
            local_device,
            status: SessionStatus::Idle,
            trusted_devices: DeviceTable::new(),
            seen_events: StringHashSet::new(),
            latest_version_by_device: StringHashMap::new(),
            next_local_version: 1,
        }
    }

    /// Starts the session.
    pub fn start(&mut self)
        ensures
            final(self)@ == (SessionView { status: SessionStatus::Running, ..old(self)@ }),
            final(self)@ == session_step(old(self)@, SessionOp::Start),
    {
        self.status = SessionStatus::Running;
    }

    /// Whether the session has been started.
    pub fn status(&self) -> (out: SessionStatus)
        ensures
            out == self@.status,
    {
        self.status
    }

    /// The version that the next local event gets.
    pub fn next_local_version(&self) -> (out: u64)
        ensures
            out == self@.next_version,
    {
        self.next_local_version
    }

    /// Trusts `device`, replacing an earlier entry with the same identity.
    pub fn register_trusted_device(&mut self, device: PeerDevice)
        ensures
            final(self)@ == (SessionView {
                trusted: old(self)@.trusted.insert(device@.id, device@.name),
                ..old(self)@
            }),
            final(self)@ == session_step(old(self)@, SessionOp::Register(device@.id, device@.name)),
    {
        self.trusted_devices.insert(device);
    }

    /// Stops trusting the device with identity `device_id`.
    pub fn revoke_trusted_device(&mut self, device_id: &DeviceId)
        ensures
            final(self)@ == (SessionView {
                trusted: old(self)@.trusted.remove(device_id@),
                ..old(self)@
            }),
            final(self)@ == session_step(old(self)@, SessionOp::Revoke(device_id@)),
    {
        let _ = self.trusted_devices.remove(device_id);
    }

    /// The trusted devices, each once, in no particular order.
    pub fn trusted_devices(&self) -> (out: Vec<PeerDevice>)
        ensures
            ids_distinct(peer_views(out@)),
            peer_map(peer_views(out@)) == self@.trusted,
            out@.len() == self@.trusted.len(),
    {
        self.trusted_devices.devices()
    }

    /// Whether the device with identity `device_id` is trusted.
    pub fn is_trusted_device(&self, device_id: &DeviceId) -> (out: bool)
        ensures
            out == self@.trusted.contains_key(device_id@),
    {
        self.trusted_devices.contains(device_id)
    }

    /// Issues the next local clipboard event for `payload`, stamped with
    /// `timestamp_ms`, and records it as seen so that it is never applied
    /// back when it returns from the network.
    pub fn next_local_event_at(&mut self, payload: ClipboardPayload, timestamp_ms: u128) -> (event:
        ClipboardEvent)
        requires
            old(self)@.next_version < u64::MAX,
        ensures
            event@ == local_event(old(self)@, payload.content@, timestamp_ms),
            final(self)@ == (SessionView {
                next_version: (old(self)@.next_version + 1) as u64,
                ..record_event(old(self)@, event@)
            }),
            final(self)@ == session_step(
                old(self)@,
                SessionOp::IssueLocal(payload.content@, timestamp_ms),
            ),
    {
        let version = EventVersion(self.next_local_version);
        self.next_local_version = self.next_local_version + 1;
        let mut event_id = String::new();
        push_str(&mut event_id, self.local_device.0.as_str());
        string_push(&mut event_id, '-');
        push_decimal(&mut event_id, version.0 as u128);
        assert(event_id@ =~= local_event_id(old(self)@.local, old(self)@.next_version));
        let event = ClipboardEvent {
            event_id: event_id.clone(),
            source_device: self.local_device.clone(),
            version,
            payload,
            timestamp_ms,
        };
        self.seen_events.insert(event_id);
        self.latest_version_by_device.insert(self.local_device.0.clone(), version.0);
        event
    }

    /// Issues the next local clipboard event for `payload`, stamped with the
    /// current time (see `next_local_event_at`).
    pub fn next_local_event(&mut self, payload: ClipboardPayload) -> (event: ClipboardEvent)
        requires
            old(self)@.next_version < u64::MAX,
        ensures
            event@ == local_event(old(self)@, payload.content@, event@.timestamp_ms),
            final(self)@ == (SessionView {
                next_version: (old(self)@.next_version + 1) as u64,
                ..record_event(old(self)@, event@)
            }),
            final(self)@ == session_step(
                old(self)@,
                SessionOp::IssueLocal(payload.content@, event@.timestamp_ms),
            ),
    {
        let timestamp_ms = now_ms();
        self.next_local_event_at(payload, timestamp_ms)
    }

    /// Decides whether a remote event is applied: an event already seen or
    /// not newer than the latest one from its device is dropped and changes
    /// nothing; an accepted event is recorded.
    pub fn should_apply_remote_event(&mut self, event: &ClipboardEvent) -> (apply: bool)
        ensures
            apply == accepts(old(self)@, event@),
            apply ==> final(self)@ == record_event(old(self)@, event@),
            !apply ==> final(self)@ == old(self)@,
            final(self)@ == session_step(old(self)@, SessionOp::Remote(event@)),
    {
        if self.seen_events.contains(event.event_id.as_str()) {
            return false;
        }
        let current = match self.latest_version_by_device.get(event.source_device.0.as_str()) {
            Some(v) => *v,
            None => 0,
        };
        if event.version.0 <= current {
            return false;
        }
        self.seen_events.insert(event.event_id.clone());
        self.latest_version_by_device.insert(event.source_device.0.clone(), event.version.0);
        true
    }
}

/// A remote event is applied at most once: after it has been accepted, the
/// same event is refused.
pub proof fn lemma_accepted_event_is_not_applied_again(s: SessionView, e: EventView)
    ensures
        !accepts(record_event(s, e), e),
{
}

/// A device's own events are never applied back: after a local event is
/// issued, that event is refused when it comes back from the network.
pub proof fn lemma_local_event_not_applied_back(s: SessionView, content: Seq<char>, timestamp_ms: u128)
    ensures
        ({
            let e = local_event(s, content, timestamp_ms);
            !accepts(SessionView { next_version: (s.next_version + 1) as u64, ..record_event(s, e) }, e)
        }),
{
}

/// Accepting a remote event never lowers the latest version known for any
/// device, and raises that of the event's device to the event's version.
pub proof fn lemma_accept_keeps_versions_increasing(s: SessionView, e: EventView, device: Seq<char>)
    requires
        accepts(s, e),
    ensures
        latest_version(record_event(s, e), device) >= latest_version(s, device),
        latest_version(record_event(s, e), e.source_device) == e.version,
{
}

/// A stale event (not newer than the latest version seen from its device)
/// is refused, whatever its identifier.
pub proof fn lemma_stale_event_refused(s: SessionView, e: EventView)
    requires
        e.version <= latest_version(s, e.source_device),
    ensures
        !accepts(s, e),
{
}

/// The device itself and the versions of its own events: the session keeps
/// its device, and the latest version it knows from that device is never
/// below the last version it issued.
proof fn lemma_run_keeps_own_versions(local: Seq<char>, ops: Seq<SessionOp>)
    ensures
        run_ops(initial_session(local), ops).local == local,
        latest_version(run_ops(initial_session(local), ops), local) + 1 >= run_ops(
            initial_session(local),
            ops,
        ).next_version,
    decreases ops.len(),
{
    if ops.len() > 0 {
        lemma_run_keeps_own_versions(local, ops.drop_last());
    }
}

/// A session runs exactly when it has been started: after any sequence of
/// operations on a new session, its status is running if and only if one of
/// them was `start`; no operation brings a session back to idle.
pub proof fn lemma_running_iff_started(local: Seq<char>, ops: Seq<SessionOp>)
    ensures
        (run_ops(initial_session(local), ops).status == SessionStatus::Running) <==> exists|i: int|
            0 <= i < ops.len() && #[trigger] ops[i] == SessionOp::Start,
    decreases ops.len(),
{
    if ops.len() > 0 {
        let init = ops.drop_last();
        lemma_running_iff_started(local, init);
        if exists|i: int| 0 <= i < init.len() && #[trigger] init[i] == SessionOp::Start {
            let i = choose|i: int| 0 <= i < init.len() && #[trigger] init[i] == SessionOp::Start;
            assert(ops[i] == SessionOp::Start);
        }
        if exists|i: int| 0 <= i < ops.len() && #[trigger] ops[i] == SessionOp::Start {
            let i = choose|i: int| 0 <= i < ops.len() && #[trigger] ops[i] == SessionOp::Start;
            if i < init.len() {
                assert(init[i] == SessionOp::Start);
            }
        }
    }
}

/// A device's own events are never applied back: after any sequence of
/// operations on a new session, an event from this device whose version was
/// already issued is refused, whatever its identifier.
pub proof fn lemma_own_events_never_applied_back(local: Seq<char>, ops: Seq<SessionOp>, e: EventView)
    requires
        e.source_device == local,
        e.version < run_ops(initial_session(local), ops).next_version,
    ensures
        !accepts(run_ops(initial_session(local), ops), e),
{
    lemma_run_keeps_own_versions(local, ops);
}

} // verus!
