//! What a client of the library sees: error codes, the record of
//! synchronisations, the JSON reports, and the synchronisation engine that
//! decides what happens to local and remote clipboard events.
use vstd::prelude::*;
use vstd::std_specs::convert::FromSpecImpl;

use crate::channel::{opened_frame, sealed_frame};
use crate::clipboard::{ClipboardAdapter, MemoryClipboard};
use crate::device_table::{ids_distinct, peer_map, peer_views};
use crate::message::{byte_len, byte_length, field_check, MessageView, TransportErrorCode, TransportMessage};
use crate::model::{ClipboardEvent, DeviceId, PeerDevice, PeerView, SessionStatus, TrustStoreError};
use crate::session::{accepts, latest_version, local_event, now_ms, record_event, SessionView, SyncSession};
use crate::text::{decimal, json_escape, json_escaped, push_decimal, push_str, string_push};

verus! {

/// Why a facade operation failed.
#[derive(Debug)]
pub enum FacadeError {
    Transport(TransportErrorCode),
    TrustStore(TrustStoreError),
}

impl From<TransportErrorCode> for FacadeError {
    fn from(value: TransportErrorCode) -> (out: Self) {
        FacadeError::Transport(value)
    }
}

impl FromSpecImpl<TransportErrorCode> for FacadeError {
    open spec fn obeys_from_spec() -> bool {
        true
    }

    open spec fn from_spec(value: TransportErrorCode) -> Self {
        FacadeError::Transport(value)
    }
}

impl From<TrustStoreError> for FacadeError {
    fn from(value: TrustStoreError) -> (out: Self) {
        FacadeError::TrustStore(value)
    }
}

impl FromSpecImpl<TrustStoreError> for FacadeError {
    open spec fn obeys_from_spec() -> bool {
        true
    }

    open spec fn from_spec(value: TrustStoreError) -> Self {
        FacadeError::TrustStore(value)
    }
}

/// The number of a transport error, 1 to 10 in declaration order.
pub open spec fn transport_code(error: TransportErrorCode) -> i32 {
    match error {
        TransportErrorCode::InvalidPairingCode => 1,
        TransportErrorCode::BindFailed => 2,
        TransportErrorCode::ConnectFailed => 3,
        TransportErrorCode::NotPaired => 4,
        TransportErrorCode::HandshakeTimeout => 5,
        TransportErrorCode::HandshakeFailed => 6,
        TransportErrorCode::SendFailed => 7,
        TransportErrorCode::RecvFailed => 8,
        TransportErrorCode::DecodeFailed => 9,
        TransportErrorCode::InvalidMessageField => 10,
    }
}

/// The number of a transport error, 1 to 10 in declaration order.
pub fn transport_error_to_code(error: TransportErrorCode) -> (out: i32)
    ensures
        out == transport_code(error),
{
    match error {
        TransportErrorCode::InvalidPairingCode => 1,
        TransportErrorCode::BindFailed => 2,
        TransportErrorCode::ConnectFailed => 3,
        TransportErrorCode::NotPaired => 4,
        TransportErrorCode::HandshakeTimeout => 5,
        TransportErrorCode::HandshakeFailed => 6,
        TransportErrorCode::SendFailed => 7,
        TransportErrorCode::RecvFailed => 8,
        TransportErrorCode::DecodeFailed => 9,
        TransportErrorCode::InvalidMessageField => 10,
    }
}

/// The return code of a failed facade operation: `-100` minus the
/// transport error's number, or `-200` for a trust store error.
pub fn facade_error_to_code(error: FacadeError) -> (out: i32)
    ensures
        match error {
            FacadeError::Transport(c) => out == -100 - transport_code(c),
            FacadeError::TrustStore(_) => out == -200,
        },
{
    match error {
        FacadeError::Transport(code) => -100 - transport_error_to_code(code),
        FacadeError::TrustStore(_) => -200,
    }
}

/// Which way a synchronised event went.
#[derive(Debug, Clone, Copy, PartialEq, Eq, Structural)]
pub enum SyncRecordDirection {
    Outbound,
    Inbound,
}

/// What became of a synchronised event.
#[derive(Debug, Clone, Copy, PartialEq, Eq, Structural)]
pub enum SyncRecordResult {
    Success,
    Dropped,
}

/// One synchronised event, as the history records it.
#[derive(Debug)]
pub struct SyncRecord {
    pub event_id: String,
    pub device_id: String,
    pub direction: SyncRecordDirection,
    pub result: SyncRecordResult,
    /// Length of the clipboard content, in UTF-8 bytes.
    pub content_len: usize,
    pub timestamp_ms: u128,
}

/// The abstract value of a record.
pub struct RecordView {
    pub event_id: Seq<char>,
    pub device_id: Seq<char>,
    pub direction: SyncRecordDirection,
    pub result: SyncRecordResult,
    pub content_len: usize,
    pub timestamp_ms: u128,
}

impl View for SyncRecord {
    type V = RecordView;

    open spec fn view(&self) -> RecordView {
        RecordView {
            event_id: self.event_id@,
            device_id: self.device_id@,
            direction: self.direction,
            result: self.result,
            content_len: self.content_len,
            timestamp_ms: self.timestamp_ms,
        }
    }
}

/// Items separated by commas.
pub open spec fn comma_joined(items: Seq<Seq<char>>) -> Seq<char>
    decreases items.len(),
{
    if items.len() == 0 {
        Seq::empty()
    } else if items.len() == 1 {
        items[0]
    } else {
        comma_joined(items.drop_last()) + seq![','] + items.last()
    }
}

/// A JSON array of the given JSON values.
pub open spec fn json_array(items: Seq<Seq<char>>) -> Seq<char> {
    seq!['['] + comma_joined(items) + seq![']']
}

/// The JSON object of a device: `{"id":"…","name":"…"}`.
pub open spec fn device_json(p: PeerView) -> Seq<char> {
    "{\"id\":\""@ + json_escaped(p.id) + "\",\"name\":\""@ + json_escaped(p.name) + "\"}"@
}

/// The JSON array of devices, in their order.
pub open spec fn devices_json_spec(ps: Seq<PeerView>) -> Seq<char> {
    json_array(ps.map_values(|p: PeerView| device_json(p)))
}

/// The JSON word of a direction.
pub open spec fn direction_word(d: SyncRecordDirection) -> Seq<char> {
    match d {
        SyncRecordDirection::Outbound => "outbound"@,
        SyncRecordDirection::Inbound => "inbound"@,
    }
}

/// The JSON word of a result.
pub open spec fn result_word(r: SyncRecordResult) -> Seq<char> {
    match r {
        SyncRecordResult::Success => "success"@,
        SyncRecordResult::Dropped => "dropped"@,
    }
}

/// The JSON object of a record.
pub open spec fn record_json(r: RecordView) -> Seq<char> {
    "{\"event_id\":\""@ + json_escaped(r.event_id) + "\",\"device_id\":\""@ + json_escaped(
        r.device_id,
    ) + "\",\"direction\":\""@ + direction_word(r.direction) + "\",\"result\":\""@ + result_word(
        r.result,
    ) + "\",\"content_len\":"@ + decimal(r.content_len as nat) + ",\"timestamp_ms\":"@ + decimal(
        r.timestamp_ms as nat,
    ) + "}"@
}

/// Appends the JSON objects of `devices` to `out`, separated by commas.
fn push_device_items(out: &mut String, devices: &[PeerDevice])
    ensures
        final(out)@ == old(out)@ + comma_joined(
            peer_views(devices@).map_values(|p: PeerView| device_json(p)),
        ),
{
    let ghost items = peer_views(devices@).map_values(|p: PeerView| device_json(p));
    let ghost start = out@;
    let mut i: usize = 0;
    while i < devices.len()
        invariant
            i <= devices@.len(),
            items == peer_views(devices@).map_values(|p: PeerView| device_json(p)),
            items.len() == devices@.len(),
            out@ == start + comma_joined(items.take(i as int)),
        decreases devices@.len() - i,
    {
        assert(items.take(i as int + 1).drop_last() == items.take(i as int));
        assert(items[i as int] == device_json(devices@[i as int]@));
        if i > 0 {
            string_push(out, ',');
        }
        let ghost before = out@;
        push_str(out, "{\"id\":\"");
        let id = json_escape(devices[i].id.0.as_str());
        push_str(out, id.as_str());
        push_str(out, "\",\"name\":\"");
        let name = json_escape(devices[i].display_name.as_str());
        push_str(out, name.as_str());
        push_str(out, "\"}");
        proof {
            if i == 0 {
                assert(items.take(1) =~= seq![items[0]]);
                assert(out@ =~= start + comma_joined(items.take(1)));
            } else {
                assert(out@ =~= start + comma_joined(items.take(i as int + 1)));
            }
        }
        i = i + 1;
    }
    assert(items.take(devices@.len() as int) == items);
}

/// The JSON array of `devices`, in their order.
pub fn devices_json(devices: &[PeerDevice]) -> (out: String)
    ensures
        out@ == devices_json_spec(peer_views(devices@)),
{
    let mut out = String::new();
    string_push(&mut out, '[');
    push_device_items(&mut out, devices);
    string_push(&mut out, ']');
    assert(out@ =~= devices_json_spec(peer_views(devices@)));
    out
}


/// The records a report shows: the `limit` most recent, newest first.
pub open spec fn recent_records(records: Seq<RecordView>, limit: nat) -> Seq<RecordView> {
    let n = if limit < records.len() { limit } else { records.len() };
    Seq::new(n, |i: int| records[records.len() - 1 - i])
}

fn push_record_json(out: &mut String, r: &SyncRecord)
    ensures
        final(out)@ == old(out)@ + record_json(r@),
{
    push_str(out, "{\"event_id\":\"");
    let id = json_escape(r.event_id.as_str());
    push_str(out, id.as_str());
    push_str(out, "\",\"device_id\":\"");
    let dev = json_escape(r.device_id.as_str());
    push_str(out, dev.as_str());
    push_str(out, "\",\"direction\":\"");
    match r.direction {
        SyncRecordDirection::Outbound => push_str(out, "outbound"),
        SyncRecordDirection::Inbound => push_str(out, "inbound"),
    }
    push_str(out, "\",\"result\":\"");
    match r.result {
        SyncRecordResult::Success => push_str(out, "success"),
        SyncRecordResult::Dropped => push_str(out, "dropped"),
    }
    push_str(out, "\",\"content_len\":");
    push_decimal(out, r.content_len as u128);
    push_str(out, ",\"timestamp_ms\":");
    push_decimal(out, r.timestamp_ms);
    push_str(out, "}");
    assert(final(out)@ =~= old(out)@ + record_json(r@));
}

/// The JSON array of the `limit` most recent records, newest first.
pub fn records_json(records: &[SyncRecord], limit: usize) -> (out: String)
    ensures
        out@ == json_array(
            recent_records(records@.map_values(|r: SyncRecord| r@), limit as nat).map_values(
                |r: RecordView| record_json(r),
            ),
        ),
{
    let ghost all = records@.map_values(|r: SyncRecord| r@);
    let ghost items = recent_records(all, limit as nat).map_values(|r: RecordView| record_json(r));
    let len = records.len();
    let n = if limit < len { limit } else { len };
    let mut out = String::new();
    string_push(&mut out, '[');
    let ghost start = out@;
    let mut k: usize = 0;
    while k < n
        invariant
            n <= len,
            len == records@.len(),
            all == records@.map_values(|r: SyncRecord| r@),
            items == recent_records(all, limit as nat).map_values(|r: RecordView| record_json(r)),
            items.len() == n,
            k <= n,
            out@ == start + comma_joined(items.take(k as int)),
        decreases n - k,
    {
        assert(items.take(k as int + 1).drop_last() == items.take(k as int));
        assert(items[k as int] == record_json(records@[len - 1 - k]@));
        if k > 0 {
            string_push(&mut out, ',');
        }
        push_record_json(&mut out, &records[len - 1 - k]);
        proof {
            if k == 0 {
                assert(items.take(1) =~= seq![items[0]]);
                assert(out@ =~= start + comma_joined(items.take(1)));
            } else {
                assert(out@ =~= start + comma_joined(items.take(k as int + 1)));
            }
        }
        k = k + 1;
    }
    assert(items.take(n as int) == items);
    string_push(&mut out, ']');
    assert(out@ =~= json_array(items));
    out
}

/// The JSON summary of a facade's state.
pub open spec fn snapshot_json_spec(
    status: SessionStatus,
    paired: bool,
    trusted_count: nat,
    discovered_count: nat,
    last_ack: Option<Seq<char>>,
    record_count: nat,
) -> Seq<char> {
    "{\"status\":\""@ + (match status {
        SessionStatus::Idle => "idle"@,
        SessionStatus::Running => "running"@,
    }) + "\",\"paired\":"@ + (if paired {
        "true"@
    } else {
        "false"@
    }) + ",\"trusted_count\":"@ + decimal(trusted_count) + ",\"discovered_count\":"@ + decimal(
        discovered_count,
    ) + ",\"last_ack_event_id\":"@ + (match last_ack {
        Some(id) => seq!['"'] + json_escaped(id) + seq!['"'],
        None => "null"@,
    }) + ",\"record_count\":"@ + decimal(record_count) + "}"@
}

/// What the engine asks its caller to do after a received message.
pub enum Incoming {
    /// Nothing further; the poll found nothing to apply.
    Ignored,
    /// An acknowledgement was recorded.
    Acknowledged,
    /// A remote clipboard event was applied: `ack` is to be sent back, and
    /// once it is sent the application is recorded with `event_id` and
    /// `device_id`.
    Applied { ack: TransportMessage, event_id: String, device_id: String },
}

/// The abstract state of an engine.
pub struct EngineView {
    pub session: SessionView,
    /// The clipboard's text.
    pub clipboard: Seq<char>,
    /// The identifier of the last acknowledged local event.
    pub last_ack: Option<Seq<char>>,
    /// The history of synchronised events, oldest first.
    pub records: Seq<RecordView>,
}

/// The synchronisation state of a device: its session, its clipboard, the
/// last acknowledgement and the history of synchronised events.
pub struct SyncEngine {
    session: SyncSession,
    clipboard: MemoryClipboard,
    last_ack_event_id: Option<String>,
    sync_records: Vec<SyncRecord>,
}

impl View for SyncEngine {
    type V = EngineView;

    closed spec fn view(&self) -> EngineView {
        EngineView {
            session: self.session@,
            clipboard: self.clipboard.current_text(),
            last_ack: match self.last_ack_event_id {
                Some(s) => Some(s@),
                None => None,
            },
            records: self.sync_records@.map_values(|r: SyncRecord| r@),
        }
    }
}

impl SyncEngine {
    /// A new engine for the device `local_device_id`: idle session, empty
    /// clipboard, no acknowledgement, no history.
    pub fn new(local_device_id: String) -> (out: Self)
        ensures
            out@.session.local == local_device_id@,
            out@.session.status == SessionStatus::Idle,
            out@.session.trusted == Map::<Seq<char>, Seq<char>>::empty(),
            out@.session.seen == Set::<Seq<char>>::empty(),
            out@.session.latest == Map::<Seq<char>, u64>::empty(),
            out@.session.next_version == 1,
            out@.clipboard == Seq::<char>::empty(),
            out@.last_ack is None,
            out@.records == Seq::<RecordView>::empty(),
    {
        let out = SyncEngine {
            session: SyncSession::new(DeviceId(local_device_id)),
            clipboard: MemoryClipboard::new(),
            last_ack_event_id: None,
            sync_records: Vec::new(),
        };
        assert(out@.records =~= Seq::<RecordView>::empty());
        out
    }

    /// Starts the session.
    pub fn start(&mut self)
        ensures
            final(self)@ == (EngineView {
                session: SessionView { status: SessionStatus::Running, ..old(self)@.session },
                ..old(self)@
            }),
    {
        self.session.start();
    }

    /// Whether the session has been started.
    pub fn status(&self) -> (out: SessionStatus)
        ensures
            out == self@.session.status,
    {
        self.session.status()
    }

    /// The version the next local event gets.
    pub fn next_local_version(&self) -> (out: u64)
        ensures
            out == self@.session.next_version,
    {
        self.session.next_local_version()
    }

    /// Trusts `device`.
    pub fn register_trusted_device(&mut self, device: PeerDevice)
        ensures
            final(self)@ == (EngineView {
                session: SessionView {
                    trusted: old(self)@.session.trusted.insert(device@.id, device@.name),
                    ..old(self)@.session
                },
                ..old(self)@
            }),
    {
        self.session.register_trusted_device(device);
    }

    /// Trusts each of `devices`, as when the persisted trusted devices are
    /// restored at start-up; a later device replaces an earlier one with the
    /// same identity.
    pub fn trust_devices(&mut self, devices: &[PeerDevice])
        ensures
            final(self)@ == (EngineView {
                session: SessionView {
                    trusted: old(self)@.session.trusted.union_prefer_right(
                        peer_map(peer_views(devices@)),
                    ),
                    ..old(self)@.session
                },
                ..old(self)@
            }),
    {
        let ghost v = peer_views(devices@);
        let mut i: usize = 0;
        proof {
            assert(v.take(0) =~= Seq::<PeerView>::empty());
            assert(old(self)@.session.trusted.union_prefer_right(peer_map(v.take(0)))
                =~= old(self)@.session.trusted);
        }
        while i < devices.len()
            invariant
                i <= devices@.len(),
                v == peer_views(devices@),
                self@ == (EngineView {
                    session: SessionView {
                        trusted: old(self)@.session.trusted.union_prefer_right(
                            peer_map(v.take(i as int)),
                        ),
                        ..old(self)@.session
                    },
                    ..old(self)@
                }),
            decreases devices@.len() - i,
        {
            let device = devices[i].clone();
            self.session.register_trusted_device(device);
            proof {
                assert(v.take(i as int + 1).drop_last() =~= v.take(i as int));
                assert(v.take(i as int + 1).last() == v[i as int]);
                assert(old(self)@.session.trusted.union_prefer_right(peer_map(v.take(i as int + 1)))
                    =~= old(self)@.session.trusted.union_prefer_right(peer_map(v.take(i as int))).insert(
                    v[i as int].id,
                    v[i as int].name,
                ));
            }
            i = i + 1;
        }
        assert(v.take(devices@.len() as int) =~= v);
    }

    /// Stops trusting the device with identity `device_id`.
    pub fn revoke_trusted_device(&mut self, device_id: &DeviceId)
        ensures
            final(self)@ == (EngineView {
                session: SessionView {
                    trusted: old(self)@.session.trusted.remove(device_id@),
                    ..old(self)@.session
                },
                ..old(self)@
            }),
    {
        self.session.revoke_trusted_device(device_id);
    }

    /// Settles the trust of a device just paired once the attempt to
    /// persist it is known: a failed write withdraws the trust again and is
    /// reported as the trust store's error; a successful one changes
    /// nothing.
    pub fn settle_trust(&mut self, device_id: &DeviceId, persisted: Result<(), TrustStoreError>) -> (res:
        Result<(), FacadeError>)
        ensures
            match persisted {
                Ok(()) => res is Ok && final(self)@ == old(self)@,
                Err(e) => {
                    &&& res == Err::<(), FacadeError>(FacadeError::TrustStore(e))
                    &&& final(self)@ == (EngineView {
                        session: SessionView {
                            trusted: old(self)@.session.trusted.remove(device_id@),
                            ..old(self)@.session
                        },
                        ..old(self)@
                    })
                },
            },
    {
        match persisted {
            Ok(()) => Ok(()),
            Err(e) => {
                self.revoke_trusted_device(device_id);
                Err(FacadeError::from(e))
            },
        }
    }

    /// The trusted devices, each once, in no particular order.
    pub fn trusted_devices(&self) -> (out: Vec<PeerDevice>)
        ensures
            ids_distinct(peer_views(out@)),
            peer_map(peer_views(out@)) == self@.session.trusted,
            out@.len() == self@.session.trusted.len(),
    {
        self.session.trusted_devices()
    }

    /// The clipboard's text.
    pub fn current_clipboard_content(&self) -> (out: String)
        ensures
            out@ == self@.clipboard,
    {
        self.clipboard.read_current().content
    }

    /// Sets the clipboard's text on this device.
    pub fn set_local_clipboard_content(&mut self, content: &str)
        ensures
            final(self)@ == (EngineView { clipboard: content@, ..old(self)@ }),
    {
        self.clipboard.set_local_content(content);
    }

    /// The identifier of the last acknowledged local event.
    pub fn last_ack_event_id(&self) -> (out: Option<String>)
        ensures
            match out {
                Some(s) => self@.last_ack == Some(s@),
                None => self@.last_ack is None,
            },
    {
        match &self.last_ack_event_id {
            Some(s) => Some(s.clone()),
            None => None,
        }
    }

    /// Turns the clipboard's text into the next local event, to be sent to
    /// the paired device.
    pub fn prepare_local_sync(&mut self) -> (event: ClipboardEvent)
        requires
            old(self)@.session.next_version < u64::MAX,
        ensures
            event@ == crate::session::local_event(old(self)@.session, old(self)@.clipboard, event@.timestamp_ms),
            final(self)@ == (EngineView {
                session: SessionView {
                    next_version: (old(self)@.session.next_version + 1) as u64,
                    ..record_event(old(self)@.session, event@)
                },
                ..old(self)@
            }),
    {
        let payload = self.clipboard.read_current();
        self.session.next_local_event(payload)
    }

    /// Records that `event` was sent.
    pub fn record_outbound(&mut self, event: &ClipboardEvent)
        ensures
            final(self)@.session == old(self)@.session,
            final(self)@.clipboard == old(self)@.clipboard,
            final(self)@.last_ack == old(self)@.last_ack,
            final(self)@.records.len() == old(self)@.records.len() + 1,
            final(self)@.records.drop_last() == old(self)@.records,
            ({
                let r = final(self)@.records.last();
                &&& r.event_id == event@.event_id
                &&& r.device_id == event@.source_device
                &&& r.direction == SyncRecordDirection::Outbound
                &&& r.result == SyncRecordResult::Success
                &&& r.content_len == byte_len(event@.content)
            }),
    {
        let timestamp_ms = now_ms();
        self.record_outbound_at(event, timestamp_ms);
    }

    /// Records that `event` was sent at `timestamp_ms`: a successful
    /// outbound record of the event, its device and its content's length in
    /// UTF-8 bytes is appended to the history.
    pub fn record_outbound_at(&mut self, event: &ClipboardEvent, timestamp_ms: u128)
        ensures
            final(self)@ == (EngineView {
                records: old(self)@.records.push(
                    RecordView {
                        event_id: event@.event_id,
                        device_id: event@.source_device,
                        direction: SyncRecordDirection::Outbound,
                        result: SyncRecordResult::Success,
                        content_len: byte_len(event@.content) as usize,
                        timestamp_ms,
                    },
                ),
                ..old(self)@
            }),
            final(self)@.records.last().content_len == byte_len(event@.content),
    {
        let content_len = byte_length(event.payload.content.as_str());
        let record = SyncRecord {
            event_id: event.event_id.clone(),
            device_id: event.source_device.0.clone(),
            direction: SyncRecordDirection::Outbound,
            result: SyncRecordResult::Success,
            content_len,
            timestamp_ms,
        };
        self.sync_records.push(record);
        assert(self@.records =~= old(self)@.records.push(record@));
    }

    /// Decides what a received message does: an acknowledgement is
    /// remembered; a clipboard event from an untrusted device is dropped and
    /// recorded as such; a clipboard event that the session accepts replaces
    /// the clipboard and asks for an acknowledgement; anything else changes
    /// nothing.
    pub fn handle_incoming(&mut self, message: TransportMessage) -> (out: Incoming)
        ensures
            match message@ {
                MessageView::Ack(id) => out is Acknowledged && final(self)@ == (EngineView {
                    last_ack: Some(id),
                    ..old(self)@
                }),
                MessageView::ClipboardUpdate(e) => if !old(self)@.session.trusted.contains_key(
                    e.source_device,
                ) {
                    &&& out is Ignored
                    &&& final(self)@.session == old(self)@.session
                    &&& final(self)@.clipboard == old(self)@.clipboard
                    &&& final(self)@.last_ack == old(self)@.last_ack
                    &&& final(self)@.records.drop_last() == old(self)@.records
                    &&& final(self)@.records.len() == old(self)@.records.len() + 1
                    &&& final(self)@.records.last().event_id == e.event_id
                    &&& final(self)@.records.last().device_id == e.source_device
                    &&& final(self)@.records.last().direction == SyncRecordDirection::Inbound
                    &&& final(self)@.records.last().result == SyncRecordResult::Dropped
                    &&& final(self)@.records.last().content_len == byte_len(e.content)
                } else if accepts(old(self)@.session, e) {
                    &&& out matches Incoming::Applied { ack, event_id, device_id } && ack@
                        == MessageView::Ack(e.event_id) && event_id@ == e.event_id && device_id@
                        == e.source_device
                    &&& final(self)@ == (EngineView {
                        session: record_event(old(self)@.session, e),
                        clipboard: e.content,
                        ..old(self)@
                    })
                } else {
                    out is Ignored && final(self)@ == old(self)@
                },
                _ => out is Ignored && final(self)@ == old(self)@,
            },
    {
        let timestamp_ms = now_ms();
        self.handle_incoming_at(message, timestamp_ms)
    }

    /// As `handle_incoming`, with `timestamp_ms` as the time of a record of
    /// a dropped event.
    pub fn handle_incoming_at(&mut self, message: TransportMessage, timestamp_ms: u128) -> (out: Incoming)
        ensures
            match message@ {
                MessageView::Ack(id) => out is Acknowledged && final(self)@ == (EngineView {
                    last_ack: Some(id),
                    ..old(self)@
                }),
                MessageView::ClipboardUpdate(e) => if !old(self)@.session.trusted.contains_key(
                    e.source_device,
                ) {
                    &&& out is Ignored
                    &&& final(self)@.session == old(self)@.session
                    &&& final(self)@.clipboard == old(self)@.clipboard
                    &&& final(self)@.last_ack == old(self)@.last_ack
                    &&& final(self)@.records.drop_last() == old(self)@.records
                    &&& final(self)@.records.len() == old(self)@.records.len() + 1
                    &&& final(self)@.records.last().event_id == e.event_id
                    &&& final(self)@.records.last().device_id == e.source_device
                    &&& final(self)@.records.last().direction == SyncRecordDirection::Inbound
                    &&& final(self)@.records.last().result == SyncRecordResult::Dropped
                    &&& final(self)@.records.last().content_len == byte_len(e.content)
                    &&& final(self)@.records.last().timestamp_ms == timestamp_ms
                } else if accepts(old(self)@.session, e) {
                    &&& out matches Incoming::Applied { ack, event_id, device_id } && ack@
                        == MessageView::Ack(e.event_id) && event_id@ == e.event_id && device_id@
                        == e.source_device
                    &&& final(self)@ == (EngineView {
                        session: record_event(old(self)@.session, e),
                        clipboard: e.content,
                        ..old(self)@
                    })
                } else {
                    out is Ignored && final(self)@ == old(self)@
                },
                _ => out is Ignored && final(self)@ == old(self)@,
            },
    {
        match message {
            TransportMessage::ClipboardUpdate(event) => {
                if !self.session.is_trusted_device(&event.source_device) {
                    let content_len = byte_length(event.payload.content.as_str());
                    let record = SyncRecord {
                        event_id: event.event_id,
                        device_id: event.source_device.0,
                        direction: SyncRecordDirection::Inbound,
                        result: SyncRecordResult::Dropped,
                        content_len,
                        timestamp_ms,
                    };
                    self.sync_records.push(record);
                    assert(self@.records.drop_last() =~= old(self)@.records);
                    return Incoming::Ignored;
                }
                if self.session.should_apply_remote_event(&event) {
                    let ack = TransportMessage::Ack { event_id: event.event_id.clone() };
                    let event_id = event.event_id;
                    let device_id = event.source_device.0;
                    self.clipboard.write_remote_content(event.payload);
                    return Incoming::Applied { ack, event_id, device_id };
                }
                Incoming::Ignored
            },
            TransportMessage::Ack { event_id } => {
                self.last_ack_event_id = Some(event_id);
                Incoming::Acknowledged
            },
            _ => Incoming::Ignored,
        }
    }

    /// Records that a remote event was applied and acknowledged.
    pub fn record_inbound_applied(&mut self, event_id: String, device_id: String)
        ensures
            final(self)@.session == old(self)@.session,
            final(self)@.clipboard == old(self)@.clipboard,
            final(self)@.last_ack == old(self)@.last_ack,
            final(self)@.records.len() == old(self)@.records.len() + 1,
            final(self)@.records.drop_last() == old(self)@.records,
            ({
                let r = final(self)@.records.last();
                &&& r.event_id == event_id@
                &&& r.device_id == device_id@
                &&& r.direction == SyncRecordDirection::Inbound
                &&& r.result == SyncRecordResult::Success
                &&& r.content_len == byte_len(old(self)@.clipboard)
            }),
    {
        let timestamp_ms = now_ms();
        self.record_inbound_applied_at(event_id, device_id, timestamp_ms);
    }

    /// Records that a remote event was applied and acknowledged at
    /// `timestamp_ms`: a successful inbound record of the event, its device
    /// and the length in UTF-8 bytes of the clipboard's content is appended
    /// to the history.
    pub fn record_inbound_applied_at(&mut self, event_id: String, device_id: String, timestamp_ms: u128)
        ensures
            final(self)@ == (EngineView {
                records: old(self)@.records.push(
                    RecordView {
                        event_id: event_id@,
                        device_id: device_id@,
                        direction: SyncRecordDirection::Inbound,
                        result: SyncRecordResult::Success,
                        content_len: byte_len(old(self)@.clipboard) as usize,
                        timestamp_ms,
                    },
                ),
                ..old(self)@
            }),
            final(self)@.records.last().content_len == byte_len(old(self)@.clipboard),
    {
        let current = self.clipboard.read_current();
        let content_len = byte_length(current.content.as_str());
        let record = SyncRecord {
            event_id,
            device_id,
            direction: SyncRecordDirection::Inbound,
            result: SyncRecordResult::Success,
            content_len,
            timestamp_ms,
        };
        self.sync_records.push(record);
        assert(self@.records =~= old(self)@.records.push(record@));
    }

    /// The number of records in the history.
    pub fn record_count(&self) -> (out: usize)
        ensures
            out == self@.records.len(),
    {
        self.sync_records.len()
    }

    /// The JSON array of the trusted devices.
    pub fn trusted_devices_json(&self) -> (out: String)
        ensures
            exists|v: Seq<PeerView>|
                ids_distinct(v) && peer_map(v) == self@.session.trusted && out@ == devices_json_spec(v),
    {
        let devices = self.session.trusted_devices();
        let out = devices_json(devices.as_slice());
        assert(ids_distinct(peer_views(devices@)));
        out
    }

    /// The JSON array of the `limit` most recent records, newest first.
    pub fn sync_records_json(&self, limit: usize) -> (out: String)
        ensures
            out@ == json_array(
                recent_records(self@.records, limit as nat).map_values(|r: RecordView| record_json(r)),
            ),
    {
        records_json(self.sync_records.as_slice(), limit)
    }

    /// The JSON summary of the state, given whether the channel is paired
    /// and how many devices discovery has found.
    pub fn snapshot_json(&self, paired: bool, discovered_count: usize) -> (out: String)
        ensures
            out@ == snapshot_json_spec(
                self@.session.status,
                paired,
                self@.session.trusted.len(),
                discovered_count as nat,
                self@.last_ack,
                self@.records.len(),
            ),
    {
        let mut out = String::new();
        push_str(&mut out, "{\"status\":\"");
        match self.session.status() {
            SessionStatus::Idle => push_str(&mut out, "idle"),
            SessionStatus::Running => push_str(&mut out, "running"),
        }
        push_str(&mut out, "\",\"paired\":");
        if paired {
            push_str(&mut out, "true");
        } else {
            push_str(&mut out, "false");
        }
        push_str(&mut out, ",\"trusted_count\":");
        let trusted_count = self.session.trusted_devices().len();
        push_decimal(&mut out, trusted_count as u128);
        push_str(&mut out, ",\"discovered_count\":");
        push_decimal(&mut out, discovered_count as u128);
        push_str(&mut out, ",\"last_ack_event_id\":");
        match &self.last_ack_event_id {
            Some(id) => {
                string_push(&mut out, '"');
                let escaped = json_escape(id.as_str());
                push_str(&mut out, escaped.as_str());
                string_push(&mut out, '"');
            },
            None => push_str(&mut out, "null"),
        }
        push_str(&mut out, ",\"record_count\":");
        push_decimal(&mut out, self.sync_records.len() as u128);
        push_str(&mut out, "}");
        assert(out@ =~= snapshot_json_spec(
            self@.session.status,
            paired,
            self@.session.trusted.len(),
            discovered_count as nat,
            self@.last_ack,
            self@.records.len(),
        ));
        out
    }
}

/// What one device copies, its paired peer pastes: the next local event of
/// a device, sealed under a session key, opens on a peer that holds the same
/// key as that very event, and the peer accepts it when it trusts the device
/// and has seen neither the event nor a newer one from it.
pub proof fn lemma_clipboard_reaches_paired_peer(
    sender: SessionView,
    content: Seq<char>,
    timestamp_ms: u128,
    receiver: SessionView,
    key: Seq<u8>,
)
    requires
        key.len() > 0,
        field_check(MessageView::ClipboardUpdate(local_event(sender, content, timestamp_ms))) is Ok,
        receiver.trusted.contains_key(sender.local),
        !receiver.seen.contains(local_event(sender, content, timestamp_ms).event_id),
        latest_version(receiver, sender.local) < sender.next_version,
    ensures
        ({
            let e = local_event(sender, content, timestamp_ms);
            &&& opened_frame(sealed_frame(MessageView::ClipboardUpdate(e), key), key) == Ok::<
                MessageView,
                TransportErrorCode,
            >(MessageView::ClipboardUpdate(e))
            &&& accepts(receiver, e)
            &&& e.content == content
        }),
{
    crate::channel::lemma_sealed_frame_opens(
        MessageView::ClipboardUpdate(local_event(sender, content, timestamp_ms)),
        key,
    );
}

/// Trust survives a restart: when a fresh engine trusts the devices loaded
/// from what a trust store wrote, it trusts exactly the store's devices.
pub proof fn lemma_restart_restores_trust(
    store: crate::trust_store::FileTrustStore,
    contents: Seq<char>,
)
    requires
        store.persisted_as(contents),
    ensures
        Map::<Seq<char>, Seq<char>>::empty().union_prefer_right(
            crate::trust_store::load_contents_spec(contents).0,
        ) == store.device_map(),
        crate::trust_store::load_contents_spec(contents).1 is None,
{
    crate::trust_store::lemma_persisted_contents_reload(store, contents);
    assert(Map::<Seq<char>, Seq<char>>::empty().union_prefer_right(store.device_map())
        =~= store.device_map());
}

/// The snapshot's `paired` field tells whether the channel is paired, and
/// nothing else: after the status it reads `true` when `paired` holds and
/// `false` otherwise, whatever the counts, the last acknowledgement and the
/// number of records.
pub proof fn lemma_snapshot_paired_field(
    status: SessionStatus,
    paired: bool,
    trusted_count: nat,
    discovered_count: nat,
    last_ack: Option<Seq<char>>,
    record_count: nat,
)
    ensures
        ({
            let snapshot = snapshot_json_spec(
                status,
                paired,
                trusted_count,
                discovered_count,
                last_ack,
                record_count,
            );
            let head = "{\"status\":\""@ + (if status == SessionStatus::Running {
                "running"@
            } else {
                "idle"@
            }) + "\",\"paired\":"@;
            let word = if paired {
                "true"@
            } else {
                "false"@
            };
            snapshot.len() > head.len() + word.len() && snapshot.take((head.len() + word.len()) as int) == head
                + word
        }),
{
    let snapshot = snapshot_json_spec(
        status,
        paired,
        trusted_count,
        discovered_count,
        last_ack,
        record_count,
    );
    let head = "{\"status\":\""@ + (if status == SessionStatus::Running {
        "running"@
    } else {
        "idle"@
    }) + "\",\"paired\":"@;
    let word = if paired {
        "true"@
    } else {
        "false"@
    };
    let rest = ",\"trusted_count\":"@ + decimal(trusted_count) + ",\"discovered_count\":"@ + decimal(
        discovered_count,
    ) + ",\"last_ack_event_id\":"@ + (match last_ack {
        Some(id) => seq!['"'] + json_escaped(id) + seq!['"'],
        None => "null"@,
    }) + ",\"record_count\":"@ + decimal(record_count) + "}"@;
    assert(snapshot =~= (head + word) + rest);
    reveal_strlit("}");
    assert(rest.len() > 0);
    assert((head + word + rest).take((head.len() + word.len()) as int) =~= head + word);
}

} // verus!
