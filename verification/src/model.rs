//! The domain model shared by every layer: devices, clipboard payloads and
//! clipboard events, with their mathematical views.
use vstd::prelude::*;

verus! {

/// The identity of a device on the network.
#[derive(Debug, PartialEq, Eq, Hash)]
pub struct DeviceId(pub String);

impl View for DeviceId {
    type V = Seq<char>;

    open spec fn view(&self) -> Seq<char> {
        self.0@
    }
}

impl Clone for DeviceId {
    fn clone(&self) -> (out: Self)
        ensures
            out@ == self@,
    {
        DeviceId(self.0.clone())
    }
}

impl DeviceId {
    /// Whether two identities name the same device.
    pub fn same_as(&self, other: &DeviceId) -> (out: bool)
        ensures
            out == (self@ == other@),
    {
        self.0 == other.0
    }
}

/// A device together with the name shown to the user.
#[derive(Debug, PartialEq, Eq)]
pub struct PeerDevice {
    pub id: DeviceId,
    pub display_name: String,
}

/// The abstract value of a device: its identity and its display name.
pub struct PeerView {
    pub id: Seq<char>,
    pub name: Seq<char>,
}

impl View for PeerDevice {
    type V = PeerView;

    open spec fn view(&self) -> PeerView {
        PeerView { id: self.id@, name: self.display_name@ }
    }
}

impl Clone for PeerDevice {
    fn clone(&self) -> (out: Self)
        ensures
            out@ == self@,
    {
        PeerDevice { id: self.id.clone(), display_name: self.display_name.clone() }
    }
}

/// Errors of the trusted-device store.
#[derive(Debug)]
pub enum TrustStoreError {
    /// Reading or writing the backing file failed; the text describes why.
    Io(String),
    /// The backing file's contents are malformed; the text describes where.
    Parse(String),
}

impl Clone for TrustStoreError {
    fn clone(&self) -> (out: Self)
        ensures
            out == *self,
    {
        match self {
            TrustStoreError::Io(m) => TrustStoreError::Io(m.clone()),
            TrustStoreError::Parse(m) => TrustStoreError::Parse(m.clone()),
        }
    }
}

/// The text held by a clipboard.
#[derive(Debug)]
pub struct ClipboardPayload {
    pub content: String,
}

impl Clone for ClipboardPayload {
    fn clone(&self) -> (out: Self)
        ensures
            out.content@ == self.content@,
    {
        ClipboardPayload { content: self.content.clone() }
    }
}

/// The per-device sequence number of a clipboard event.
#[derive(Debug, Clone, Copy, PartialEq, Eq, PartialOrd, Ord)]
pub struct EventVersion(pub u64);

/// One change of a device's clipboard, as it travels between devices.
#[derive(Debug)]
pub struct ClipboardEvent {
    pub event_id: String,
    pub source_device: DeviceId,
    pub version: EventVersion,
    pub payload: ClipboardPayload,
    pub timestamp_ms: u128,
}

/// The abstract value of a clipboard event.
pub struct EventView {
    pub event_id: Seq<char>,
    pub source_device: Seq<char>,
    pub version: u64,
    pub content: Seq<char>,
    pub timestamp_ms: u128,
}

impl View for ClipboardEvent {
    type V = EventView;

    open spec fn view(&self) -> EventView {
        EventView {
            event_id: self.event_id@,
            source_device: self.source_device@,
            version: self.version.0,
            content: self.payload.content@,
            timestamp_ms: self.timestamp_ms,
        }
    }
}

impl Clone for ClipboardEvent {
    fn clone(&self) -> (out: Self)
        ensures
            out@ == self@,
    {
        ClipboardEvent {
            event_id: self.event_id.clone(),
            source_device: self.source_device.clone(),
            version: self.version,
            payload: self.payload.clone(),
            timestamp_ms: self.timestamp_ms,
        }
    }
}

/// Whether a synchronisation session has been started.
#[derive(Debug, Clone, Copy, PartialEq, Eq, Structural)]
pub enum SessionStatus {
    Idle,
    Running,
}

} // verus!
