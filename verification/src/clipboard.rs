//! Clipboards: what a device's clipboard holds, locally set or written
//! from a remote device.
use vstd::prelude::*;

use crate::model::ClipboardPayload;

verus! {

/// A clipboard that the synchronisation reads and writes.
pub trait ClipboardAdapter {
    /// The text the clipboard holds.
    spec fn current_text(&self) -> Seq<char>;

    /// What the clipboard holds.
    fn read_current(&self) -> (out: ClipboardPayload)
        ensures
            out.content@ == self.current_text(),
    ;

    /// Replaces the clipboard's text with content that came from a remote
    /// device.
    fn write_remote_content(&mut self, payload: ClipboardPayload)
        ensures
            final(self).current_text() == payload.content@,
    ;

    /// Replaces the clipboard's text with content set on this device.
    fn set_local_content(&mut self, content: &str)
        ensures
            final(self).current_text() == content@,
    ;
}

/// A clipboard held in memory.
pub struct MemoryClipboard {
    current: String,
}

impl MemoryClipboard {
    /// An empty clipboard.
    pub fn new() -> (out: Self)
        ensures
            out.current_text() == Seq::<char>::empty(),
    {
        MemoryClipboard { current: String::new() }
    }
}

impl Default for MemoryClipboard {
    fn default() -> (out: Self)
        ensures
            out.current_text() == Seq::<char>::empty(),
    {
        MemoryClipboard::new()
    }
}

impl ClipboardAdapter for MemoryClipboard {
    closed spec fn current_text(&self) -> Seq<char> {
        self.current@
    }

    fn read_current(&self) -> (out: ClipboardPayload) {
        ClipboardPayload { content: self.current.clone() }
    }

    fn write_remote_content(&mut self, payload: ClipboardPayload) {
        self.current = payload.content;
    }

    fn set_local_content(&mut self, content: &str) {
        self.current = String::from_str(content);
    }
}

} // verus!
