use syncer::clipboard::{ClipboardAdapter, MemoryClipboard};
use syncer::model::ClipboardPayload;

#[test]
fn writes_and_reads_content() {
    let mut clipboard = MemoryClipboard::default();
    clipboard.set_local_content("hi");
    assert_eq!(clipboard.read_current().content, "hi");
}

#[test]
fn new_clipboard_is_empty() {
    let clipboard = MemoryClipboard::new();
    assert_eq!(clipboard.read_current().content, "");
}

#[test]
fn remote_write_replaces_local_content() {
    let mut clipboard = MemoryClipboard::default();
    clipboard.set_local_content("local");
    clipboard.write_remote_content(ClipboardPayload { content: "remote".to_string() });
    assert_eq!(clipboard.read_current().content, "remote");
    clipboard.set_local_content("again");
    assert_eq!(clipboard.read_current().content, "again");
}
