//! Transport messages, the error codes of the transport layer, and the field
//! constraints that every message on the wire must meet.
use vstd::prelude::*;
use vstd::utf8::encode_utf8;

use crate::model::{ClipboardEvent, EventView};

verus! {

broadcast use {vstd::string::group_string_axioms, vstd::slice::group_slice_axioms};

/// The messages exchanged between two paired devices.
#[derive(Debug)]
pub enum TransportMessage {
    Hello,
    PairInit { pairing_code: String },
    PairConfirm,
    ClipboardUpdate(ClipboardEvent),
    Ack { event_id: String },
    Heartbeat,
}

/// Why a transport operation failed.
#[derive(Debug, Clone, Copy, PartialEq, Eq, Structural)]
pub enum TransportErrorCode {
    InvalidPairingCode,
    BindFailed,
    ConnectFailed,
    NotPaired,
    HandshakeTimeout,
    HandshakeFailed,
    SendFailed,
    RecvFailed,
    DecodeFailed,
    InvalidMessageField,
}

/// The abstract value of a transport message.
pub enum MessageView {
    Hello,
    PairInit(Seq<char>),
    PairConfirm,
    ClipboardUpdate(EventView),
    Ack(Seq<char>),
    Heartbeat,
}

impl View for TransportMessage {
    type V = MessageView;

    open spec fn view(&self) -> MessageView {
        match self {
            TransportMessage::Hello => MessageView::Hello,
            TransportMessage::PairInit { pairing_code } => MessageView::PairInit(pairing_code@),
            TransportMessage::PairConfirm => MessageView::PairConfirm,
            TransportMessage::ClipboardUpdate(e) => MessageView::ClipboardUpdate(e@),
            TransportMessage::Ack { event_id } => MessageView::Ack(event_id@),
            TransportMessage::Heartbeat => MessageView::Heartbeat,
        }
    }
}

impl Clone for TransportMessage {
    fn clone(&self) -> (out: Self)
        ensures
            out@ == self@,
    {
        match self {
            TransportMessage::Hello => TransportMessage::Hello,
            TransportMessage::PairInit { pairing_code } => TransportMessage::PairInit {
                pairing_code: pairing_code.clone(),
            },
            TransportMessage::PairConfirm => TransportMessage::PairConfirm,
            TransportMessage::ClipboardUpdate(e) => TransportMessage::ClipboardUpdate(e.clone()),
            TransportMessage::Ack { event_id } => TransportMessage::Ack {
                event_id: event_id.clone(),
            },
            TransportMessage::Heartbeat => TransportMessage::Heartbeat,
        }
    }
}

/// Longest event identifier, in UTF-8 bytes.
pub const MAX_EVENT_ID_LEN: usize = 128;

/// Longest device identifier inside a clipboard event, in UTF-8 bytes.
pub const MAX_DEVICE_ID_LEN: usize = 64;

/// Longest clipboard content, in UTF-8 bytes.
pub const MAX_CLIPBOARD_CONTENT_LEN: usize = 8192;

/// The length of a text in UTF-8 bytes.
pub open spec fn byte_len(s: Seq<char>) -> nat {
    encode_utf8(s).len()
}

/// Whether `c` is one of the ASCII digits `0`..`9`.
pub open spec fn is_digit(c: char) -> bool {
    48 <= (c as u32) <= 57
}

/// A pairing code is exactly six ASCII digits.
pub open spec fn valid_pairing_code(code: Seq<char>) -> bool {
    &&& byte_len(code) == 6
    &&& forall|i: int| 0 <= i < code.len() ==> #[trigger] is_digit(code[i])
}

/// Whether an event identifier has an admissible length (1 to 128 bytes).
pub open spec fn valid_event_id(id: Seq<char>) -> bool {
    1 <= byte_len(id) <= MAX_EVENT_ID_LEN
}

/// The field constraints of a message: `Ok` when it may go on the wire,
/// otherwise the error that rejects it.
pub open spec fn field_check(m: MessageView) -> Result<(), TransportErrorCode> {
    match m {
        MessageView::PairInit(code) => if valid_pairing_code(code) {
            Ok(())
        } else {
            Err(TransportErrorCode::InvalidPairingCode)
        },
        MessageView::ClipboardUpdate(e) => if valid_event_id(e.event_id) && 1 <= byte_len(
            e.source_device,
        ) <= MAX_DEVICE_ID_LEN && byte_len(e.content) <= MAX_CLIPBOARD_CONTENT_LEN {
            Ok(())
        } else {
            Err(TransportErrorCode::InvalidMessageField)
        },
        MessageView::Ack(id) => if valid_event_id(id) {
            Ok(())
        } else {
            Err(TransportErrorCode::InvalidMessageField)
        },
        _ => Ok(()),
    }
}

/// The length of `s` in UTF-8 bytes.
pub fn byte_length(s: &str) -> (n: usize)
    ensures
        n == byte_len(s@),
{
    s.as_bytes().len()
}

/// Whether `pairing_code` is six ASCII digits.
pub fn is_valid_pairing_code(pairing_code: &str) -> (out: bool)
    ensures
        out == valid_pairing_code(pairing_code@),
{
    if byte_length(pairing_code) != 6 {
        return false;
    }
    let cs = crate::text::chars_of(pairing_code);
    let mut i: usize = 0;
    while i < cs.len()
        invariant
            i <= cs@.len(),
            cs@ == pairing_code@,
            forall|j: int| 0 <= j < i ==> #[trigger] is_digit(cs@[j]),
        decreases cs@.len() - i,
    {
        let v = cs[i] as u32;
        if !(48 <= v && v <= 57) {
            assert(!is_digit(pairing_code@[i as int]));
            return false;
        }
        i = i + 1;
    }
    true
}

/// Checks the field constraints of `message`.
pub fn validate_message_fields(message: &TransportMessage) -> (out: Result<(), TransportErrorCode>)
    ensures
        out == field_check(message@),
{
    match message {
        TransportMessage::PairInit { pairing_code } => {
            if !is_valid_pairing_code(pairing_code.as_str()) {
                return Err(TransportErrorCode::InvalidPairingCode);
            }
        },
        TransportMessage::ClipboardUpdate(event) => {
            let id_len = byte_length(event.event_id.as_str());
            if id_len == 0 || id_len > MAX_EVENT_ID_LEN {
                return Err(TransportErrorCode::InvalidMessageField);
            }
            let dev_len = byte_length(event.source_device.0.as_str());
            if dev_len == 0 || dev_len > MAX_DEVICE_ID_LEN {
                return Err(TransportErrorCode::InvalidMessageField);
            }
            if byte_length(event.payload.content.as_str()) > MAX_CLIPBOARD_CONTENT_LEN {
                return Err(TransportErrorCode::InvalidMessageField);
            }
        },
        TransportMessage::Ack { event_id } => {
            let id_len = byte_length(event_id.as_str());
            if id_len == 0 || id_len > MAX_EVENT_ID_LEN {
                return Err(TransportErrorCode::InvalidMessageField);
            }
        },
        _ => {},
    }
    Ok(())
}

/// Whether `c` is one of the characters `0`, `1`, ..., `9`.
pub open spec fn is_decimal_digit_char(c: char) -> bool {
    c == '0' || c == '1' || c == '2' || c == '3' || c == '4' || c == '5' || c == '6' || c == '7'
        || c == '8' || c == '9'
}

/// Every character takes at least one byte in UTF-8, and a text of ASCII
/// characters takes exactly one byte per character.
proof fn lemma_utf8_len(s: Seq<char>)
    ensures
        encode_utf8(s).len() >= s.len(),
        (forall|i: int| 0 <= i < s.len() ==> (#[trigger] s[i] as u32) < 128) ==> encode_utf8(s).len()
            == s.len(),
    decreases s.len(),
{
    if s.len() > 0 {
        lemma_utf8_len(s.drop_first());
        if forall|i: int| 0 <= i < s.len() ==> (#[trigger] s[i] as u32) < 128 {
            assert forall|i: int| 0 <= i < s.drop_first().len() implies (#[trigger] s.drop_first()[i]
                as u32) < 128 by {
                assert(s.drop_first()[i] == s[i + 1]);
            }
            assert((s[0] as u32) < 128);
        }
    }
}

/// The pairing codes that are accepted are exactly the texts of six
/// characters, each one of `0` to `9`; any other text is refused.
pub proof fn lemma_pairing_code_is_six_decimal_digits(code: Seq<char>)
    ensures
        valid_pairing_code(code) <==> (code.len() == 6 && forall|i: int|
            0 <= i < code.len() ==> #[trigger] is_decimal_digit_char(code[i])),
{
    assert forall|c: char| #[trigger] is_digit(c) <==> is_decimal_digit_char(c) by {
        vstd::utf8::char_u32_cast(c, c as u32);
        assert(('0' as u32) == 48 && ('9' as u32) == 57);
    }
    lemma_utf8_len(code);
    let all_digit = forall|i: int| 0 <= i < code.len() ==> #[trigger] is_digit(code[i]);
    let all_decimal = forall|i: int| 0 <= i < code.len() ==> #[trigger] is_decimal_digit_char(code[i]);
    assert(all_digit <==> all_decimal) by {
        if all_decimal {
            assert forall|i: int| 0 <= i < code.len() implies #[trigger] is_digit(code[i]) by {
                assert(is_decimal_digit_char(code[i]));
            }
        }
        if all_digit {
            assert forall|i: int| 0 <= i < code.len() implies #[trigger] is_decimal_digit_char(code[i]) by {
                assert(is_digit(code[i]));
            }
        }
    }
    if all_digit {
        assert forall|i: int| 0 <= i < code.len() implies (#[trigger] code[i] as u32) < 128 by {
            assert(is_digit(code[i]));
        }
        assert(encode_utf8(code).len() == code.len());
    }
}

/// The limits of a clipboard update count UTF-8 bytes: an update whose
/// content takes more than 8192 bytes is refused with
/// `InvalidMessageField`, and one whose event identifier takes 1 to 128
/// bytes, device identifier 1 to 64 bytes and content at most 8192 bytes is
/// accepted.
pub proof fn lemma_clipboard_update_limits_in_bytes(e: EventView)
    ensures
        encode_utf8(e.content).len() > 8192 ==> field_check(MessageView::ClipboardUpdate(e)) == Err::<
            (),
            TransportErrorCode,
        >(TransportErrorCode::InvalidMessageField),
        (1 <= encode_utf8(e.event_id).len() <= 128 && 1 <= encode_utf8(e.source_device).len() <= 64
            && encode_utf8(e.content).len() <= 8192) ==> field_check(MessageView::ClipboardUpdate(e))
            == Ok::<(), TransportErrorCode>(()),
{
}

} // verus!
