//! The plain (unencrypted) wire format of transport messages.
//!
//! A frame is a one-byte tag followed by the message's fields. A string is
//! its UTF-8 length as a little-endian `u32` followed by its UTF-8 bytes;
//! integers are little-endian. Decoding ignores bytes after the last field.
use vstd::bytes::*;
use vstd::prelude::*;
use vstd::slice::{slice_subrange, slice_to_vec};
use vstd::utf8::{decode_utf8, encode_utf8, valid_utf8};

use crate::message::{byte_len, field_check, validate_message_fields, MessageView, TransportErrorCode, TransportMessage};
use crate::model::{ClipboardEvent, ClipboardPayload, DeviceId, EventVersion, EventView};

verus! {

broadcast use {
    vstd::string::group_string_axioms,
    vstd::slice::group_slice_axioms,
    vstd::utf8::group_utf8_lib,
};

/// The tag byte that opens the frame of a message.
pub open spec fn tag_of(m: MessageView) -> u8 {
    match m {
        MessageView::Hello => 0,
        MessageView::PairInit(_) => 1,
        MessageView::PairConfirm => 2,
        MessageView::ClipboardUpdate(_) => 3,
        MessageView::Ack(_) => 4,
        MessageView::Heartbeat => 5,
    }
}

/// The encoding of one string field: length prefix, then UTF-8 bytes.
pub open spec fn string_field(s: Seq<char>) -> Seq<u8> {
    spec_u32_to_le_bytes(byte_len(s) as u32) + encode_utf8(s)
}

/// The fields of a clipboard event, in wire order.
pub open spec fn event_fields(e: EventView) -> Seq<u8> {
    string_field(e.event_id) + string_field(e.source_device) + spec_u64_to_le_bytes(e.version)
        + string_field(e.content) + spec_u128_to_le_bytes(e.timestamp_ms)
}

/// The frame of a message.
pub open spec fn encode_spec(m: MessageView) -> Seq<u8> {
    seq![tag_of(m)] + match m {
        MessageView::PairInit(code) => string_field(code),
        MessageView::ClipboardUpdate(e) => event_fields(e),
        MessageView::Ack(id) => string_field(id),
        _ => Seq::empty(),
    }
}

/// Reads a little-endian `u32` from the front of `input`.
pub open spec fn read_u32_spec(input: Seq<u8>) -> Option<(u32, Seq<u8>)> {
    if input.len() < 4 {
        None
    } else {
        Some((spec_u32_from_le_bytes(input.take(4)), input.skip(4)))
    }
}

/// Reads a little-endian `u64` from the front of `input`.
pub open spec fn read_u64_spec(input: Seq<u8>) -> Option<(u64, Seq<u8>)> {
    if input.len() < 8 {
        None
    } else {
        Some((spec_u64_from_le_bytes(input.take(8)), input.skip(8)))
    }
}

/// Reads a little-endian `u128` from the front of `input`.
pub open spec fn read_u128_spec(input: Seq<u8>) -> Option<(u128, Seq<u8>)> {
    if input.len() < 16 {
        None
    } else {
        Some((spec_u128_from_le_bytes(input.take(16)), input.skip(16)))
    }
}

/// Reads a string field from the front of `input`: it fails when the input
/// is too short or the bytes are not well-formed UTF-8.
pub open spec fn read_string_spec(input: Seq<u8>) -> Option<(Seq<char>, Seq<u8>)> {
    match read_u32_spec(input) {
        None => None,
        Some((n, rest)) => if rest.len() < n {
            None
        } else if !valid_utf8(rest.take(n as int)) {
            None
        } else {
            Some((decode_utf8(rest.take(n as int)), rest.skip(n as int)))
        },
    }
}

/// Reads the fields of a clipboard event from the front of `input`.
pub open spec fn read_event_spec(input: Seq<u8>) -> Option<EventView> {
    match read_string_spec(input) {
        None => None,
        Some((event_id, r1)) => match read_string_spec(r1) {
            None => None,
            Some((source_device, r2)) => match read_u64_spec(r2) {
                None => None,
                Some((version, r3)) => match read_string_spec(r3) {
                    None => None,
                    Some((content, r4)) => match read_u128_spec(r4) {
                        None => None,
                        Some((timestamp_ms, _)) => Some(
                            EventView { event_id, source_device, version, content, timestamp_ms },
                        ),
                    },
                },
            },
        },
    }
}

/// The message a frame holds, before its fields are checked; `None` when the
/// frame is empty, has an unknown tag or is cut short.
pub open spec fn parse_spec(bytes: Seq<u8>) -> Option<MessageView> {
    if bytes.len() == 0 {
        None
    } else {
        let rest = bytes.skip(1);
        if bytes[0] == 0 {
            Some(MessageView::Hello)
        } else if bytes[0] == 1 {
            match read_string_spec(rest) {
                None => None,
                Some((code, _)) => Some(MessageView::PairInit(code)),
            }
        } else if bytes[0] == 2 {
            Some(MessageView::PairConfirm)
        } else if bytes[0] == 3 {
            match read_event_spec(rest) {
                None => None,
                Some(e) => Some(MessageView::ClipboardUpdate(e)),
            }
        } else if bytes[0] == 4 {
            match read_string_spec(rest) {
                None => None,
                Some((id, _)) => Some(MessageView::Ack(id)),
            }
        } else if bytes[0] == 5 {
            Some(MessageView::Heartbeat)
        } else {
            None
        }
    }
}

/// What decoding a frame yields: the message when it parses and meets the
/// field constraints; `DecodeFailed` when it does not parse; otherwise the
/// error of the violated constraint.
pub open spec fn decode_spec(bytes: Seq<u8>) -> Result<MessageView, TransportErrorCode> {
    match parse_spec(bytes) {
        None => Err(TransportErrorCode::DecodeFailed),
        Some(m) => match field_check(m) {
            Ok(_) => Ok(m),
            Err(e) => Err(e),
        },
    }
}

/// `String::from_utf8`.
///
/// Trusted: claims what its documentation states, that the conversion
/// succeeds exactly when the bytes are well-formed UTF-8, and that the
/// string then holds the characters they encode. Well-formedness is vstd's
/// `valid_utf8`, decoding is vstd's `decode_utf8`.
#[verifier::external_body]
fn string_from_utf8(bytes: Vec<u8>) -> (out: Option<String>)
    ensures
        out is Some <==> valid_utf8(bytes@),
        out matches Some(s) ==> s@ == decode_utf8(bytes@),
{
    String::from_utf8(bytes).ok()
}

/// Appends `bytes` to `out`.
fn append_bytes(out: &mut Vec<u8>, bytes: &[u8])
    ensures
        final(out)@ == old(out)@ + bytes@,
{
    let mut i: usize = 0;
    while i < bytes.len()
        invariant
            i <= bytes@.len(),
            out@ == old(out)@ + bytes@.take(i as int),
        decreases bytes@.len() - i,
    {
        out.push(bytes[i]);
        assert(bytes@.take(i as int + 1) == bytes@.take(i as int).push(bytes@[i as int]));
        i = i + 1;
    }
    assert(bytes@.take(bytes@.len() as int) == bytes@);
}

/// Appends the string field of `value` to `out`; refuses a string longer
/// than `u32::MAX` bytes with `InvalidMessageField`, leaving `out` as it was.
pub fn write_string(out: &mut Vec<u8>, value: &str) -> (res: Result<(), TransportErrorCode>)
    ensures
        byte_len(value@) <= u32::MAX ==> res is Ok && final(out)@ == old(out)@ + string_field(
            value@,
        ),
        byte_len(value@) > u32::MAX ==> res == Err::<(), TransportErrorCode>(
            TransportErrorCode::InvalidMessageField,
        ) && final(out)@ == old(out)@,
{
    let bytes = value.as_bytes();
    if bytes.len() > 0xffff_ffffusize {
        return Err(TransportErrorCode::InvalidMessageField);
    }
    let len_bytes = u32_to_le_bytes(bytes.len() as u32);
    append_bytes(out, len_bytes.as_slice());
    append_bytes(out, bytes);
    assert(final(out)@ =~= old(out)@ + string_field(value@));
    Ok(())
}

/// Encodes `message` as a plain frame after checking its fields.
pub fn encode_plain_message(message: &TransportMessage) -> (res: Result<Vec<u8>, TransportErrorCode>)
    ensures
        match field_check(message@) {
            Ok(_) => res matches Ok(b) && b@ == encode_spec(message@),
            Err(e) => res == Err::<Vec<u8>, TransportErrorCode>(e),
        },
{
    validate_message_fields(message)?;
    let mut out: Vec<u8> = Vec::new();
    match message {
        TransportMessage::Hello => out.push(0),
        TransportMessage::PairInit { pairing_code } => {
            out.push(1);
            write_string(&mut out, pairing_code.as_str())?;
        },
        TransportMessage::PairConfirm => out.push(2),
        TransportMessage::ClipboardUpdate(event) => {
            out.push(3);
            write_string(&mut out, event.event_id.as_str())?;
            write_string(&mut out, event.source_device.0.as_str())?;
            let v = u64_to_le_bytes(event.version.0);
            append_bytes(&mut out, v.as_slice());
            write_string(&mut out, event.payload.content.as_str())?;
            let t = u128_to_le_bytes(event.timestamp_ms);
            append_bytes(&mut out, t.as_slice());
        },
        TransportMessage::Ack { event_id } => {
            out.push(4);
            write_string(&mut out, event_id.as_str())?;
        },
        TransportMessage::Heartbeat => out.push(5),
    }
    assert(out@ =~= encode_spec(message@));
    Ok(out)
}


/// Reads a little-endian `u32` at position `pos` of `input`; the position
/// after it comes back with the value.
fn read_u32(input: &[u8], pos: usize) -> (res: Result<(u32, usize), TransportErrorCode>)
    requires
        pos <= input@.len(),
    ensures
        match read_u32_spec(input@.skip(pos as int)) {
            Some((v, rest)) => res matches Ok((w, p)) && w == v && p <= input@.len()
                && input@.skip(p as int) == rest,
            None => res == Err::<(u32, usize), TransportErrorCode>(
                TransportErrorCode::DecodeFailed,
            ),
        },
{
    if input.len() - pos < 4 {
        return Err(TransportErrorCode::DecodeFailed);
    }
    let bytes = slice_subrange(input, pos, pos + 4);
    assert(bytes@ == input@.skip(pos as int).take(4));
    assert(input@.skip(pos as int).skip(4) == input@.skip(pos + 4));
    Ok((u32_from_le_bytes(bytes), pos + 4))
}

/// Reads a little-endian `u64` at position `pos` of `input`.
fn read_u64(input: &[u8], pos: usize) -> (res: Result<(u64, usize), TransportErrorCode>)
    requires
        pos <= input@.len(),
    ensures
        match read_u64_spec(input@.skip(pos as int)) {
            Some((v, rest)) => res matches Ok((w, p)) && w == v && p <= input@.len()
                && input@.skip(p as int) == rest,
            None => res == Err::<(u64, usize), TransportErrorCode>(
                TransportErrorCode::DecodeFailed,
            ),
        },
{
    if input.len() - pos < 8 {
        return Err(TransportErrorCode::DecodeFailed);
    }
    let bytes = slice_subrange(input, pos, pos + 8);
    assert(bytes@ == input@.skip(pos as int).take(8));
    assert(input@.skip(pos as int).skip(8) == input@.skip(pos + 8));
    Ok((u64_from_le_bytes(bytes), pos + 8))
}

/// Reads a little-endian `u128` at position `pos` of `input`.
fn read_u128(input: &[u8], pos: usize) -> (res: Result<(u128, usize), TransportErrorCode>)
    requires
        pos <= input@.len(),
    ensures
        match read_u128_spec(input@.skip(pos as int)) {
            Some((v, rest)) => res matches Ok((w, p)) && w == v && p <= input@.len()
                && input@.skip(p as int) == rest,
            None => res == Err::<(u128, usize), TransportErrorCode>(
                TransportErrorCode::DecodeFailed,
            ),
        },
{
    if input.len() - pos < 16 {
        return Err(TransportErrorCode::DecodeFailed);
    }
    let bytes = slice_subrange(input, pos, pos + 16);
    assert(bytes@ == input@.skip(pos as int).take(16));
    assert(input@.skip(pos as int).skip(16) == input@.skip(pos + 16));
    Ok((u128_from_le_bytes(bytes), pos + 16))
}

/// Reads a string field at position `pos` of `input`.
pub fn read_string(input: &[u8], pos: usize) -> (res: Result<(String, usize), TransportErrorCode>)
    requires
        pos <= input@.len(),
    ensures
        match read_string_spec(input@.skip(pos as int)) {
            Some((v, rest)) => res matches Ok((w, p)) && w@ == v && p <= input@.len()
                && input@.skip(p as int) == rest,
            None => res == Err::<(String, usize), TransportErrorCode>(
                TransportErrorCode::DecodeFailed,
            ),
        },
{
    let (n, p) = read_u32(input, pos)?;
    let len = n as usize;
    if input.len() - p < len {
        return Err(TransportErrorCode::DecodeFailed);
    }
    let bytes = slice_subrange(input, p, p + len);
    assert(bytes@ == input@.skip(p as int).take(n as int));
    assert(input@.skip(p as int).skip(n as int) == input@.skip(p + len));
    match string_from_utf8(slice_to_vec(bytes)) {
        Some(s) => Ok((s, p + len)),
        None => Err(TransportErrorCode::DecodeFailed),
    }
}

/// Decodes a plain frame: the message it holds, `DecodeFailed` when it is
/// malformed, or the error of a field constraint it violates.
pub fn decode_plain_message(bytes: &[u8]) -> (res: Result<TransportMessage, TransportErrorCode>)
    ensures
        match decode_spec(bytes@) {
            Ok(m) => res matches Ok(msg) && msg@ == m,
            Err(e) => res matches Err(f) && f == e,
        },
{
    if bytes.len() == 0 {
        return Err(TransportErrorCode::DecodeFailed);
    }
    let tag = bytes[0];
    let message = if tag == 0 {
        TransportMessage::Hello
    } else if tag == 1 {
        let (pairing_code, _) = read_string(bytes, 1)?;
        TransportMessage::PairInit { pairing_code }
    } else if tag == 2 {
        TransportMessage::PairConfirm
    } else if tag == 3 {
        let (event_id, p1) = read_string(bytes, 1)?;
        let (source, p2) = read_string(bytes, p1)?;
        let (version, p3) = read_u64(bytes, p2)?;
        let (content, p4) = read_string(bytes, p3)?;
        let (timestamp_ms, _) = read_u128(bytes, p4)?;
        TransportMessage::ClipboardUpdate(
            ClipboardEvent {
                event_id,
                source_device: DeviceId(source),
                version: EventVersion(version),
                payload: ClipboardPayload { content },
                timestamp_ms,
            },
        )
    } else if tag == 4 {
        let (event_id, _) = read_string(bytes, 1)?;
        TransportMessage::Ack { event_id }
    } else if tag == 5 {
        TransportMessage::Heartbeat
    } else {
        return Err(TransportErrorCode::DecodeFailed);
    };
    assert(parse_spec(bytes@) == Some(message@));
    validate_message_fields(&message)?;
    Ok(message)
}


/// A written string reads back: the string field of a string that fits the
/// `u32` length prefix, followed by any bytes, reads as that string and
/// leaves exactly the bytes that follow it.
pub proof fn lemma_read_string_field(s: Seq<char>, rest: Seq<u8>)
    requires
        byte_len(s) <= u32::MAX,
    ensures
        read_string_spec(string_field(s) + rest) == Some((s, rest)),
{
    lemma_auto_spec_u32_to_from_le_bytes();
    let n = byte_len(s) as u32;
    let input = string_field(s) + rest;
    assert(input.take(4) == spec_u32_to_le_bytes(n));
    assert(input.skip(4) == encode_utf8(s) + rest);
    assert((encode_utf8(s) + rest).take(n as int) == encode_utf8(s));
    assert((encode_utf8(s) + rest).skip(n as int) == rest);
}

proof fn lemma_read_u64_field(v: u64, rest: Seq<u8>)
    ensures
        read_u64_spec(spec_u64_to_le_bytes(v) + rest) == Some((v, rest)),
{
    lemma_auto_spec_u64_to_from_le_bytes();
    let input = spec_u64_to_le_bytes(v) + rest;
    assert(input.take(8) == spec_u64_to_le_bytes(v));
    assert(input.skip(8) == rest);
}

proof fn lemma_read_u128_field(v: u128, rest: Seq<u8>)
    ensures
        read_u128_spec(spec_u128_to_le_bytes(v) + rest) == Some((v, rest)),
{
    lemma_auto_spec_u128_to_from_le_bytes();
    let input = spec_u128_to_le_bytes(v) + rest;
    assert(input.take(16) == spec_u128_to_le_bytes(v));
    assert(input.skip(16) == rest);
}

/// Decoding undoes encoding: every message that meets the field constraints
/// decodes from its own frame to itself.
pub proof fn lemma_decode_encode(m: MessageView)
    requires
        field_check(m) is Ok,
    ensures
        decode_spec(encode_spec(m)) == Ok::<MessageView, TransportErrorCode>(m),
{
    let bytes = encode_spec(m);
    assert(bytes[0] == tag_of(m));
    match m {
        MessageView::PairInit(code) => {
            assert(bytes.skip(1) == string_field(code) + Seq::<u8>::empty());
            lemma_read_string_field(code, Seq::empty());
        },
        MessageView::ClipboardUpdate(e) => {
            let f1 = string_field(e.event_id);
            let f2 = string_field(e.source_device);
            let f3 = spec_u64_to_le_bytes(e.version);
            let f4 = string_field(e.content);
            let f5 = spec_u128_to_le_bytes(e.timestamp_ms);
            let r4 = f5;
            let r3 = f4 + r4;
            let r2 = f3 + r3;
            let r1 = f2 + r2;
            assert(bytes.skip(1) == f1 + r1);
            lemma_read_string_field(e.event_id, r1);
            lemma_read_string_field(e.source_device, r2);
            lemma_read_u64_field(e.version, r3);
            lemma_read_string_field(e.content, r4);
            assert(r4 == f5 + Seq::<u8>::empty());
            lemma_read_u128_field(e.timestamp_ms, Seq::empty());
        },
        MessageView::Ack(id) => {
            assert(bytes.skip(1) == string_field(id) + Seq::<u8>::empty());
            lemma_read_string_field(id, Seq::empty());
        },
        _ => {},
    }
}

} // verus!
