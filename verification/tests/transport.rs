use syncer::channel::{ChannelState, RetryBudget, RetryPhase, RetryPolicy, RetryStep};
use syncer::codec::{decode_plain_message, encode_plain_message, read_string, write_string};
use syncer::crypto::{decrypt_payload, derive_session_key, encrypt_payload};
use syncer::message::{is_valid_pairing_code, validate_message_fields, TransportErrorCode, TransportMessage};
use syncer::model::{ClipboardEvent, ClipboardPayload, DeviceId, EventVersion};

fn event(id: String, device: &str, content: &str) -> ClipboardEvent {
    ClipboardEvent {
        event_id: id,
        source_device: DeviceId(device.into()),
        version: EventVersion(3),
        payload: ClipboardPayload { content: content.into() },
        timestamp_ms: 42,
    }
}

fn paired(code: &str) -> ChannelState {
    let mut channel = ChannelState::new();
    let init = channel.begin_pairing(code).expect("valid code");
    assert!(ChannelState::is_init_reply(&init, code));
    channel.confirm_pairing(code);
    channel
}

#[test]
fn rejects_invalid_pairing_code() {
    let mut channel = ChannelState::new();
    assert_eq!(channel.begin_pairing("abc").err(), Some(TransportErrorCode::InvalidPairingCode));
    assert!(!channel.is_paired());
}

#[test]
fn pairing_codes() {
    assert!(is_valid_pairing_code("123456"));
    assert!(!is_valid_pairing_code("12345"));
    assert!(!is_valid_pairing_code("1234567"));
    assert!(!is_valid_pairing_code("12a456"));
    assert!(!is_valid_pairing_code("１２３４５６"));
}

#[test]
fn pairs_and_transfers_message() {
    let channel = paired("123456");
    assert!(channel.is_paired());
    let frame = channel.seal(&TransportMessage::Hello).expect("seal");
    assert!(matches!(channel.open(&frame), Ok(TransportMessage::Hello)));
}

#[test]
fn transfers_clipboard_event() {
    let sender = paired("654321");
    let receiver = paired("654321");
    let frame = sender
        .seal(&TransportMessage::ClipboardUpdate(event("evt-1".into(), "local-a", "hello")))
        .expect("seal");
    let Ok(TransportMessage::ClipboardUpdate(event)) = receiver.open(&frame) else {
        panic!("expect clipboard update");
    };
    assert_eq!(event.event_id, "evt-1");
    assert_eq!(event.payload.content, "hello");
    assert_eq!(event.version.0, 3);
    assert_eq!(event.timestamp_ms, 42);
    assert_eq!(event.source_device.0, "local-a");
}

#[test]
fn rejects_invalid_fields() {
    let channel = paired("111111");
    let oversized_event_id = "x".repeat(129);
    let result = channel.seal(&TransportMessage::ClipboardUpdate(event(oversized_event_id, "local-a", "ok")));
    assert_eq!(result.err(), Some(TransportErrorCode::InvalidMessageField));
}

#[test]
fn recv_before_pair_returns_error() {
    let channel = ChannelState::new();
    assert_eq!(channel.check_paired(), Err(TransportErrorCode::NotPaired));
    assert!(matches!(channel.open(&[0]), Err(TransportErrorCode::NotPaired)));
    assert_eq!(channel.seal(&TransportMessage::Hello).err(), Some(TransportErrorCode::NotPaired));
}

#[test]
fn decode_failed_for_corrupted_payload() {
    let channel = paired("123456");
    assert!(matches!(channel.open(&[0xFF, 0xAA, 0x01]), Err(TransportErrorCode::DecodeFailed)));
}

#[test]
fn failed_handshake_unpairs() {
    let mut channel = paired("123456");
    assert_eq!(channel.fail_handshake(), TransportErrorCode::HandshakeTimeout);
    assert!(!channel.is_paired());
}

#[test]
fn init_reply_must_carry_the_same_code() {
    let mut channel = ChannelState::new();
    let init = channel.begin_pairing("123456").unwrap();
    assert!(!ChannelState::is_init_reply(&init, "654321"));
    assert!(!ChannelState::is_init_reply(&[2], "123456"));
}

#[test]
fn different_codes_do_not_understand_each_other() {
    let a = paired("123456");
    let b = paired("654321");
    let frame = a.seal(&TransportMessage::Heartbeat).unwrap();
    assert!(!matches!(b.open(&frame), Ok(TransportMessage::Heartbeat)));
}

#[test]
fn default_retry_policy() {
    let policy = RetryPolicy::default();
    assert_eq!(policy.handshake_retries, 2);
    assert_eq!(policy.send_retries, 2);
    assert_eq!(policy.retry_delay_ms, 5);
    let mut channel = ChannelState::new();
    channel.set_retry_policy(RetryPolicy { handshake_retries: 7, send_retries: 1, retry_delay_ms: 9 });
    assert_eq!(channel.retry_policy().handshake_retries, 7);
}

#[test]
fn wire_format_of_each_message() {
    assert_eq!(encode_plain_message(&TransportMessage::Hello).unwrap(), vec![0]);
    assert_eq!(encode_plain_message(&TransportMessage::PairConfirm).unwrap(), vec![2]);
    assert_eq!(encode_plain_message(&TransportMessage::Heartbeat).unwrap(), vec![5]);
    assert_eq!(
        encode_plain_message(&TransportMessage::PairInit { pairing_code: "123456".into() }).unwrap(),
        vec![1, 6, 0, 0, 0, b'1', b'2', b'3', b'4', b'5', b'6']
    );
    assert_eq!(
        encode_plain_message(&TransportMessage::Ack { event_id: "é".into() }).unwrap(),
        vec![4, 2, 0, 0, 0, 0xC3, 0xA9]
    );
    let bytes = encode_plain_message(&TransportMessage::ClipboardUpdate(event("e".into(), "d", "c"))).unwrap();
    let mut expected = vec![3, 1, 0, 0, 0, b'e', 1, 0, 0, 0, b'd', 3, 0, 0, 0, 0, 0, 0, 0, 1, 0, 0, 0, b'c'];
    expected.extend_from_slice(&42u128.to_le_bytes());
    assert_eq!(bytes, expected);
}

#[test]
fn decode_round_trips_and_ignores_trailing_bytes() {
    let message = TransportMessage::ClipboardUpdate(event("evt-9".into(), "dev", "hällo wörld"));
    let mut bytes = encode_plain_message(&message).unwrap();
    let Ok(TransportMessage::ClipboardUpdate(e)) = decode_plain_message(&bytes) else { panic!() };
    assert_eq!(e.payload.content, "hällo wörld");
    bytes.push(99);
    assert!(matches!(decode_plain_message(&bytes), Ok(TransportMessage::ClipboardUpdate(_))));
}

#[test]
fn decode_errors() {
    assert_eq!(decode_plain_message(&[]).err(), Some(TransportErrorCode::DecodeFailed));
    assert_eq!(decode_plain_message(&[6]).err(), Some(TransportErrorCode::DecodeFailed));
    assert_eq!(decode_plain_message(&[1, 6, 0, 0]).err(), Some(TransportErrorCode::DecodeFailed));
    assert_eq!(decode_plain_message(&[4, 2, 0, 0, 0, b'a']).err(), Some(TransportErrorCode::DecodeFailed));
    assert_eq!(decode_plain_message(&[4, 1, 0, 0, 0, 0xFF]).err(), Some(TransportErrorCode::DecodeFailed));
    assert_eq!(
        decode_plain_message(&[1, 3, 0, 0, 0, b'1', b'2', b'3']).err(),
        Some(TransportErrorCode::InvalidPairingCode)
    );
    assert_eq!(decode_plain_message(&[4, 0, 0, 0, 0]).err(), Some(TransportErrorCode::InvalidMessageField));
}

#[test]
fn field_limits() {
    let ok = TransportMessage::ClipboardUpdate(event("x".repeat(128), &"d".repeat(64), &"c".repeat(8192)));
    assert!(validate_message_fields(&ok).is_ok());
    let long_device = TransportMessage::ClipboardUpdate(event("x".into(), &"d".repeat(65), "c"));
    assert_eq!(validate_message_fields(&long_device), Err(TransportErrorCode::InvalidMessageField));
    let empty_device = TransportMessage::ClipboardUpdate(event("x".into(), "", "c"));
    assert_eq!(validate_message_fields(&empty_device), Err(TransportErrorCode::InvalidMessageField));
    let long_content = TransportMessage::ClipboardUpdate(event("x".into(), "d", &"c".repeat(8193)));
    assert_eq!(validate_message_fields(&long_content), Err(TransportErrorCode::InvalidMessageField));
    let empty_ack = TransportMessage::Ack { event_id: String::new() };
    assert_eq!(validate_message_fields(&empty_ack), Err(TransportErrorCode::InvalidMessageField));
    let long_ack = TransportMessage::Ack { event_id: "é".repeat(65) };
    assert_eq!(validate_message_fields(&long_ack), Err(TransportErrorCode::InvalidMessageField));
    let bad_code = TransportMessage::PairInit { pairing_code: "12345x".into() };
    assert_eq!(validate_message_fields(&bad_code), Err(TransportErrorCode::InvalidPairingCode));
}

#[test]
fn session_key_is_deterministic_and_32_bytes() {
    let a = derive_session_key("123456");
    let b = derive_session_key("123456");
    let c = derive_session_key("654321");
    assert_eq!(a.len(), 32);
    assert_eq!(a, b);
    assert_ne!(a, c);
}

#[test]
fn cipher_round_trips() {
    let key = vec![1u8, 2, 3];
    let data = vec![10u8, 20, 30, 40, 50];
    let sealed = encrypt_payload(data.clone(), &key);
    assert_eq!(sealed, vec![11, 22, 29, 41, 48]);
    assert_eq!(decrypt_payload(&sealed, &key), data);
}

#[test]
fn retry_budget_allows_retries_plus_one_attempts() {
    let policy = RetryPolicy { handshake_retries: 2, send_retries: 1, retry_delay_ms: 5 };
    let mut send = RetryBudget::for_phase(policy, RetryPhase::Send);
    assert_eq!(send.after_failure(), RetryStep::Retry { delay_ms: 5 });
    assert_eq!(send.after_failure(), RetryStep::GiveUp(TransportErrorCode::SendFailed));
    let mut handshake = ChannelState::new().retry_budget(RetryPhase::Handshake);
    assert_eq!(handshake.after_failure(), RetryStep::Retry { delay_ms: 5 });
    assert_eq!(handshake.after_failure(), RetryStep::Retry { delay_ms: 5 });
    assert_eq!(handshake.after_failure(), RetryStep::GiveUp(TransportErrorCode::HandshakeTimeout));
    assert_eq!(handshake.after_failure(), RetryStep::GiveUp(TransportErrorCode::HandshakeTimeout));
}

#[test]
fn cipher_of_empty_data_needs_no_key() {
    assert!(encrypt_payload(Vec::new(), &[]).is_empty());
    assert!(decrypt_payload(&[], &[]).is_empty());
}

#[test]
fn written_string_reads_back_leaving_the_rest() {
    let mut out: Vec<u8> = vec![9];
    assert!(write_string(&mut out, "héllo").is_ok());
    assert_eq!(&out[1..5], &[6u8, 0, 0, 0]);
    out.extend_from_slice(&[7, 8]);
    let (text, pos) = read_string(&out, 1).expect("read back");
    assert_eq!(text, "héllo");
    assert_eq!(&out[pos..], &[7u8, 8]);
    assert_eq!(read_string(&[1, 0, 0], 0).err(), Some(TransportErrorCode::DecodeFailed));
    assert_eq!(read_string(&[2, 0, 0, 0, 65], 0).err(), Some(TransportErrorCode::DecodeFailed));
    assert_eq!(read_string(&[1, 0, 0, 0, 0xff], 0).err(), Some(TransportErrorCode::DecodeFailed));
}
