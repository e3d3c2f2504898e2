use syncer::channel::ChannelState;
use syncer::handshake::{Handshake, HandshakeAction, HandshakeEvent};
use syncer::message::{TransportErrorCode, TransportMessage};

fn sent_frame(action: HandshakeAction) -> Vec<u8> {
    match action {
        HandshakeAction::Send(frame) => frame,
        _ => panic!("expected a frame to send"),
    }
}

#[test]
fn handshake_between_two_devices_pairs_both() {
    let mut left = ChannelState::new();
    let mut right = ChannelState::new();
    let (mut lh, la) = Handshake::begin(&mut left, "123456");
    let (mut rh, ra) = Handshake::begin(&mut right, "123456");
    let left_init = sent_frame(la);
    let right_init = sent_frame(ra);
    assert!(matches!(lh.step(&mut left, HandshakeEvent::Sent), HandshakeAction::Receive));
    assert!(matches!(rh.step(&mut right, HandshakeEvent::Sent), HandshakeAction::Receive));
    let left_confirm = sent_frame(lh.step(&mut left, HandshakeEvent::Frame(right_init)));
    let right_confirm = sent_frame(rh.step(&mut right, HandshakeEvent::Frame(left_init)));
    assert!(left.is_paired() && right.is_paired());
    assert!(matches!(lh.step(&mut left, HandshakeEvent::Sent), HandshakeAction::Receive));
    assert!(matches!(rh.step(&mut right, HandshakeEvent::Sent), HandshakeAction::Receive));
    assert!(matches!(lh.step(&mut left, HandshakeEvent::Frame(right_confirm)), HandshakeAction::Finish(Ok(()))));
    assert!(matches!(rh.step(&mut right, HandshakeEvent::Frame(left_confirm)), HandshakeAction::Finish(Ok(()))));
    assert!(lh.is_finished() && rh.is_finished());

    let frame = left.seal(&TransportMessage::Hello).expect("seal");
    assert!(matches!(right.open(&frame), Ok(TransportMessage::Hello)));
}

#[test]
fn handshake_refuses_invalid_code_at_once() {
    let mut channel = ChannelState::new();
    let (handshake, action) = Handshake::begin(&mut channel, "12ab56");
    assert!(matches!(action, HandshakeAction::Finish(Err(TransportErrorCode::InvalidPairingCode))));
    assert!(handshake.is_finished());
    assert!(!handshake.awaits(&HandshakeEvent::Sent));
}

#[test]
fn handshake_send_failure_times_out_and_unpairs() {
    let mut channel = ChannelState::new();
    let (mut handshake, _) = Handshake::begin(&mut channel, "123456");
    let action = handshake.step(&mut channel, HandshakeEvent::SendFailed);
    assert!(matches!(action, HandshakeAction::Finish(Err(TransportErrorCode::HandshakeTimeout))));
    assert!(!channel.is_paired());
}

#[test]
fn handshake_waits_for_reply_within_budget() {
    let mut channel = ChannelState::new();
    let (mut handshake, _) = Handshake::begin(&mut channel, "123456");
    handshake.step(&mut channel, HandshakeEvent::Sent);
    // default policy: two retries after the first attempt
    for _ in 0..2 {
        assert!(matches!(handshake.step(&mut channel, HandshakeEvent::NoFrame), HandshakeAction::Sleep(5)));
        assert!(matches!(handshake.step(&mut channel, HandshakeEvent::Slept), HandshakeAction::Receive));
    }
    assert!(matches!(
        handshake.step(&mut channel, HandshakeEvent::RecvFailed(TransportErrorCode::RecvFailed)),
        HandshakeAction::Sleep(5)
    ));
    assert!(matches!(
        handshake.step(&mut channel, HandshakeEvent::Slept),
        HandshakeAction::Finish(Err(TransportErrorCode::HandshakeTimeout))
    ));
    assert!(handshake.is_finished());
    assert!(!channel.is_paired());
}

#[test]
fn handshake_ignores_reply_with_other_code() {
    let mut other = ChannelState::new();
    let (_, other_action) = Handshake::begin(&mut other, "654321");
    let other_init = sent_frame(other_action);
    let mut channel = ChannelState::new();
    let (mut handshake, _) = Handshake::begin(&mut channel, "123456");
    handshake.step(&mut channel, HandshakeEvent::Sent);
    assert!(matches!(handshake.step(&mut channel, HandshakeEvent::Frame(other_init)), HandshakeAction::Sleep(5)));
    assert!(!channel.is_paired());
}

#[test]
fn handshake_confirm_phase_reports_receive_error() {
    let mut channel = ChannelState::new();
    let (mut handshake, init) = Handshake::begin(&mut channel, "123456");
    let init = sent_frame(init);
    handshake.step(&mut channel, HandshakeEvent::Sent);
    sent_frame(handshake.step(&mut channel, HandshakeEvent::Frame(init)));
    handshake.step(&mut channel, HandshakeEvent::Sent);
    assert!(matches!(
        handshake.step(&mut channel, HandshakeEvent::RecvFailed(TransportErrorCode::RecvFailed)),
        HandshakeAction::Finish(Err(TransportErrorCode::RecvFailed))
    ));
    assert!(channel.is_paired());
}

#[test]
fn handshake_confirm_send_failure_keeps_channel_keyed() {
    let mut channel = ChannelState::new();
    let (mut handshake, init) = Handshake::begin(&mut channel, "123456");
    let init = sent_frame(init);
    handshake.step(&mut channel, HandshakeEvent::Sent);
    sent_frame(handshake.step(&mut channel, HandshakeEvent::Frame(init)));
    let action = handshake.step(&mut channel, HandshakeEvent::SendFailed);
    assert!(matches!(action, HandshakeAction::Finish(Err(TransportErrorCode::HandshakeTimeout))));
    assert!(handshake.is_finished());
    assert!(channel.is_paired());
    let frame = channel.seal(&TransportMessage::Hello).expect("still keyed");
    assert!(matches!(channel.open(&frame), Ok(TransportMessage::Hello)));
}
