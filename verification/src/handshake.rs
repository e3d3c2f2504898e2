//! The pairing handshake as a state machine: each step takes what the last
//! action came to and decides the next action. Sending, receiving and
//! waiting are left to the caller.
//!
//! A device announces its pairing code with a plain `PairInit` frame,
//! waits for the same announcement from its peer, then keys its channel
//! and sends a sealed `PairConfirm`, and waits for the peer's. Each wait
//! is retried within the handshake's budget.
use vstd::prelude::*;

use crate::channel::{opened_frame, sealed_frame, ChannelState, RetryBudget, RetryPhase, RetryStep};
use crate::codec::{decode_spec, encode_spec};
use crate::message::{valid_pairing_code, MessageView, TransportErrorCode, TransportMessage};

verus! {

/// Where a handshake stands.
#[derive(Debug, Clone, Copy, PartialEq, Eq, Structural)]
pub enum HandshakePhase {
    /// The `PairInit` frame is being sent.
    SendingInit,
    /// Waiting for the peer's `PairInit` with the same code.
    AwaitingReply,
    /// The sealed `PairConfirm` frame is being sent.
    SendingConfirm,
    /// Waiting for the peer's `PairConfirm`.
    AwaitingConfirm,
    /// The handshake is over.
    Finished,
}

/// What the caller's last action came to.
pub enum HandshakeEvent {
    /// The frame was sent.
    Sent,
    /// Sending the frame failed even after its retries.
    SendFailed,
    /// A frame arrived.
    Frame(Vec<u8>),
    /// No frame arrived in time.
    NoFrame,
    /// Receiving failed.
    RecvFailed(TransportErrorCode),
    /// The pause is over.
    Slept,
}

/// What the caller does next.
pub enum HandshakeAction {
    /// Send this frame, retrying within the handshake's budget.
    Send(Vec<u8>),
    /// Receive one frame.
    Receive,
    /// Pause for this many milliseconds.
    Sleep(u64),
    /// The handshake is over, with this outcome.
    Finish(Result<(), TransportErrorCode>),
}

/// Whether a phase awaits an event: a sending phase awaits the outcome of
/// a send, a waiting phase that of a receive or of a pause, and a finished
/// handshake awaits nothing.
pub open spec fn awaits_spec(phase: HandshakePhase, event: HandshakeEvent) -> bool {
    match phase {
        HandshakePhase::SendingInit | HandshakePhase::SendingConfirm => event is Sent
            || event is SendFailed,
        HandshakePhase::AwaitingReply | HandshakePhase::AwaitingConfirm => !(event is Sent)
            && !(event is SendFailed),
        HandshakePhase::Finished => false,
    }
}

/// What receiving `frame` on a channel yields (as `ChannelState::open`).
pub open spec fn received(channel: ChannelState, frame: Seq<u8>) -> Result<MessageView, TransportErrorCode> {
    if !channel.paired_spec() {
        Err(TransportErrorCode::NotPaired)
    } else {
        match channel.key_spec() {
            Some(k) => opened_frame(frame, k),
            None => Err(TransportErrorCode::HandshakeFailed),
        }
    }
}

/// Whether two channel states agree on pairing, key and policy.
pub open spec fn same_channel(a: ChannelState, b: ChannelState) -> bool {
    &&& a.paired_spec() == b.paired_spec()
    &&& a.key_spec() == b.key_spec()
    &&& a.policy_spec() == b.policy_spec()
}

/// Whether `after` is `before` with the handshake abandoned: unpaired and
/// without a key, the policy kept.
pub open spec fn abandoned(before: ChannelState, after: ChannelState) -> bool {
    &&& !after.paired_spec()
    &&& after.key_spec() is None
    &&& after.policy_spec() == before.policy_spec()
}

/// The abstract state of a handshake.
pub struct HandshakeView {
    pub code: Seq<char>,
    pub phase: HandshakePhase,
    /// Retries left in the current wait.
    pub retries_left: u8,
}

/// A pairing handshake in progress.
pub struct Handshake {
    pairing_code: String,
    phase: HandshakePhase,
    budget: RetryBudget,
}

impl View for Handshake {
    type V = HandshakeView;

    closed spec fn view(&self) -> HandshakeView {
        HandshakeView {
            code: self.pairing_code@,
            phase: self.phase,
            retries_left: self.budget.retries_left_spec(),
        }
    }
}

impl Handshake {
    /// Starts pairing `channel` with `pairing_code`. A code that is not six
    /// digits finishes at once with `InvalidPairingCode` and leaves the
    /// channel as it was; otherwise the channel is unpaired and the plain
    /// `PairInit` frame is to be sent.
    pub fn begin(channel: &mut ChannelState, pairing_code: &str) -> (out: (Handshake, HandshakeAction))
        ensures
            out.0@.code == pairing_code@,
            !valid_pairing_code(pairing_code@) ==> {
                &&& out.0@.phase == HandshakePhase::Finished
                &&& out.1 == HandshakeAction::Finish(
                    Err::<(), TransportErrorCode>(TransportErrorCode::InvalidPairingCode),
                )
                &&& same_channel(*old(channel), *final(channel))
            },
            valid_pairing_code(pairing_code@) ==> {
                &&& out.0@.phase == HandshakePhase::SendingInit
                &&& out.1 matches HandshakeAction::Send(f) && f@ == encode_spec(
                    MessageView::PairInit(pairing_code@),
                )
                &&& abandoned(*old(channel), *final(channel))
            },
    {
        let budget = channel.retry_budget(RetryPhase::Handshake);
        let code = String::from_str(pairing_code);
        match channel.begin_pairing(pairing_code) {
            Ok(frame) => (
                Handshake { pairing_code: code, phase: HandshakePhase::SendingInit, budget },
                HandshakeAction::Send(frame),
            ),
            Err(e) => (
                Handshake { pairing_code: code, phase: HandshakePhase::Finished, budget },
                HandshakeAction::Finish(Err(e)),
            ),
        }
    }

    /// Whether the handshake awaits `event` (see `awaits_spec`).
    pub fn awaits(&self, event: &HandshakeEvent) -> (out: bool)
        ensures
            out == awaits_spec(self@.phase, *event),
    {
        match self.phase {
            HandshakePhase::SendingInit | HandshakePhase::SendingConfirm => match event {
                HandshakeEvent::Sent | HandshakeEvent::SendFailed => true,
                _ => false,
            },
            HandshakePhase::AwaitingReply | HandshakePhase::AwaitingConfirm => match event {
                HandshakeEvent::Sent | HandshakeEvent::SendFailed => false,
                _ => true,
            },
            HandshakePhase::Finished => false,
        }
    }

    /// Whether the handshake is over.
    pub fn is_finished(&self) -> (out: bool)
        ensures
            out == (self@.phase == HandshakePhase::Finished),
    {
        self.phase == HandshakePhase::Finished
    }

    /// A failed wait: retry (receive again) while the budget lasts,
    /// otherwise abandon the handshake with `HandshakeTimeout`.
    fn retry_or_give_up(&mut self, channel: &mut ChannelState) -> (action: HandshakeAction)
        ensures
            final(self)@.code == old(self)@.code,
            old(self)@.retries_left > 0 ==> {
                &&& final(self)@ == (HandshakeView {
                    retries_left: (old(self)@.retries_left - 1) as u8,
                    ..old(self)@
                })
                &&& action == HandshakeAction::Receive
                &&& same_channel(*old(channel), *final(channel))
            },
            old(self)@.retries_left == 0 ==> {
                &&& final(self)@.phase == HandshakePhase::Finished
                &&& action == HandshakeAction::Finish(
                    Err::<(), TransportErrorCode>(TransportErrorCode::HandshakeTimeout),
                )
                &&& abandoned(*old(channel), *final(channel))
            },
    {
        match self.budget.after_failure() {
            RetryStep::Retry { .. } => HandshakeAction::Receive,
            RetryStep::GiveUp(_) => {
                self.phase = HandshakePhase::Finished;
                HandshakeAction::Finish(Err(channel.fail_handshake()))
            },
        }
    }

    /// Takes what the last action came to and decides the next one.
    ///
    /// - A sent frame moves on to waiting, with a fresh handshake budget;
    ///   a send that failed finishes the handshake with `HandshakeTimeout`
    ///   and leaves the channel as it is: unpaired when the `PairInit`
    ///   frame failed, still paired and keyed when the `PairConfirm` frame
    ///   did (as after a failed receive while awaiting the confirmation).
    /// - Waiting for the reply: the peer's `PairInit` with the same code
    ///   keys the channel and has the sealed `PairConfirm` sent; anything
    ///   else (another frame, none, a failed receive) means a pause.
    /// - Waiting for the confirmation: the peer's `PairConfirm` finishes the
    ///   handshake successfully; another message, or none, means a pause;
    ///   a frame that does not open, or a failed receive, finishes it with
    ///   that error.
    /// - After a pause, the wait is retried while the budget lasts, and the
    ///   handshake is abandoned with `HandshakeTimeout` once it is spent.
    pub fn step(&mut self, channel: &mut ChannelState, event: HandshakeEvent) -> (action: HandshakeAction)
        requires
            awaits_spec(old(self)@.phase, event),
        ensures
            final(self)@.code == old(self)@.code,
            final(channel).policy_spec() == old(channel).policy_spec(),
            ({
                let s = old(self)@;
                let pause = HandshakeAction::Sleep(old(channel).policy_spec().retry_delay_ms);
                let unchanged = final(self)@ == s && same_channel(*old(channel), *final(channel));
                let abandon = final(self)@.phase == HandshakePhase::Finished && action
                    == HandshakeAction::Finish(
                    Err::<(), TransportErrorCode>(TransportErrorCode::HandshakeTimeout),
                ) && abandoned(*old(channel), *final(channel));
                match event {
                    HandshakeEvent::Sent => {
                        &&& final(self)@.phase == (if s.phase == HandshakePhase::SendingInit {
                            HandshakePhase::AwaitingReply
                        } else {
                            HandshakePhase::AwaitingConfirm
                        })
                        &&& final(self)@.retries_left == old(channel).policy_spec().handshake_retries
                        &&& action == HandshakeAction::Receive
                        &&& same_channel(*old(channel), *final(channel))
                    },
                    HandshakeEvent::SendFailed => {
                        &&& final(self)@ == (HandshakeView { phase: HandshakePhase::Finished, ..s })
                        &&& action == HandshakeAction::Finish(
                            Err::<(), TransportErrorCode>(TransportErrorCode::HandshakeTimeout),
                        )
                        &&& same_channel(*old(channel), *final(channel))
                    },
                    HandshakeEvent::Slept => if s.retries_left > 0 {
                        &&& final(self)@ == (HandshakeView {
                            retries_left: (s.retries_left - 1) as u8,
                            ..s
                        })
                        &&& action == HandshakeAction::Receive
                        &&& same_channel(*old(channel), *final(channel))
                    } else {
                        abandon
                    },
                    HandshakeEvent::Frame(f) => if s.phase == HandshakePhase::AwaitingReply {
                        if decode_spec(f@) == Ok::<MessageView, TransportErrorCode>(
                            MessageView::PairInit(s.code),
                        ) {
                            &&& final(self)@ == (HandshakeView {
                                phase: HandshakePhase::SendingConfirm,
                                ..s
                            })
                            &&& final(channel).paired_spec()
                            &&& final(channel).key_spec() matches Some(k) && (k.len() == 32
                                && (action matches HandshakeAction::Send(c) && c@ == sealed_frame(
                                MessageView::PairConfirm,
                                k,
                            )))
                        } else {
                            unchanged && action == pause
                        }
                    } else {
                        match received(*old(channel), f@) {
                            Ok(MessageView::PairConfirm) => {
                                &&& final(self)@ == (HandshakeView {
                                    phase: HandshakePhase::Finished,
                                    ..s
                                })
                                &&& action == HandshakeAction::Finish(
                                    Ok::<(), TransportErrorCode>(()),
                                )
                                &&& same_channel(*old(channel), *final(channel))
                            },
                            Ok(_) => unchanged && action == pause,
                            Err(e) => {
                                &&& final(self)@ == (HandshakeView {
                                    phase: HandshakePhase::Finished,
                                    ..s
                                })
                                &&& action == HandshakeAction::Finish(Err::<(), TransportErrorCode>(e))
                                &&& same_channel(*old(channel), *final(channel))
                            },
                        }
                    },
                    HandshakeEvent::NoFrame => unchanged && action == pause,
                    HandshakeEvent::RecvFailed(e) => if s.phase == HandshakePhase::AwaitingReply {
                        unchanged && action == pause
                    } else {
                        &&& final(self)@ == (HandshakeView { phase: HandshakePhase::Finished, ..s })
                        &&& action == HandshakeAction::Finish(Err::<(), TransportErrorCode>(e))
                        &&& same_channel(*old(channel), *final(channel))
                    },
                }
            }),
    {
        let delay = channel.retry_policy().retry_delay_ms;
        match event {
            HandshakeEvent::Sent => {
                self.phase = if self.phase == HandshakePhase::SendingInit {
                    HandshakePhase::AwaitingReply
                } else {
                    HandshakePhase::AwaitingConfirm
                };
                self.budget = channel.retry_budget(RetryPhase::Handshake);
                HandshakeAction::Receive
            },
            HandshakeEvent::SendFailed => {
                self.phase = HandshakePhase::Finished;
                HandshakeAction::Finish(Err(TransportErrorCode::HandshakeTimeout))
            },
            HandshakeEvent::Slept => self.retry_or_give_up(channel),
            HandshakeEvent::Frame(frame) => {
                if self.phase == HandshakePhase::AwaitingReply {
                    if ChannelState::is_init_reply(frame.as_slice(), self.pairing_code.as_str()) {
                        let confirm = channel.confirm_pairing(self.pairing_code.as_str());
                        self.phase = HandshakePhase::SendingConfirm;
                        HandshakeAction::Send(confirm)
                    } else {
                        HandshakeAction::Sleep(delay)
                    }
                } else {
                    match channel.open(frame.as_slice()) {
                        Ok(TransportMessage::PairConfirm) => {
                            self.phase = HandshakePhase::Finished;
                            HandshakeAction::Finish(Ok(()))
                        },
                        Ok(_) => HandshakeAction::Sleep(delay),
                        Err(e) => {
                            self.phase = HandshakePhase::Finished;
                            HandshakeAction::Finish(Err(e))
                        },
                    }
                }
            },
            HandshakeEvent::NoFrame => HandshakeAction::Sleep(delay),
            HandshakeEvent::RecvFailed(e) => {
                if self.phase == HandshakePhase::AwaitingReply {
                    HandshakeAction::Sleep(delay)
                } else {
                    self.phase = HandshakePhase::Finished;
                    HandshakeAction::Finish(Err(e))
                }
            },
        }
    }
}

} // verus!
