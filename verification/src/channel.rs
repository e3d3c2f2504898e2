//! The secure channel between two devices: the retry policy, the interface
//! of a channel, and the decisions of pairing, sealing and opening frames.
//! Moving datagrams and waiting between attempts are left to the caller.
use vstd::prelude::*;

use crate::codec::{decode_plain_message, decode_spec, encode_plain_message, encode_spec, lemma_decode_encode};
use crate::crypto::{decrypt_payload, derive_session_key, encrypt_payload, lemma_xor_involution, xor_with_key};
use crate::message::{field_check, valid_pairing_code, MessageView, TransportErrorCode, TransportMessage};

verus! {

/// How often a channel retries, and how long it waits in between.
#[derive(Debug, Clone, Copy)]
pub struct RetryPolicy {
    /// Extra attempts of each handshake step.
    pub handshake_retries: u8,
    /// Extra attempts of sending a message.
    pub send_retries: u8,
    /// Pause between attempts, in milliseconds.
    pub retry_delay_ms: u64,
}

impl Default for RetryPolicy {
    /// Two handshake retries, two send retries, 5 ms apart.
    fn default() -> (out: Self)
        ensures
            out.handshake_retries == 2,
            out.send_retries == 2,
            out.retry_delay_ms == 5,
    {
        RetryPolicy { handshake_retries: 2, send_retries: 2, retry_delay_ms: 5 }
    }
}

/// The stage an operation that is retried belongs to.
#[derive(Debug, Clone, Copy, PartialEq, Eq, Structural)]
pub enum RetryPhase {
    /// A step of the pairing handshake.
    Handshake,
    /// Sending a message on a paired channel.
    Send,
}

/// What to do after a failed attempt.
#[derive(Debug, Clone, Copy, PartialEq, Eq, Structural)]
pub enum RetryStep {
    /// Wait `delay_ms` milliseconds and try again.
    Retry { delay_ms: u64 },
    /// Stop and report the error.
    GiveUp(TransportErrorCode),
}

/// The error with which a phase gives up once its retries are spent:
/// `HandshakeTimeout` for the handshake, `SendFailed` for sending.
pub open spec fn exhausted_error(phase: RetryPhase) -> TransportErrorCode {
    match phase {
        RetryPhase::Handshake => TransportErrorCode::HandshakeTimeout,
        RetryPhase::Send => TransportErrorCode::SendFailed,
    }
}

/// The retries an operation has left.
pub struct RetryBudget {
    phase: RetryPhase,
    retries_left: u8,
    delay_ms: u64,
}

impl RetryBudget {
    /// The phase the budget belongs to.
    pub closed spec fn phase_spec(&self) -> RetryPhase {
        self.phase
    }

    /// The retries left.
    pub closed spec fn retries_left_spec(&self) -> u8 {
        self.retries_left
    }

    /// The pause between attempts, in milliseconds.
    pub closed spec fn delay_spec(&self) -> u64 {
        self.delay_ms
    }

    /// The budget of a phase under `policy`: the handshake's or the send
    /// retries, with the policy's pause.
    pub fn for_phase(policy: RetryPolicy, phase: RetryPhase) -> (out: Self)
        ensures
            out.phase_spec() == phase,
            out.retries_left_spec() == match phase {
                RetryPhase::Handshake => policy.handshake_retries,
                RetryPhase::Send => policy.send_retries,
            },
            out.delay_spec() == policy.retry_delay_ms,
    {
        let retries_left = match phase {
            RetryPhase::Handshake => policy.handshake_retries,
            RetryPhase::Send => policy.send_retries,
        };
        RetryBudget { phase, retries_left, delay_ms: policy.retry_delay_ms }
    }

    /// After a failed attempt: retry after the pause while retries are
    /// left, spending one; otherwise give up with the phase's error.
    pub fn after_failure(&mut self) -> (step: RetryStep)
        ensures
            final(self).phase_spec() == old(self).phase_spec(),
            final(self).delay_spec() == old(self).delay_spec(),
            old(self).retries_left_spec() > 0 ==> step == (RetryStep::Retry {
                delay_ms: old(self).delay_spec(),
            }) && final(self).retries_left_spec() == old(self).retries_left_spec() - 1,
            old(self).retries_left_spec() == 0 ==> step == RetryStep::GiveUp(
                exhausted_error(old(self).phase_spec()),
            ) && final(self).retries_left_spec() == 0,
    {
        if self.retries_left > 0 {
            self.retries_left = self.retries_left - 1;
            RetryStep::Retry { delay_ms: self.delay_ms }
        } else {
            match self.phase {
                RetryPhase::Handshake => RetryStep::GiveUp(TransportErrorCode::HandshakeTimeout),
                RetryPhase::Send => RetryStep::GiveUp(TransportErrorCode::SendFailed),
            }
        }
    }
}

/// A channel over which paired devices exchange messages.
pub trait SecureChannel {
    /// Pairs with the device that uses the same pairing code.
    fn pair_with_code(&mut self, pairing_code: &str) -> Result<(), TransportErrorCode>;

    /// Sends a message to the paired device.
    fn send(&mut self, message: TransportMessage) -> Result<(), TransportErrorCode>;

    /// Receives the next message, `None` when none arrived in time.
    fn recv(&mut self) -> Result<Option<TransportMessage>, TransportErrorCode>;

    /// Whether the channel is paired.
    fn is_paired(&self) -> bool;
}

/// The security state of a channel: whether it is paired, the session key
/// that pairing established, and the retry policy.
pub struct ChannelState {
    paired: bool,
    session_key: Option<Vec<u8>>,
    retry_policy: RetryPolicy,
}

/// The frame a message travels in over a channel keyed with `key`.
pub open spec fn sealed_frame(m: MessageView, key: Seq<u8>) -> Seq<u8> {
    xor_with_key(encode_spec(m), key)
}

/// What opening a frame with `key` yields.
pub open spec fn opened_frame(frame: Seq<u8>, key: Seq<u8>) -> Result<MessageView, TransportErrorCode> {
    decode_spec(xor_with_key(frame, key))
}

impl ChannelState {
    #[verifier::type_invariant]
    closed spec fn key_is_full(&self) -> bool {
        self.session_key matches Some(k) ==> k@.len() == 32
    }

    /// Whether the channel is paired.
    pub closed spec fn paired_spec(&self) -> bool {
        self.paired
    }

    /// The session key, once pairing has established one.
    pub closed spec fn key_spec(&self) -> Option<Seq<u8>> {
        match self.session_key {
            Some(k) => Some(k@),
            None => None,
        }
    }

    /// The retry policy.
    pub closed spec fn policy_spec(&self) -> RetryPolicy {
        self.retry_policy
    }

    /// An unpaired channel with the default retry policy.
    pub fn new() -> (out: Self)
        ensures
            !out.paired_spec(),
            out.key_spec() is None,
            out.policy_spec() == (RetryPolicy { handshake_retries: 2, send_retries: 2, retry_delay_ms: 5 }),
    {
        ChannelState { paired: false, session_key: None, retry_policy: RetryPolicy::default() }
    }

    /// Whether the channel is paired.
    pub fn is_paired(&self) -> (out: bool)
        ensures
            out == self.paired_spec(),
    {
        self.paired
    }

    /// The retry policy.
    pub fn retry_policy(&self) -> (out: RetryPolicy)
        ensures
            out == self.policy_spec(),
    {
        self.retry_policy
    }

    /// The retry budget of a phase under the channel's policy.
    pub fn retry_budget(&self, phase: RetryPhase) -> (out: RetryBudget)
        ensures
            out.phase_spec() == phase,
            out.retries_left_spec() == match phase {
                RetryPhase::Handshake => self.policy_spec().handshake_retries,
                RetryPhase::Send => self.policy_spec().send_retries,
            },
            out.delay_spec() == self.policy_spec().retry_delay_ms,
    {
        RetryBudget::for_phase(self.retry_policy, phase)
    }

    /// Replaces the retry policy.
    pub fn set_retry_policy(&mut self, retry_policy: RetryPolicy)
        ensures
            final(self).policy_spec() == retry_policy,
            final(self).paired_spec() == old(self).paired_spec(),
            final(self).key_spec() == old(self).key_spec(),
    {
        proof {
            use_type_invariant(&*self);
        }
        self.retry_policy = retry_policy;
    }

    /// First step of pairing: refuses a code that is not six digits, leaving
    /// the channel as it was; otherwise unpairs the channel and returns the
    /// plain `PairInit` frame to send.
    pub fn begin_pairing(&mut self, pairing_code: &str) -> (res: Result<Vec<u8>, TransportErrorCode>)
        ensures
            final(self).policy_spec() == old(self).policy_spec(),
            !valid_pairing_code(pairing_code@) ==> res == Err::<Vec<u8>, TransportErrorCode>(
                TransportErrorCode::InvalidPairingCode,
            ) && final(self).paired_spec() == old(self).paired_spec() && final(self).key_spec()
                == old(self).key_spec(),
            valid_pairing_code(pairing_code@) ==> (res matches Ok(frame) && frame@ == encode_spec(
                MessageView::PairInit(pairing_code@),
            )) && !final(self).paired_spec() && final(self).key_spec() is None,
    {
        proof {
            use_type_invariant(&*self);
        }
        if !crate::message::is_valid_pairing_code(pairing_code) {
            return Err(TransportErrorCode::InvalidPairingCode);
        }
        self.paired = false;
        self.session_key = None;
        let init = TransportMessage::PairInit { pairing_code: String::from_str(pairing_code) };
        encode_plain_message(&init)
    }

    /// Whether a received plain frame answers the pairing with the same
    /// code: it decodes to a `PairInit` carrying `pairing_code`.
    pub fn is_init_reply(frame: &[u8], pairing_code: &str) -> (out: bool)
        ensures
            out == (decode_spec(frame@) == Ok::<MessageView, TransportErrorCode>(
                MessageView::PairInit(pairing_code@),
            )),
    {
        match decode_plain_message(frame) {
            Ok(TransportMessage::PairInit { pairing_code: code }) => code == String::from_str(pairing_code),
            _ => false,
        }
    }

    /// Second step of pairing, once the other side answered: keys the
    /// channel with the session key derived from `pairing_code`, marks it
    /// paired, and returns the `PairConfirm` frame sealed under that key.
    pub fn confirm_pairing(&mut self, pairing_code: &str) -> (frame: Vec<u8>)
        ensures
            final(self).paired_spec(),
            final(self).key_spec() matches Some(k) && k.len() == 32 && frame@ == sealed_frame(
                MessageView::PairConfirm,
                k,
            ),
            final(self).policy_spec() == old(self).policy_spec(),
    {
        let key = derive_session_key(pairing_code);
        let mut plain: Vec<u8> = Vec::new();
        plain.push(2);
        assert(plain@ =~= encode_spec(MessageView::PairConfirm));
        let frame = encrypt_payload(plain, key.as_slice());
        self.session_key = Some(key);
        self.paired = true;
        frame
    }

    /// Abandons a handshake that did not complete in time: unpairs the
    /// channel and returns `HandshakeTimeout`.
    pub fn fail_handshake(&mut self) -> (err: TransportErrorCode)
        ensures
            err == TransportErrorCode::HandshakeTimeout,
            !final(self).paired_spec(),
            final(self).key_spec() is None,
            final(self).policy_spec() == old(self).policy_spec(),
    {
        proof {
            use_type_invariant(&*self);
        }
        self.paired = false;
        self.session_key = None;
        TransportErrorCode::HandshakeTimeout
    }

    /// `NotPaired` unless the channel is paired.
    pub fn check_paired(&self) -> (res: Result<(), TransportErrorCode>)
        ensures
            self.paired_spec() ==> res is Ok,
            !self.paired_spec() ==> res == Err::<(), TransportErrorCode>(TransportErrorCode::NotPaired),
    {
        if self.paired {
            Ok(())
        } else {
            Err(TransportErrorCode::NotPaired)
        }
    }

    /// The frame in which `message` is sent: refused with `NotPaired` on an
    /// unpaired channel, with the field error of an invalid message, and
    /// otherwise encoded and encrypted with the session key.
    pub fn seal(&self, message: &TransportMessage) -> (res: Result<Vec<u8>, TransportErrorCode>)
        ensures
            !self.paired_spec() ==> res == Err::<Vec<u8>, TransportErrorCode>(TransportErrorCode::NotPaired),
            self.paired_spec() ==> match field_check(message@) {
                Err(e) => res == Err::<Vec<u8>, TransportErrorCode>(e),
                Ok(_) => match self.key_spec() {
                    Some(k) => res matches Ok(f) && f@ == sealed_frame(message@, k),
                    None => res == Err::<Vec<u8>, TransportErrorCode>(TransportErrorCode::HandshakeFailed),
                },
            },
    {
        proof {
            use_type_invariant(self);
        }
        if !self.paired {
            return Err(TransportErrorCode::NotPaired);
        }
        let encoded = encode_plain_message(message)?;
        match &self.session_key {
            Some(key) => Ok(encrypt_payload(encoded, key.as_slice())),
            None => Err(TransportErrorCode::HandshakeFailed),
        }
    }

    /// The message a received frame holds: refused with `NotPaired` on an
    /// unpaired channel, otherwise decrypted with the session key and
    /// decoded.
    pub fn open(&self, frame: &[u8]) -> (res: Result<TransportMessage, TransportErrorCode>)
        ensures
            !self.paired_spec() ==> (res matches Err(e) && e == TransportErrorCode::NotPaired),
            self.paired_spec() ==> match self.key_spec() {
                Some(k) => match opened_frame(frame@, k) {
                    Ok(m) => res matches Ok(msg) && msg@ == m,
                    Err(e) => res matches Err(f) && f == e,
                },
                None => res matches Err(e) && e == TransportErrorCode::HandshakeFailed,
            },
    {
        proof {
            use_type_invariant(self);
        }
        if !self.paired {
            return Err(TransportErrorCode::NotPaired);
        }
        match &self.session_key {
            Some(key) => {
                let plain = decrypt_payload(frame, key.as_slice());
                decode_plain_message(plain.as_slice())
            },
            None => Err(TransportErrorCode::HandshakeFailed),
        }
    }
}

impl Default for ChannelState {
    fn default() -> (out: Self)
        ensures
            !out.paired_spec(),
            out.key_spec() is None,
    {
        ChannelState::new()
    }
}

/// What one side seals, the other side opens: between channels that hold
/// the same session key, every message that meets the field constraints
/// arrives as itself.
pub proof fn lemma_sealed_frame_opens(m: MessageView, key: Seq<u8>)
    requires
        field_check(m) is Ok,
        key.len() > 0,
    ensures
        opened_frame(sealed_frame(m, key), key) == Ok::<MessageView, TransportErrorCode>(m),
{
    lemma_xor_involution(encode_spec(m), key);
    lemma_decode_encode(m);
}

/// The frame that starts a pairing is recognised as a reply by a device
/// pairing with the same code.
pub proof fn lemma_init_frame_is_reply(pairing_code: Seq<char>)
    requires
        valid_pairing_code(pairing_code),
    ensures
        decode_spec(encode_spec(MessageView::PairInit(pairing_code))) == Ok::<MessageView, TransportErrorCode>(
            MessageView::PairInit(pairing_code),
        ),
{
    lemma_decode_encode(MessageView::PairInit(pairing_code));
}

} // verus!
