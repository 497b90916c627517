//! The client advertisement attempt as a verified state machine.
//!
//! The attempt runs at the process edge as a background task that connects,
//! sleeps, and writes.  Every decision of that task is made here: which
//! state follows which event, which status event is emitted for it, and
//! which bytes are written.  The edge performs the returned action and
//! reports its outcome back as the next event.
use vstd::prelude::*;

verus! {

use crate::codec::{enc_message, encodable, encode_advertise};
use crate::message::{DeviceInfo, MessageModel};
use crate::text::{ascii_to_string, ascii_chars_of, all_ascii};
use vstd::string::StringExecFns;

/// One status line for the operator.  Events are delivered to the consumer
/// in emission order; exactly one is emitted for the initial attempt, one
/// for each retry, and one for the end of the attempt, whether it
/// completed, failed, or was cancelled.
pub struct StatusEvent {
    pub message: String,
}

/// Seconds the initial bounded connect may take.
pub const CONNECT_TIMEOUT_SECS: u64 = 10;

/// Seconds slept between two connect attempts.
pub const RETRY_INTERVAL_SECS: u64 = 5;

/// Seconds the caller grants a cancelled task before abandoning it.
pub const CANCEL_GRACE_SECS: u64 = 10;

/// States of one advertisement attempt.
#[derive(Clone, Copy, Debug, PartialEq, Eq, Structural)]
pub enum AdvertiseState {
    Idle,
    Connecting,
    Retrying,
    Connected,
    Sending,
    Done,
    Cancelled,
    Failed,
}

/// What the process edge must do after a step.
#[derive(Clone, Copy, Debug, PartialEq, Eq, Structural)]
pub enum AdvertiseAction {
    /// Attempt one connection to the fixed endpoint, bounded by
    /// `CONNECT_TIMEOUT_SECS`.
    ConnectWithTimeout,
    /// Sleep `RETRY_INTERVAL_SECS`, then attempt an unbounded connect.
    SleepThenConnect,
    /// Write the returned payload to the open connection, completely.
    SendPayload,
    /// Nothing: the attempt has ended.
    Stop,
}

/// A state the attempt never leaves.
pub open spec fn is_terminal(s: AdvertiseState) -> bool {
    s == AdvertiseState::Done || s == AdvertiseState::Cancelled || s == AdvertiseState::Failed
}

/// The decimal digit bytes of `n`, most significant first.
pub open spec fn dec_bytes(n: nat) -> Seq<u8>
    decreases n,
{
    if n < 10 {
        seq![(48 + n) as u8]
    } else {
        dec_bytes(n / 10) + seq![(48 + n % 10) as u8]
    }
}

/// The decimal digits of `n`, as text.
pub open spec fn dec_str(n: nat) -> Seq<char> {
    ascii_chars_of(dec_bytes(n))
}

proof fn lemma_dec_bytes_ascii(n: nat)
    ensures
        all_ascii(dec_bytes(n)),
    decreases n,
{
    if n >= 10 {
        lemma_dec_bytes_ascii(n / 10);
    }
}

/// Emits the decimal digits of `n`.
fn push_decimal(out: &mut Vec<u8>, n: u32)
    ensures
        final(out)@ == old(out)@ + dec_bytes(n as nat),
    decreases n,
{
    if n >= 10 {
        push_decimal(out, n / 10);
    }
    out.push(48 + (n % 10) as u8);
    proof {
        if n < 10 {
            assert(out@ =~= old(out)@ + dec_bytes(n as nat));
        } else {
            assert(out@ =~= old(out)@ + (dec_bytes(n as nat / 10) + seq![
                (48 + n as nat % 10) as u8,
            ]));
        }
    }
}

/// Renders a counter in decimal.
pub fn u32_to_decimal(n: u32) -> (r: String)
    ensures
        r@ == dec_str(n as nat),
{
    let mut digits: Vec<u8> = Vec::new();
    push_decimal(&mut digits, n);
    proof {
        lemma_dec_bytes_ascii(n as nat);
        assert(digits@ =~= dec_bytes(n as nat));
    }
    ascii_to_string(digits)
}

/// Status text of the initial attempt.
pub open spec fn connect_message() -> Seq<char> {
    "Attempting to connect to the server"@
}

/// Status text of retry number `n`.
pub open spec fn retry_message(n: u32) -> Seq<char> {
    "Can't connect to server, retrying in 5s. Try #"@ + dec_str(n as nat)
}

/// Status text once the advertisement has been written.
pub open spec fn done_message() -> Seq<char> {
    "Waiting for rebuild command"@
}

/// Status text of an attempt whose send failed.
pub open spec fn failed_message() -> Seq<char> {
    "Failed to send the advertisement"@
}

/// Status text of a cancelled attempt.
pub open spec fn cancelled_message() -> Seq<char> {
    "Cancelled"@
}

/// One advertisement attempt: the identity it announces, its state, and
/// its retry counter.  At most one attempt is in flight per client.
pub struct AdvertiseTask {
    info: DeviceInfo,
    state: AdvertiseState,
    retry_count: u32,
}

impl AdvertiseTask {
    /// The announced identity.
    pub closed spec fn spec_info(&self) -> DeviceInfo {
        self.info
    }

    /// The current state.
    pub closed spec fn spec_state(&self) -> AdvertiseState {
        self.state
    }

    /// How many retries have been announced.
    pub closed spec fn spec_retry_count(&self) -> u32 {
        self.retry_count
    }

    /// The identity stays encodable: established at construction, kept by
    /// every step.
    pub open spec fn wf(&self) -> bool {
        encodable(MessageModel::Advertise(self.spec_info()@))
    }

    /// Prepares an advertisement of this identity; the attempt is idle
    /// until started.
    pub fn new(info: DeviceInfo) -> (r: AdvertiseTask)
        requires
            encodable(MessageModel::Advertise(info@)),
        ensures
            r.wf(),
            r.spec_info() == info,
            r.spec_state() == AdvertiseState::Idle,
            r.spec_retry_count() == 0,
    {
        AdvertiseTask { info, state: AdvertiseState::Idle, retry_count: 0 }
    }

    /// The current state.
    pub fn state(&self) -> (r: AdvertiseState)
        ensures
            r == self.spec_state(),
    {
        self.state
    }

    /// How many retries have been announced.
    pub fn retry_count(&self) -> (r: u32)
        ensures
            r == self.spec_retry_count(),
    {
        self.retry_count
    }

    /// Starts the attempt: announces it and asks for the bounded connect.
    pub fn start(&mut self) -> (r: (StatusEvent, AdvertiseAction))
        requires
            old(self).spec_state() == AdvertiseState::Idle,
            old(self).wf(),
        ensures
            final(self).spec_state() == AdvertiseState::Connecting,
            final(self).spec_info() == old(self).spec_info(),
            final(self).spec_retry_count() == old(self).spec_retry_count(),
            final(self).wf(),
            r.0.message@ == connect_message(),
            r.1 == AdvertiseAction::ConnectWithTimeout,
    {
        self.state = AdvertiseState::Connecting;
        let message = String::from_str("Attempting to connect to the server");
        (StatusEvent { message }, AdvertiseAction::ConnectWithTimeout)
    }

    /// A connect attempt failed (timeout, refusal, unreachable): counts and
    /// announces the retry, and asks for a sleep followed by the next
    /// connect.  Connectivity loss is transient: there is no retry limit.
    pub fn on_connect_failure(&mut self) -> (r: (StatusEvent, AdvertiseAction))
        requires
            old(self).spec_state() == AdvertiseState::Connecting || old(self).spec_state()
                == AdvertiseState::Retrying,
            old(self).spec_retry_count() < u32::MAX,
            old(self).wf(),
        ensures
            final(self).spec_state() == AdvertiseState::Retrying,
            final(self).spec_info() == old(self).spec_info(),
            final(self).spec_retry_count() == old(self).spec_retry_count() + 1,
            final(self).wf(),
            r.0.message@ == retry_message(final(self).spec_retry_count()),
            r.1 == AdvertiseAction::SleepThenConnect,
    {
        self.state = AdvertiseState::Retrying;
        self.retry_count = self.retry_count + 1;
        let mut message = String::from_str("Can't connect to server, retrying in 5s. Try #");
        let digits = u32_to_decimal(self.retry_count);
        message.append(digits.as_str());
        (StatusEvent { message }, AdvertiseAction::SleepThenConnect)
    }

    /// A connect attempt succeeded: the attempt holds the connection.
    pub fn on_connect_success(&mut self)
        requires
            old(self).spec_state() == AdvertiseState::Connecting || old(self).spec_state()
                == AdvertiseState::Retrying,
            old(self).wf(),
        ensures
            final(self).spec_state() == AdvertiseState::Connected,
            final(self).spec_info() == old(self).spec_info(),
            final(self).spec_retry_count() == old(self).spec_retry_count(),
            final(self).wf(),
    {
        self.state = AdvertiseState::Connected;
    }

    /// Serializes the advertisement: returns exactly the frame of this
    /// identity, to be written as one complete write.
    pub fn begin_send(&mut self) -> (r: (Vec<u8>, AdvertiseAction))
        requires
            old(self).spec_state() == AdvertiseState::Connected,
            old(self).wf(),
        ensures
            final(self).spec_state() == AdvertiseState::Sending,
            final(self).spec_info() == old(self).spec_info(),
            final(self).spec_retry_count() == old(self).spec_retry_count(),
            final(self).wf(),
            r.0@ == enc_message(MessageModel::Advertise(old(self).spec_info()@)),
            r.1 == AdvertiseAction::SendPayload,
    {
        self.state = AdvertiseState::Sending;
        let payload = encode_advertise(&self.info);
        (payload, AdvertiseAction::SendPayload)
    }

    /// The write finished.  Success completes the attempt and announces
    /// that it now waits for the rebuild command; a write failure is fatal
    /// for the attempt, is announced as its final status, and is not
    /// retried.
    pub fn on_send_result(&mut self, ok: bool) -> (r: (StatusEvent, AdvertiseAction))
        requires
            old(self).spec_state() == AdvertiseState::Sending,
            old(self).wf(),
        ensures
            final(self).spec_info() == old(self).spec_info(),
            final(self).spec_retry_count() == old(self).spec_retry_count(),
            final(self).wf(),
            ok ==> final(self).spec_state() == AdvertiseState::Done && r.0.message@
                == done_message(),
            !ok ==> final(self).spec_state() == AdvertiseState::Failed && r.0.message@
                == failed_message(),
            r.1 == AdvertiseAction::Stop,
    {
        if ok {
            self.state = AdvertiseState::Done;
            let message = String::from_str("Waiting for rebuild command");
            (StatusEvent { message }, AdvertiseAction::Stop)
        } else {
            self.state = AdvertiseState::Failed;
            let message = String::from_str("Failed to send the advertisement");
            (StatusEvent { message }, AdvertiseAction::Stop)
        }
    }

    /// A cancellation request: honoured from any state the attempt has not
    /// yet left on its own.  The caller grants `CANCEL_GRACE_SECS` for the
    /// running step to observe it, then abandons the task.
    pub fn request_cancel(&mut self) -> (r: (StatusEvent, AdvertiseAction))
        requires
            !is_terminal(old(self).spec_state()),
            old(self).wf(),
        ensures
            final(self).spec_state() == AdvertiseState::Cancelled,
            final(self).spec_info() == old(self).spec_info(),
            final(self).spec_retry_count() == old(self).spec_retry_count(),
            final(self).wf(),
            r.0.message@ == cancelled_message(),
            r.1 == AdvertiseAction::Stop,
    {
        self.state = AdvertiseState::Cancelled;
        let message = String::from_str("Cancelled");
        (StatusEvent { message }, AdvertiseAction::Stop)
    }
}

} // verus!
