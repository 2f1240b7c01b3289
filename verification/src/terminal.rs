//! The background receiver: how a chunk of incoming bytes is classified,
//! what the receiver does after each read, and when it may be started and
//! stopped.

use crate::error::{AtError, ErrorView};
use crate::text::{hex_list, push_hex_list};
use vstd::prelude::*;
use vstd::string::StringSliceAdditionalSpecFns;
use vstd::utf8::{
    decode_utf8, decode_utf8_encode_utf8, encode_utf8, encode_utf8_decode_utf8, valid_utf8,
};

verus! {

/// The size of the buffer that the receiver reads into.
pub const READ_BUFFER_SIZE: usize = 1024;

/// How long the receiver rests after a read that brought nothing, in
/// milliseconds.
pub const POLL_INTERVAL_MS: u64 = 5;

/// One chunk of bytes from the device, classified.
#[derive(Debug, Clone, PartialEq, Eq)]
pub enum ReceivedData {
    /// The chunk is valid UTF-8: its text.
    Text(String),
    /// The chunk is not valid UTF-8: its bytes.
    Binary(Vec<u8>),
}

/// A [`ReceivedData`] as a mathematical value.
pub enum DataView {
    Text(Seq<char>),
    Binary(Seq<u8>),
}

impl View for ReceivedData {
    type V = DataView;

    open spec fn view(&self) -> DataView {
        match self {
            ReceivedData::Text(text) => DataView::Text(text@),
            ReceivedData::Binary(bytes) => DataView::Binary(bytes@),
        }
    }
}

/// What a chunk of bytes is delivered as: its text where the bytes are valid
/// UTF-8, the bytes themselves where they are not.
pub open spec fn classified(bytes: Seq<u8>) -> DataView {
    if valid_utf8(bytes) {
        DataView::Text(decode_utf8(bytes))
    } else {
        DataView::Binary(bytes)
    }
}

/// Classifying a chunk loses nothing: text stands for the very bytes that
/// came, and bytes are kept as they came.
pub proof fn lemma_classified_keeps_the_bytes(bytes: Seq<u8>)
    ensures
        match classified(bytes) {
            DataView::Text(text) => encode_utf8(text) == bytes,
            DataView::Binary(kept) => kept == bytes,
        },
{
    if valid_utf8(bytes) {
        decode_utf8_encode_utf8(bytes);
    }
}

/// `std::str::from_utf8`: the string slice over the given bytes where they
/// are valid UTF-8, and no string slice where they are not.
#[verifier::external_body]
fn utf8_text(bytes: &[u8]) -> (r: Option<&str>)
    ensures
        r is Some <==> valid_utf8(bytes@),
        r matches Some(text) ==> text.spec_bytes() == bytes@,
{
    match std::str::from_utf8(bytes) {
        Ok(text) => Some(text),
        Err(_) => None,
    }
}

/// The bytes of `bytes`, in a vector of their own.
fn copy_of(bytes: &[u8]) -> (r: Vec<u8>)
    ensures
        r@ == bytes@,
{
    let mut r: Vec<u8> = Vec::new();
    let mut i: usize = 0;
    while i < bytes.len()
        invariant
            i <= bytes.len(),
            r@ == bytes@.take(i as int),
        decreases bytes.len() - i,
    {
        r.push(bytes[i]);
        i = i + 1;
    }
    r
}

impl ReceivedData {
    /// Classifies one chunk of bytes, by itself: nothing of an earlier or a
    /// later chunk is taken into account.
    pub fn classify(bytes: &[u8]) -> (r: ReceivedData)
        ensures
            r@ == classified(bytes@),
    {
        match utf8_text(bytes) {
            Some(text) => {
                proof {
                    encode_utf8_decode_utf8(text@);
                }
                ReceivedData::Text(String::from_str(text))
            },
            None => ReceivedData::Binary(copy_of(bytes)),
        }
    }
}

/// Takes the chunks that the receiver delivers, one per call. The receiver
/// calls it from its own thread.
pub trait DataHandler: Send {
    fn handle_data(&mut self, data: ReceivedData);
}

/// The text that a chunk is shown as on a plain console: text as it is, bytes
/// as a line of their own with the bytes in hexadecimal.
pub open spec fn rendered(data: DataView) -> Seq<char> {
    match data {
        DataView::Text(text) => text,
        DataView::Binary(bytes) => "\nReceived binary data: "@ + hex_list(bytes) + seq!['\n'],
    }
}

/// Shows received chunks on a plain console.
pub struct SimpleDataHandler;

impl SimpleDataHandler {
    /// The text that the chunk is shown as.
    pub fn render(data: &ReceivedData) -> (r: String)
        ensures
            r@ == rendered(data@),
    {
        match data {
            ReceivedData::Text(text) => text.clone(),
            ReceivedData::Binary(bytes) => {
                let mut r = String::from_str("\nReceived binary data: ");
                push_hex_list(&mut r, bytes.as_slice());
                r.push('\n');
                r
            },
        }
    }
}

/// What the receiver does after a read.
#[derive(Debug, PartialEq, Eq)]
pub enum ReceiverAction {
    /// Hand the chunk to the consumer.
    Deliver(ReceivedData),
    /// Rest for so many milliseconds before the next read.
    Rest(u64),
}

/// A [`ReceiverAction`] as a mathematical value.
pub enum ActionView {
    Deliver(DataView),
    Rest(u64),
}

impl View for ReceiverAction {
    type V = ActionView;

    open spec fn view(&self) -> ActionView {
        match self {
            ReceiverAction::Deliver(data) => ActionView::Deliver(data@),
            ReceiverAction::Rest(ms) => ActionView::Rest(*ms),
        }
    }
}

/// What the receiver does after a read: bytes that came are delivered as one
/// classified chunk; a read that brought nothing, or failed, is followed by a
/// rest of [`POLL_INTERVAL_MS`].
pub open spec fn action_after(read: Result<Seq<u8>, ErrorView>) -> ActionView {
    match read {
        Ok(chunk) => if chunk.len() > 0 {
            ActionView::Deliver(classified(chunk))
        } else {
            ActionView::Rest(POLL_INTERVAL_MS)
        },
        Err(_) => ActionView::Rest(POLL_INTERVAL_MS),
    }
}

impl ActionView {
    /// How long the action keeps the receiver from its next look at whether
    /// it may go on, in milliseconds, the consumer's own time not counted.
    pub open spec fn rest_ms(self) -> nat {
        match self {
            ActionView::Deliver(_) => 0,
            ActionView::Rest(ms) => ms as nat,
        }
    }
}

/// One round of the receiver, a read and what follows it, keeps the receiver
/// no longer than the channel's timeout and one rest of [`POLL_INTERVAL_MS`]:
/// a read takes the timeout at most, and whatever it brings, the rest after
/// it is no longer than that.
pub proof fn lemma_round_is_bounded(read: Result<Seq<u8>, ErrorView>, timeout_ms: u64)
    ensures
        timeout_ms + action_after(read).rest_ms() <= timeout_ms + POLL_INTERVAL_MS,
{
}

impl ReceiverAction {
    /// What the receiver does after a read: `read` holds the bytes that the
    /// read brought, or its failure.
    pub fn after_read(read: Result<&[u8], AtError>) -> (action: ReceiverAction)
        ensures
            action@ == action_after(
                match read {
                    Ok(chunk) => Ok(chunk@),
                    Err(e) => Err(e@),
                },
            ),
    {
        match read {
            Ok(chunk) => if chunk.len() > 0 {
                ReceiverAction::Deliver(ReceivedData::classify(chunk))
            } else {
                ReceiverAction::Rest(POLL_INTERVAL_MS)
            },
            Err(_) => ReceiverAction::Rest(POLL_INTERVAL_MS),
        }
    }
}

/// Where the background receiver of a terminal stands.
#[derive(Debug, Clone, Copy, PartialEq, Eq, Structural)]
pub enum ReceiverPhase {
    /// Never started.
    Idle,
    /// Started, and not stopped since.
    Running,
    /// Stopped, or never to be started.
    Stopped,
}

impl ReceiverPhase {
    /// Whether a start is accepted: only before the first one.
    pub open spec fn accepts_start(self) -> bool {
        self == ReceiverPhase::Idle
    }

    /// The phase after a start was asked for.
    pub open spec fn after_start(self) -> ReceiverPhase {
        if self.accepts_start() {
            ReceiverPhase::Running
        } else {
            self
        }
    }

    /// Whether the receiver may go on reading.
    pub open spec fn may_read(self) -> bool {
        self == ReceiverPhase::Running
    }
}

/// A receiver is started once at most: after a start was asked for, whether
/// accepted or not, another is refused and changes nothing; one that runs
/// goes on running.
pub proof fn lemma_second_start_is_refused(phase: ReceiverPhase)
    ensures
        !phase.after_start().accepts_start(),
        phase.after_start().after_start() == phase.after_start(),
        phase.accepts_start() ==> phase.after_start().may_read(),
        phase.may_read() ==> phase.after_start().may_read(),
{
}

/// The life of a terminal's background receiver: whether it may be started,
/// whether it may go on reading, and whether there is something to wait for
/// when it is stopped.
pub struct Receiver {
    phase: ReceiverPhase,
}

impl View for Receiver {
    type V = ReceiverPhase;

    closed spec fn view(&self) -> ReceiverPhase {
        self.phase
    }
}

impl Receiver {
    /// A receiver that has not been started.
    pub fn new() -> (r: Receiver)
        ensures
            r@ == ReceiverPhase::Idle,
    {
        Receiver { phase: ReceiverPhase::Idle }
    }

    /// Where the receiver stands.
    pub fn phase(&self) -> (r: ReceiverPhase)
        ensures
            r == self@,
    {
        self.phase
    }

    /// Whether the receiver may go on reading: it was started and has not
    /// been stopped.
    pub fn is_running(&self) -> (r: bool)
        ensures
            r == self@.may_read(),
    {
        match self.phase {
            ReceiverPhase::Running => true,
            _ => false,
        }
    }

    /// Asks for the receiver to be started. The first time this succeeds and
    /// the receiver runs; any other time it fails with `AlreadyStarted` and
    /// changes nothing.
    pub fn start(&mut self) -> (r: Result<(), AtError>)
        ensures
            final(self)@ == old(self)@.after_start(),
            old(self)@.accepts_start() ==> r is Ok,
            !old(self)@.accepts_start() ==> (r matches Err(e) && e@ == ErrorView::AlreadyStarted),
    {
        match self.phase {
            ReceiverPhase::Idle => {
                self.phase = ReceiverPhase::Running;
                Ok(())
            },
            _ => Err(AtError::AlreadyStarted),
        }
    }

    /// Stops the receiver for good. Returns whether it was running, so that
    /// there is a background context to wait for.
    pub fn stop(&mut self) -> (was_running: bool)
        ensures
            final(self)@ == ReceiverPhase::Stopped,
            was_running == old(self)@.may_read(),
    {
        let was_running = self.is_running();
        self.phase = ReceiverPhase::Stopped;
        was_running
    }
}

/// The longest that a stop waits for the receiver, in milliseconds: one read
/// that runs into the channel's timeout and one rest; `u64::MAX` where that
/// is more than a `u64` holds.
pub fn stop_latency_bound_ms(timeout_ms: u64) -> (bound: u64)
    ensures
        bound == if timeout_ms + POLL_INTERVAL_MS <= u64::MAX {
            (timeout_ms + POLL_INTERVAL_MS) as u64
        } else {
            u64::MAX
        },
{
    if timeout_ms <= u64::MAX - POLL_INTERVAL_MS {
        timeout_ms + POLL_INTERVAL_MS
    } else {
        u64::MAX
    }
}

} // verus!
