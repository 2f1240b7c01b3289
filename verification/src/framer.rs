//! The command/response framer: one exchange with the device, from the
//! command that is written to the response that its reply is framed into.
//!
//! The framer does no I/O. Its owner writes what the framer hands it, reads
//! the channel one byte at a time, and tells the framer how each of these
//! went; the framer says when the exchange is over and how it ended.
//!
//! A byte of the reply is taken as the character with the same number, so a
//! response is text in Latin-1: the replies of AT devices are ASCII, and
//! bytes above 127 are kept as they came rather than decoded.
//!
//! A response has no largest size. A device that goes on sending and never
//! sends a terminator line keeps the exchange reading; the exchange ends only
//! when a read brings nothing within the channel's timeout, so with reads of
//! one byte the timeout has to run out on a single missing byte.

use crate::commands::{command_bytes, normalized};
use crate::error::{AtError, ErrorView};
use crate::text::{chars_of, same_chars, string_of, trim, trimmed};
use vstd::prelude::*;
use vstd::utf8::encode_utf8;

verus! {

/// The byte that ends a line.
pub const LINE_FEED: u8 = 0x0A;

/// The bytes as text, each byte the character with the same number.
pub open spec fn text_of(bytes: Seq<u8>) -> Seq<char> {
    Seq::new(bytes.len(), |i: int| bytes[i] as char)
}

/// A line that ends a response: without the white space around it, it reads
/// `OK` or `ERROR`.
pub open spec fn is_terminator_line(line: Seq<u8>) -> bool {
    let content = trim(text_of(line));
    content == "OK"@ || content == "ERROR"@
}

/// Where the line begins whose last byte stands just before `end`: after the
/// last line feed before that byte, or at 0.
pub open spec fn line_begin(s: Seq<u8>, end: int) -> int
    decreases end,
{
    if end <= 1 {
        0
    } else if s[end - 2] == LINE_FEED {
        end - 1
    } else {
        line_begin(s, end - 1)
    }
}

/// The first `k` bytes of `s` end with a line feed, and the line that it ends
/// is a terminator line.
pub open spec fn completes_at(s: Seq<u8>, k: int) -> bool {
    &&& 0 < k <= s.len()
    &&& s[k - 1] == LINE_FEED
    &&& is_terminator_line(s.subrange(line_begin(s, k), k))
}

/// No terminator line has come to its end in `s`.
pub open spec fn is_incomplete(s: Seq<u8>) -> bool {
    forall|k: int| 0 < k <= s.len() ==> !#[trigger] completes_at(s, k)
}

/// `s` is a complete response: it ends with a terminator line, and with the
/// first one.
pub open spec fn is_response(s: Seq<u8>) -> bool {
    &&& completes_at(s, s.len() as int)
    &&& forall|k: int| 0 < k < s.len() ==> !#[trigger] completes_at(s, k)
}

/// Where an exchange stands.
#[derive(Debug, Clone, Copy, PartialEq, Eq, Structural)]
pub enum Phase {
    /// Nothing has been sent yet.
    Idle,
    /// The command is being written.
    Sending,
    /// The reply is being read.
    ReadingLine,
    /// The response is complete.
    Done,
    /// A read ran out of time before the response was complete.
    TimedOut,
    /// The channel failed.
    Failed,
}

/// How one read of a single byte went.
#[derive(Debug, PartialEq, Eq)]
pub enum ReadEvent {
    /// The byte that was read.
    Byte(u8),
    /// Nothing came before the channel's timeout.
    TimedOut,
    /// The channel failed.
    Failed(AtError),
}

/// A [`ReadEvent`] as a mathematical value.
pub enum EventView {
    Byte(u8),
    TimedOut,
    Failed(ErrorView),
}

impl View for ReadEvent {
    type V = EventView;

    open spec fn view(&self) -> EventView {
        match self {
            ReadEvent::Byte(b) => EventView::Byte(*b),
            ReadEvent::TimedOut => EventView::TimedOut,
            ReadEvent::Failed(e) => EventView::Failed(e@),
        }
    }
}

impl ReadEvent {
    /// The event that a read into a buffer of one byte stands for: `read` is
    /// what the channel reported, `byte` what the buffer then held. A read of
    /// no bytes is a timeout.
    pub fn from_read(read: Result<usize, AtError>, byte: u8) -> (event: ReadEvent)
        ensures
            event@ == match read {
                Ok(count) => if count == 0 {
                    EventView::TimedOut
                } else {
                    EventView::Byte(byte)
                },
                Err(e) => EventView::Failed(e@),
            },
    {
        match read {
            Ok(count) => if count == 0 {
                ReadEvent::TimedOut
            } else {
                ReadEvent::Byte(byte)
            },
            Err(e) => ReadEvent::Failed(e),
        }
    }
}

/// An exchange as a mathematical value.
pub struct FramerView {
    pub phase: Phase,
    /// While the reply is read, the bytes read so far; once it is complete,
    /// the response. Empty in every other phase.
    pub received: Seq<u8>,
    /// Why the exchange failed, once it has.
    pub failure: Option<ErrorView>,
}

impl FramerView {
    /// An exchange in the given phase with nothing received.
    pub open spec fn empty(phase: Phase) -> FramerView {
        FramerView { phase, received: Seq::empty(), failure: None }
    }

    /// An exchange that failed with the given error.
    pub open spec fn failed(phase: Phase, e: ErrorView) -> FramerView {
        FramerView { phase, received: Seq::empty(), failure: Some(e) }
    }

    /// What holds of every exchange, whatever has happened in it.
    pub open spec fn is_consistent(self) -> bool {
        match self.phase {
            Phase::Idle | Phase::Sending => self.received.len() == 0 && self.failure is None,
            Phase::ReadingLine => is_incomplete(self.received) && self.failure is None,
            Phase::Done => is_response(self.received) && self.failure is None,
            Phase::TimedOut => self.received.len() == 0 && (self.failure == Some(
                ErrorView::Timeout,
            ) || self.failure == Some(ErrorView::ProtocolIncomplete)),
            Phase::Failed => self.received.len() == 0 && self.failure is Some,
        }
    }

    /// The exchange is over.
    pub open spec fn is_finished(self) -> bool {
        self.phase == Phase::Done || self.phase == Phase::TimedOut || self.phase == Phase::Failed
    }

    /// The exchange after a command has been handed over for writing.
    pub open spec fn after_start(self) -> FramerView {
        if self.phase == Phase::Idle {
            FramerView::empty(Phase::Sending)
        } else {
            self
        }
    }

    /// The exchange after the write has reported.
    pub open spec fn after_write(self, outcome: Result<usize, ErrorView>) -> FramerView {
        if self.phase == Phase::Sending {
            match outcome {
                Ok(_) => FramerView::empty(Phase::ReadingLine),
                Err(e) => FramerView::failed(Phase::Failed, e),
            }
        } else {
            self
        }
    }

    /// The exchange after one more read. A byte is added to what was
    /// received, and ends the exchange if it completes the first terminator
    /// line. A timeout ends the exchange and discards what was received: with
    /// `Timeout` where nothing was, with `ProtocolIncomplete` where
    /// something was. Outside the reading phase a read changes nothing.
    pub open spec fn after_read(self, event: EventView) -> FramerView {
        if self.phase == Phase::ReadingLine {
            match event {
                EventView::Byte(b) => {
                    let received = self.received.push(b);
                    FramerView {
                        phase: if completes_at(received, received.len() as int) {
                            Phase::Done
                        } else {
                            Phase::ReadingLine
                        },
                        received,
                        failure: None,
                    }
                },
                EventView::TimedOut => FramerView::failed(
                    Phase::TimedOut,
                    if self.received.len() == 0 {
                        ErrorView::Timeout
                    } else {
                        ErrorView::ProtocolIncomplete
                    },
                ),
                EventView::Failed(e) => FramerView::failed(Phase::Failed, e),
            }
        } else {
            self
        }
    }

    /// The exchange after the given reads, one after the other.
    pub open spec fn after_reads(self, events: Seq<EventView>) -> FramerView
        decreases events.len(),
    {
        if events.len() == 0 {
            self
        } else {
            self.after_reads(events.drop_last()).after_read(events.last())
        }
    }

    /// How the exchange ended: the response as text, or the failure. `None`
    /// while it is not over.
    pub open spec fn result(self) -> Option<Result<Seq<char>, ErrorView>> {
        match self.phase {
            Phase::Done => Some(Ok(text_of(self.received))),
            Phase::TimedOut | Phase::Failed => match self.failure {
                Some(e) => Some(Err(e)),
                None => None,
            },
            _ => None,
        }
    }
}

/// A line begins at or after 0 and before the byte that ends it.
pub proof fn lemma_line_begin_bounds(s: Seq<u8>, end: int)
    ensures
        0 <= line_begin(s, end),
        end >= 1 ==> line_begin(s, end) <= end - 1,
    decreases end,
{
    if end > 1 && s[end - 2] != LINE_FEED {
        lemma_line_begin_bounds(s, end - 1);
    }
}

/// Where a line begins depends only on the bytes before the one that ends it.
pub proof fn lemma_line_begin_take(s: Seq<u8>, n: int, end: int)
    requires
        end - 1 <= n <= s.len(),
    ensures
        line_begin(s.take(n), end) == line_begin(s, end),
    decreases end,
{
    if end > 1 && s[end - 2] != LINE_FEED {
        lemma_line_begin_take(s, n, end - 1);
    }
}

/// Whether a response is complete after `k` bytes depends only on those
/// bytes.
pub proof fn lemma_completes_at_take(s: Seq<u8>, n: int, k: int)
    requires
        0 < k <= n <= s.len(),
    ensures
        completes_at(s.take(n), k) == completes_at(s, k),
{
    lemma_line_begin_take(s, n, k);
    lemma_line_begin_bounds(s, k);
    assert(s.take(n).subrange(line_begin(s, k), k) == s.subrange(line_begin(s, k), k));
}

/// The bytes as characters, each byte the character with the same number.
fn latin1_chars(bytes: &[u8]) -> (r: Vec<char>)
    ensures
        r@ == text_of(bytes@),
{
    let mut r: Vec<char> = Vec::new();
    let mut i: usize = 0;
    while i < bytes.len()
        invariant
            i <= bytes.len(),
            r@ == text_of(bytes@.take(i as int)),
        decreases bytes.len() - i,
    {
        r.push(bytes[i] as char);
        i = i + 1;
        assert(r@ == text_of(bytes@.take(i as int)));
    }
    assert(bytes@.take(bytes.len() as int) == bytes@);
    r
}

/// The bytes as text, each byte the character with the same number.
pub fn latin1_string(bytes: &[u8]) -> (r: String)
    ensures
        r@ == text_of(bytes@),
{
    let chars = latin1_chars(bytes);
    string_of(chars.as_slice())
}

/// Whether `line` is a terminator line.
pub fn ends_response(line: &[u8]) -> (r: bool)
    ensures
        r == is_terminator_line(line@),
{
    let chars = latin1_chars(line);
    let content = trimmed(chars.as_slice());
    let ok = chars_of("OK");
    let error = chars_of("ERROR");
    same_chars(content.as_slice(), ok.as_slice()) || same_chars(
        content.as_slice(),
        error.as_slice(),
    )
}

/// One exchange with the device.
pub struct Framer {
    phase: Phase,
    received: Vec<u8>,
    /// Where the line that is being read begins in `received`.
    line_start: usize,
    failure: Option<AtError>,
}

impl View for Framer {
    type V = FramerView;

    closed spec fn view(&self) -> FramerView {
        FramerView {
            phase: self.phase,
            received: self.received@,
            failure: match self.failure {
                Some(e) => Some(e@),
                None => None,
            },
        }
    }
}

/// The result of an exchange as a mathematical value.
pub open spec fn result_view(r: Option<Result<String, AtError>>) -> Option<
    Result<Seq<char>, ErrorView>,
> {
    match r {
        Some(Ok(text)) => Some(Ok(text@)),
        Some(Err(e)) => Some(Err(e@)),
        None => None,
    }
}

/// The read events as mathematical values.
pub open spec fn event_views(events: Seq<ReadEvent>) -> Seq<EventView> {
    Seq::new(events.len(), |i: int| events[i]@)
}

impl Framer {
    /// The framer keeps track of where the current line begins. Every framer
    /// that this module hands out is well formed, and stays so.
    pub closed spec fn wf(&self) -> bool {
        &&& self@.is_consistent()
        &&& self.line_start <= self.received@.len()
        &&& self.phase == Phase::ReadingLine ==> self.line_start == line_begin(
            self.received@,
            self.received@.len() as int + 1,
        )
    }

    /// What holds of every exchange holds of a well-formed framer.
    pub proof fn lemma_wf_is_consistent(&self)
        requires
            self.wf(),
        ensures
            self@.is_consistent(),
    {
    }

    /// A fresh exchange.
    pub fn new() -> (r: Framer)
        ensures
            r.wf(),
            r@ == FramerView::empty(Phase::Idle),
    {
        Framer { phase: Phase::Idle, received: Vec::new(), line_start: 0, failure: None }
    }

    /// An exchange whose command has been written by other means, ready to
    /// read the reply.
    pub fn reading() -> (r: Framer)
        ensures
            r.wf(),
            r@ == FramerView::empty(Phase::ReadingLine),
    {
        Framer { phase: Phase::ReadingLine, received: Vec::new(), line_start: 0, failure: None }
    }

    /// Where the exchange stands.
    pub fn phase(&self) -> (r: Phase)
        ensures
            r == self@.phase,
    {
        self.phase
    }

    /// Whether the exchange is over.
    pub fn is_finished(&self) -> (r: bool)
        ensures
            r == self@.is_finished(),
    {
        match self.phase {
            Phase::Done | Phase::TimedOut | Phase::Failed => true,
            _ => false,
        }
    }

    /// Whether the next thing to do is to read a byte.
    pub fn wants_read(&self) -> (r: bool)
        ensures
            r == (self@.phase == Phase::ReadingLine),
    {
        match self.phase {
            Phase::ReadingLine => true,
            _ => false,
        }
    }

    /// Begins the exchange: returns the bytes to write for `command`, in its
    /// sent form. An exchange that has begun before returns nothing and stays
    /// as it is.
    pub fn start(&mut self, command: &str) -> (bytes: Option<Vec<u8>>)
        requires
            old(self).wf(),
        ensures
            final(self).wf(),
            final(self)@ == old(self)@.after_start(),
            old(self)@.phase == Phase::Idle ==> (bytes matches Some(b) && b@ == encode_utf8(
                normalized(command@),
            )),
            old(self)@.phase != Phase::Idle ==> bytes is None,
    {
        match self.phase {
            Phase::Idle => {
                assert(self.received@ =~= Seq::<u8>::empty());
                self.phase = Phase::Sending;
                Some(command_bytes(command))
            },
            _ => None,
        }
    }

    /// Takes what the write of the command reported.
    pub fn written(&mut self, outcome: Result<usize, AtError>)
        requires
            old(self).wf(),
        ensures
            final(self).wf(),
            final(self)@ == old(self)@.after_write(
                match outcome {
                    Ok(count) => Ok(count),
                    Err(e) => Err(e@),
                },
            ),
    {
        match self.phase {
            Phase::Sending => {
                assert(self.received@ =~= Seq::<u8>::empty());
                match outcome {
                    Ok(_) => {
                        self.phase = Phase::ReadingLine;
                    },
                    Err(e) => {
                        self.phase = Phase::Failed;
                        self.failure = Some(e);
                    },
                }
            },
            _ => {},
        }
    }

    /// Takes how one read of a byte went.
    pub fn received(&mut self, event: ReadEvent)
        requires
            old(self).wf(),
        ensures
            final(self).wf(),
            final(self)@ == old(self)@.after_read(event@),
    {
        match self.phase {
            Phase::ReadingLine => {},
            _ => {
                return ;
            },
        }
        match event {
            ReadEvent::Byte(b) => {
                let ghost before = self.received@;
                self.received.push(b);
                let len: usize = self.received.len();
                let ghost now = self.received@;
                proof {
                    assert(now.take(len - 1) == before);
                    lemma_line_begin_take(now, len - 1, len as int);
                    assert forall|k: int| 0 < k < len implies !#[trigger] completes_at(now, k) by {
                        lemma_completes_at_take(now, len - 1, k);
                    }
                }
                if b == LINE_FEED {
                    let complete = ends_response(
                        vstd::slice::slice_subrange(self.received.as_slice(), self.line_start, len),
                    );
                    if complete {
                        self.phase = Phase::Done;
                    } else {
                        self.line_start = len;
                    }
                }
            },
            ReadEvent::TimedOut => {
                self.failure = if self.received.len() == 0 {
                    Some(AtError::Timeout)
                } else {
                    Some(AtError::ProtocolIncomplete)
                };
                self.phase = Phase::TimedOut;
                self.received = Vec::new();
                self.line_start = 0;
            },
            ReadEvent::Failed(e) => {
                self.failure = Some(e);
                self.phase = Phase::Failed;
                self.received = Vec::new();
                self.line_start = 0;
            },
        }
    }

    /// Takes how the given reads went, one after the other.
    pub fn receive_all(&mut self, events: Vec<ReadEvent>)
        requires
            old(self).wf(),
        ensures
            final(self).wf(),
            final(self)@ == old(self)@.after_reads(event_views(events@)),
    {
        let ghost all = events@;
        let ghost start = self@;
        for event in it: events
            invariant
                it.seq() == all,
                self.wf(),
                self@ == start.after_reads(event_views(all.take(it.index()))),
        {
            let ghost done = it.index();
            assert(event_views(all.take(done + 1)).drop_last() == event_views(all.take(done)));
            assert(event_views(all.take(done + 1)).last() == event@);
            self.received(event);
        }
        assert(all.take(all.len() as int) == all);
    }

    /// How the exchange ended: the response as text, or the failure. `None`
    /// while it is not over.
    pub fn finish(self) -> (r: Option<Result<String, AtError>>)
        requires
            self.wf(),
        ensures
            result_view(r) == self@.result(),
    {
        match self.phase {
            Phase::Done => Some(Ok(latin1_string(self.received.as_slice()))),
            Phase::TimedOut | Phase::Failed => match self.failure {
                Some(e) => Some(Err(e)),
                None => None,
            },
            _ => None,
        }
    }
}

/// The reads that bring the bytes of `s`, one byte each.
pub open spec fn byte_events(s: Seq<u8>) -> Seq<EventView> {
    Seq::new(s.len(), |i: int| EventView::Byte(s[i]))
}

/// An exchange in which the command has been written and nothing read.
pub open spec fn reading() -> FramerView {
    FramerView::empty(Phase::ReadingLine)
}

/// Every step of an exchange keeps what holds of every exchange.
pub proof fn lemma_steps_keep_consistency(
    v: FramerView,
    outcome: Result<usize, ErrorView>,
    event: EventView,
)
    requires
        v.is_consistent(),
    ensures
        v.after_start().is_consistent(),
        v.after_write(outcome).is_consistent(),
        v.after_read(event).is_consistent(),
{
    if v.phase == Phase::ReadingLine {
        if let EventView::Byte(b) = event {
            let received = v.received.push(b);
            let n = v.received.len() as int;
            assert(received.take(n) == v.received);
            assert forall|k: int| 0 < k < received.len() implies !#[trigger] completes_at(
                received,
                k,
            ) by {
                lemma_completes_at_take(received, n, k);
            }
        }
    }
}

/// Reading the bytes of `s`, none of whose proper prefixes is a complete
/// response, leaves the exchange with `s` received: done if `s` is a complete
/// response, and still reading if it is not.
pub proof fn lemma_reads_of_bytes(s: Seq<u8>)
    requires
        forall|k: int| 0 < k < s.len() ==> !#[trigger] completes_at(s, k),
    ensures
        reading().after_reads(byte_events(s)) == (FramerView {
            phase: if completes_at(s, s.len() as int) {
                Phase::Done
            } else {
                Phase::ReadingLine
            },
            received: s,
            failure: None,
        }),
    decreases s.len(),
{
    if s.len() == 0 {
        assert(s =~= Seq::<u8>::empty());
    } else {
        let n = s.len() - 1;
        let front = s.drop_last();
        assert(front == s.take(n));
        assert forall|k: int| 0 < k <= front.len() implies !#[trigger] completes_at(front, k) by {
            lemma_completes_at_take(s, n, k);
        }
        lemma_reads_of_bytes(front);
        assert(byte_events(s).drop_last() == byte_events(front));
        assert(byte_events(s).last() == EventView::Byte(s.last()));
        assert(front.push(s.last()) == s);
    }
}

/// Reading the bytes of a complete response ends the exchange with that
/// response, every byte of it.
pub proof fn lemma_response_is_framed(s: Seq<u8>)
    requires
        is_response(s),
    ensures
        reading().after_reads(byte_events(s)).result() == Some(
            Ok::<Seq<char>, ErrorView>(text_of(s)),
        ),
{
    lemma_reads_of_bytes(s);
}

/// Once an exchange is over, further reads change nothing.
pub proof fn lemma_finished_stays(v: FramerView, events: Seq<EventView>)
    requires
        v.is_finished(),
    ensures
        v.after_reads(events) == v,
    decreases events.len(),
{
    if events.len() > 0 {
        lemma_finished_stays(v, events.drop_last());
    }
}

/// A timeout after bytes that hold no complete response fails the exchange:
/// with `Timeout` where no byte had come, with `ProtocolIncomplete` where
/// some had. It never ends in a response.
pub proof fn lemma_timeout_fails(s: Seq<u8>)
    requires
        is_incomplete(s),
    ensures
        reading().after_reads(byte_events(s).push(EventView::TimedOut)).result() == Some(
            Err::<Seq<char>, ErrorView>(
                if s.len() == 0 {
                    ErrorView::Timeout
                } else {
                    ErrorView::ProtocolIncomplete
                },
            ),
        ),
{
    lemma_reads_of_bytes(s);
    let events = byte_events(s).push(EventView::TimedOut);
    assert(events.drop_last() == byte_events(s));
}

} // verus!
