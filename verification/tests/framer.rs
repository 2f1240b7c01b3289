use at_serial::error::{AtError, IoErrorKind, IoFailure};
use at_serial::framer::{ends_response, latin1_string, Framer, Phase, ReadEvent};

/// A channel that yields the given bytes, one per read, and then reports
/// a timeout on every read.
struct SimulatedChannel {
    bytes: Vec<u8>,
    next: usize,
    written: Vec<u8>,
    reads: usize,
}

impl SimulatedChannel {
    fn new(bytes: &[u8]) -> Self {
        SimulatedChannel { bytes: bytes.to_vec(), next: 0, written: Vec::new(), reads: 0 }
    }

    fn write(&mut self, data: &[u8]) -> Result<usize, AtError> {
        self.written.extend_from_slice(data);
        Ok(data.len())
    }

    fn read(&mut self, buffer: &mut [u8]) -> Result<usize, AtError> {
        self.reads += 1;
        if self.next < self.bytes.len() {
            buffer[0] = self.bytes[self.next];
            self.next += 1;
            Ok(1)
        } else {
            Ok(0)
        }
    }
}

fn exchange(channel: &mut SimulatedChannel, command: &str) -> Result<String, AtError> {
    let mut framer = Framer::new();
    let bytes = framer.start(command).unwrap();
    let written = channel.write(&bytes);
    framer.written(written);
    while framer.wants_read() {
        let mut buffer = [0u8; 1];
        let read = channel.read(&mut buffer);
        framer.received(ReadEvent::from_read(read, buffer[0]));
    }
    framer.finish().unwrap()
}

fn bytes_events(bytes: &[u8]) -> Vec<ReadEvent> {
    bytes.iter().map(|b| ReadEvent::Byte(*b)).collect()
}

#[test]
fn response_is_both_lines_verbatim() {
    let mut channel = SimulatedChannel::new(b"+GCAP: SOMETHING\r\nOK\r\n");
    let response = exchange(&mut channel, "AT+GCAP");
    assert_eq!(response, Ok("+GCAP: SOMETHING\r\nOK\r\n".to_string()));
    assert_eq!(channel.written, b"AT+GCAP\r\n".to_vec());
    assert_eq!(channel.reads, 22);
}

#[test]
fn error_line_alone_is_the_response() {
    let mut channel = SimulatedChannel::new(b"ERROR\r\n");
    assert_eq!(exchange(&mut channel, "AT+BAD"), Ok("ERROR\r\n".to_string()));
}

#[test]
fn silent_channel_fails_with_timeout() {
    let mut channel = SimulatedChannel::new(b"");
    assert_eq!(exchange(&mut channel, "AT"), Err(AtError::Timeout));
    assert_eq!(channel.reads, 1);
}

#[test]
fn reply_without_terminator_fails_with_protocol_incomplete() {
    let mut channel = SimulatedChannel::new(b"+CSQ: 20,99\r\n");
    assert_eq!(exchange(&mut channel, "AT+CSQ"), Err(AtError::ProtocolIncomplete));
    let mut channel = SimulatedChannel::new(b"O");
    assert_eq!(exchange(&mut channel, "AT"), Err(AtError::ProtocolIncomplete));
    let mut channel = SimulatedChannel::new(b"OK");
    assert_eq!(exchange(&mut channel, "AT"), Err(AtError::ProtocolIncomplete));
}

#[test]
fn reading_stops_at_the_first_terminator_line() {
    let mut channel = SimulatedChannel::new(b"OK\r\n+EXTRA: 1\r\nOK\r\n");
    assert_eq!(exchange(&mut channel, "AT"), Ok("OK\r\n".to_string()));
    assert_eq!(channel.reads, 4);
}

#[test]
fn terminator_line_may_have_white_space_around_it() {
    let mut channel = SimulatedChannel::new(b"\r\n  OK \t\r\n");
    assert_eq!(exchange(&mut channel, "AT"), Ok("\r\n  OK \t\r\n".to_string()));
    let mut channel = SimulatedChannel::new(b"OK\n");
    assert_eq!(exchange(&mut channel, "AT"), Ok("OK\n".to_string()));
}

#[test]
fn lines_that_only_hold_a_terminator_word_do_not_end_the_response() {
    let mut channel = SimulatedChannel::new(b"OKAY\r\nNOT OK\r\nok\r\nERROR: 3\r\nERROR\r\n");
    assert_eq!(
        exchange(&mut channel, "AT"),
        Ok("OKAY\r\nNOT OK\r\nok\r\nERROR: 3\r\nERROR\r\n".to_string())
    );
}

#[test]
fn bytes_become_the_characters_with_the_same_number() {
    let mut channel = SimulatedChannel::new(&[0xE9, 0x00, 0x0A, b'O', b'K', 0x0A]);
    assert_eq!(exchange(&mut channel, "AT"), Ok("\u{e9}\u{0}\nOK\n".to_string()));
    assert_eq!(latin1_string(&[0x41, 0xFF, 0x80]), "A\u{ff}\u{80}");
}

#[test]
fn no_break_space_counts_as_white_space_in_a_terminator_line() {
    assert!(ends_response(&[0xA0, b'O', b'K', 0x85, b'\r', b'\n']));
    assert!(ends_response(b"ERROR"));
    assert!(!ends_response(b"\r\n"));
    assert!(!ends_response(b"O K\r\n"));
}

#[test]
fn failed_read_fails_the_exchange_with_that_failure() {
    let mut framer = Framer::new();
    framer.start("AT").unwrap();
    framer.written(Ok(4));
    framer.received(ReadEvent::Byte(b'O'));
    let failure = IoFailure { kind: IoErrorKind::BrokenPipe, message: "gone".to_string() };
    framer.received(ReadEvent::from_read(Err(AtError::IoError(failure)), 0));
    assert_eq!(framer.phase(), Phase::Failed);
    let failure = IoFailure { kind: IoErrorKind::BrokenPipe, message: "gone".to_string() };
    assert_eq!(framer.finish(), Some(Err(AtError::IoError(failure))));
}

#[test]
fn failed_write_fails_the_exchange() {
    let mut framer = Framer::new();
    framer.start("AT").unwrap();
    let failure = IoFailure { kind: IoErrorKind::Other, message: "no".to_string() };
    framer.written(Err(AtError::IoError(failure)));
    assert_eq!(framer.phase(), Phase::Failed);
    assert!(framer.is_finished());
    assert!(!framer.wants_read());
    let failure = IoFailure { kind: IoErrorKind::Other, message: "no".to_string() };
    assert_eq!(framer.finish(), Some(Err(AtError::IoError(failure))));
}

#[test]
fn phases_follow_the_exchange() {
    let mut framer = Framer::new();
    assert_eq!(framer.phase(), Phase::Idle);
    assert!(!framer.is_finished());
    assert!(!framer.wants_read());
    assert_eq!(framer.start("ATI\n"), Some(b"ATI\r\n".to_vec()));
    assert_eq!(framer.phase(), Phase::Sending);
    assert_eq!(framer.start("ATI"), None);
    assert_eq!(framer.phase(), Phase::Sending);
    framer.written(Ok(5));
    assert_eq!(framer.phase(), Phase::ReadingLine);
    assert!(framer.wants_read());
    framer.receive_all(bytes_events(b"x\r\nOK\r"));
    assert_eq!(framer.phase(), Phase::ReadingLine);
    framer.received(ReadEvent::Byte(b'\n'));
    assert_eq!(framer.phase(), Phase::Done);
    assert!(framer.is_finished());
    assert_eq!(framer.finish(), Some(Ok("x\r\nOK\r\n".to_string())));
}

#[test]
fn events_out_of_turn_change_nothing() {
    let mut framer = Framer::new();
    framer.received(ReadEvent::Byte(b'O'));
    framer.written(Ok(1));
    assert_eq!(framer.phase(), Phase::Idle);
    assert_eq!(framer.finish(), None);

    let mut framer = Framer::new();
    framer.start("AT").unwrap();
    framer.received(ReadEvent::TimedOut);
    assert_eq!(framer.phase(), Phase::Sending);
    framer.written(Ok(4));
    framer.written(Err(AtError::Timeout));
    assert_eq!(framer.phase(), Phase::ReadingLine);
    assert_eq!(framer.finish(), None);
}

#[test]
fn reads_after_the_end_change_nothing() {
    let mut framer = Framer::new();
    framer.start("AT").unwrap();
    framer.written(Ok(4));
    let mut events = bytes_events(b"OK\r\n");
    events.push(ReadEvent::Byte(b'x'));
    events.push(ReadEvent::TimedOut);
    framer.receive_all(events);
    assert_eq!(framer.phase(), Phase::Done);
    assert_eq!(framer.finish(), Some(Ok("OK\r\n".to_string())));

    let mut framer = Framer::new();
    framer.start("AT").unwrap();
    framer.written(Ok(4));
    let mut events = vec![ReadEvent::Byte(b'O'), ReadEvent::TimedOut];
    events.extend(bytes_events(b"OK\r\n"));
    framer.receive_all(events);
    assert_eq!(framer.phase(), Phase::TimedOut);
    assert_eq!(framer.finish(), Some(Err(AtError::ProtocolIncomplete)));
}

#[test]
fn read_of_no_bytes_is_a_timeout() {
    assert_eq!(ReadEvent::from_read(Ok(0), 7), ReadEvent::TimedOut);
    assert_eq!(ReadEvent::from_read(Ok(1), 7), ReadEvent::Byte(7));
    assert_eq!(
        ReadEvent::from_read(Err(AtError::Other("x".to_string())), 7),
        ReadEvent::Failed(AtError::Other("x".to_string()))
    );
}

#[test]
fn reply_can_be_read_without_a_command() {
    let mut framer = Framer::reading();
    assert_eq!(framer.phase(), Phase::ReadingLine);
    assert_eq!(framer.start("AT"), None);
    framer.receive_all(bytes_events(b"RING\r\nOK\r\n"));
    assert_eq!(framer.finish(), Some(Ok("RING\r\nOK\r\n".to_string())));
}

#[test]
fn long_response_is_framed_whole() {
    let mut reply = Vec::new();
    for i in 0..5000 {
        reply.extend_from_slice(format!("+LINE: {}\r\n", i).as_bytes());
    }
    reply.extend_from_slice(b"OK\r\n");
    let mut channel = SimulatedChannel::new(&reply);
    let response = exchange(&mut channel, "AT+LIST").unwrap();
    assert_eq!(response.as_bytes(), &reply[..]);
    assert_eq!(channel.reads, reply.len());
}

#[test]
fn timeout_in_the_middle_of_a_line_discards_what_came() {
    let mut framer = Framer::reading();
    framer.receive_all(bytes_events(b"+CSQ: 20,99\r\nO"));
    framer.received(ReadEvent::from_read(Ok(0), 0));
    assert_eq!(framer.phase(), Phase::TimedOut);
    assert!(framer.is_finished());
    assert_eq!(framer.finish(), Some(Err(AtError::ProtocolIncomplete)));
}
