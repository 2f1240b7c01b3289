//! The byte channel: how it is configured, and what its reads and writes
//! report to the layers above.

use crate::error::{AtError, ErrorView, IoErrorKind, IoFailure};
use vstd::prelude::*;

verus! {

/// How the two ends of the line hold each other back.
#[derive(Debug, Clone, Copy, PartialEq, Eq, Structural)]
pub enum FlowControl {
    /// No flow control.
    Off,
    /// XON/XOFF bytes in the data.
    Software,
    /// The RTS and CTS signals.
    Hardware,
}

/// What a channel is opened with.
#[derive(Debug, Clone, PartialEq, Eq)]
pub struct SerialConfig {
    /// Path of the serial device.
    pub path: String,
    /// Symbols per second.
    pub baud_rate: u32,
    /// How long a read or a write may wait, in milliseconds.
    pub timeout_ms: u64,
    pub flow_control: FlowControl,
}

impl SerialConfig {
    /// A configuration that a channel can be opened with: its baud rate is
    /// positive.
    pub open spec fn is_valid(&self) -> bool {
        self.baud_rate > 0
    }

    /// Whether a channel can be opened with this configuration.
    pub fn check(&self) -> (r: bool)
        ensures
            r == self.is_valid(),
    {
        self.baud_rate > 0
    }
}

impl Default for SerialConfig {
    /// `COM1` at 115200 baud, with a timeout of 10 ms and no flow control.
    fn default() -> (config: SerialConfig)
        ensures
            config.path@ == "COM1"@,
            config.baud_rate == 115200,
            config.timeout_ms == 10,
            config.flow_control == FlowControl::Off,
            config.is_valid(),
    {
        SerialConfig {
            path: String::from_str("COM1"),
            baud_rate: 115200,
            timeout_ms: 10,
            flow_control: FlowControl::Off,
        }
    }
}

/// The result of a read or a write as a mathematical value.
pub open spec fn outcome_view(r: Result<usize, AtError>) -> Result<usize, ErrorView> {
    match r {
        Ok(count) => Ok(count),
        Err(e) => Err(e@),
    }
}

/// What a read reports, given what the device layer returned: a read that
/// ran out of time is a read of no bytes, any other failure is an I/O error.
pub open spec fn read_report(result: Result<usize, IoFailure>) -> Result<usize, ErrorView> {
    match result {
        Ok(count) => Ok(count),
        Err(failure) => if failure.kind == IoErrorKind::TimedOut {
            Ok(0)
        } else {
            Err(ErrorView::Io(failure.kind, failure.message@))
        },
    }
}

/// What a write of `len` bytes reports, given what writing all of them and
/// then flushing returned: the failure of the write, or `len`. A failed
/// flush is not reported.
pub open spec fn write_report(
    len: usize,
    written: Result<(), IoFailure>,
    flushed: Result<(), IoFailure>,
) -> Result<usize, ErrorView> {
    match written {
        Ok(_) => Ok(len),
        Err(failure) => Err(ErrorView::Io(failure.kind, failure.message@)),
    }
}

/// What a read reports to its caller, given what the device layer returned.
pub fn complete_read(result: Result<usize, IoFailure>) -> (r: Result<usize, AtError>)
    ensures
        outcome_view(r) == read_report(result),
{
    match result {
        Ok(count) => Ok(count),
        Err(failure) => match failure.kind {
            IoErrorKind::TimedOut => Ok(0),
            _ => Err(AtError::IoError(failure)),
        },
    }
}

/// What a write of `len` bytes reports to its caller, given what writing all
/// of them and then flushing returned. Where the write failed nothing was
/// flushed, and `flushed` is `Ok`.
pub fn complete_write(
    len: usize,
    written: Result<(), IoFailure>,
    flushed: Result<(), IoFailure>,
) -> (r: Result<usize, AtError>)
    ensures
        outcome_view(r) == write_report(len, written, flushed),
{
    match written {
        Ok(_) => Ok(len),
        Err(failure) => Err(AtError::IoError(failure)),
    }
}

} // verus!
