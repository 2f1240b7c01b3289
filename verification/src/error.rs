//! The failures that the library reports.

use vstd::prelude::*;

verus! {

/// What went wrong in an operation on the byte channel, as far as the
/// protocol rules tell the kinds apart.
#[derive(Debug, Clone, Copy, PartialEq, Eq, Structural)]
pub enum IoErrorKind {
    NotFound,
    PermissionDenied,
    BrokenPipe,
    InvalidInput,
    /// The operation was given up when its time ran out.
    TimedOut,
    WouldBlock,
    Interrupted,
    UnexpectedEof,
    Other,
}

/// A failed operation on the byte channel: its kind, and the words of the
/// operating system about it.
#[derive(Debug, PartialEq, Eq)]
pub struct IoFailure {
    pub kind: IoErrorKind,
    pub message: String,
}

impl View for IoFailure {
    type V = (IoErrorKind, Seq<char>);

    open spec fn view(&self) -> (IoErrorKind, Seq<char>) {
        (self.kind, self.message@)
    }
}

/// A failure of the library.
#[derive(Debug, PartialEq, Eq)]
pub enum AtError {
    /// An operation on the byte channel failed, and not by running out of
    /// time.
    IoError(IoFailure),
    /// The serial port could not be opened.
    PortOpenError(String),
    /// The connection to the serial port was lost.
    ConnectionLost(String),
    /// The device refused a command.
    CommandError(String),
    /// Any other failure.
    Other(String),
    /// The device sent nothing in reply before time ran out.
    Timeout,
    /// The device began a reply but time ran out before the line that ends
    /// it.
    ProtocolIncomplete,
    /// The background receiver was started a second time.
    AlreadyStarted,
}

/// An [`AtError`] as a mathematical value: its kind and the text it carries.
pub enum ErrorView {
    Io(IoErrorKind, Seq<char>),
    PortOpen(Seq<char>),
    ConnectionLost(Seq<char>),
    Command(Seq<char>),
    Other(Seq<char>),
    Timeout,
    ProtocolIncomplete,
    AlreadyStarted,
}

impl View for AtError {
    type V = ErrorView;

    open spec fn view(&self) -> ErrorView {
        match self {
            AtError::IoError(failure) => ErrorView::Io(failure.kind, failure.message@),
            AtError::PortOpenError(text) => ErrorView::PortOpen(text@),
            AtError::ConnectionLost(text) => ErrorView::ConnectionLost(text@),
            AtError::CommandError(text) => ErrorView::Command(text@),
            AtError::Other(text) => ErrorView::Other(text@),
            AtError::Timeout => ErrorView::Timeout,
            AtError::ProtocolIncomplete => ErrorView::ProtocolIncomplete,
            AtError::AlreadyStarted => ErrorView::AlreadyStarted,
        }
    }
}

impl ErrorView {
    /// The sentence that describes the failure.
    pub open spec fn message(self) -> Seq<char> {
        match self {
            ErrorView::Io(_, text) => "I/O error: "@ + text,
            ErrorView::PortOpen(text) => "Failed to open serial port: "@ + text,
            ErrorView::ConnectionLost(text) => "Serial port connection lost: "@ + text,
            ErrorView::Command(text) => "AT command error: "@ + text,
            ErrorView::Other(text) => text,
            ErrorView::Timeout => "Timeout waiting for response"@,
            ErrorView::ProtocolIncomplete => "Response ended before its terminator line"@,
            ErrorView::AlreadyStarted => "Reader thread already started"@,
        }
    }
}

/// `serialport::Error`, the error of the serial port library, carried as it
/// is.
#[verifier::external_type_specification]
#[verifier::external_body]
pub struct ExPortError(serialport::Error);

/// The description that an error of the serial port library carries.
pub uninterp spec fn port_error_text(e: serialport::Error) -> Seq<char>;

/// `serialport::Error` as a string, through its `Display`: the text of its
/// `description` field, whatever its kind.
#[verifier::external_body]
fn port_error_description(e: &serialport::Error) -> (text: String)
    ensures
        text@ == port_error_text(*e),
{
    e.to_string()
}

impl AtError {
    /// The sentence that describes the failure.
    pub fn message(&self) -> (r: String)
        ensures
            r@ == self@.message(),
    {
        match self {
            AtError::IoError(failure) => {
                let mut r = String::from_str("I/O error: ");
                r.append(failure.message.as_str());
                r
            },
            AtError::PortOpenError(text) => {
                let mut r = String::from_str("Failed to open serial port: ");
                r.append(text.as_str());
                r
            },
            AtError::ConnectionLost(text) => {
                let mut r = String::from_str("Serial port connection lost: ");
                r.append(text.as_str());
                r
            },
            AtError::CommandError(text) => {
                let mut r = String::from_str("AT command error: ");
                r.append(text.as_str());
                r
            },
            AtError::Other(text) => text.clone(),
            AtError::Timeout => String::from_str("Timeout waiting for response"),
            AtError::ProtocolIncomplete => String::from_str(
                "Response ended before its terminator line",
            ),
            AtError::AlreadyStarted => String::from_str("Reader thread already started"),
        }
    }

    /// The failure to open a port, with the serial port library's
    /// description of it.
    pub fn port_open_failure(e: &serialport::Error) -> (r: AtError)
        ensures
            r@ == ErrorView::PortOpen(port_error_text(*e)),
    {
        AtError::PortOpenError(port_error_description(e))
    }

    /// The failure to list the ports, with the serial port library's
    /// description of it.
    pub fn enumeration_failure(e: &serialport::Error) -> (r: AtError)
        ensures
            r@ == ErrorView::Other(port_error_text(*e)),
    {
        AtError::Other(port_error_description(e))
    }
}

} // verus!
