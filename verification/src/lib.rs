//! Protocol engine for AT-command devices on a serial line.
//!
//! The crate holds the rules of the protocol as verified functions on plain
//! values: how a command is terminated before it is sent, how the bytes of a
//! reply are framed into a response, how a chunk of incoming bytes is
//! classified, and how the fields of the common replies are read. The code
//! that owns the serial port feeds these functions with what it read and
//! carries out what they decide.
//!
//! # What is taken on trust
//!
//! Three statements about code outside this crate are assumed, not proved:
//! that `String::push` puts its character at the end of the string
//! ([`text`]), that `std::str::from_utf8` accepts exactly the byte sequences
//! that are valid UTF-8 and keeps their bytes ([`terminal`]), and that an
//! error of the `serialport` crate, written out, is its description
//! ([`error`]). Everything else rests on the specifications that vstd gives
//! to the standard library.

pub mod commands;
pub mod console;
pub mod error;
pub mod framer;
pub mod models;
pub mod query_info;
pub mod serial;
pub mod terminal;
pub mod text;

pub use commands::{normalize_command, ATCommand, BasicCommand};
pub use error::{AtError, IoErrorKind, IoFailure};
pub use framer::{Framer, Phase, ReadEvent};
pub use models::{ConfigInfo, ConnectionStatus, DeviceInfo};
pub use query_info::QueryInfo;
pub use serial::{FlowControl, SerialConfig};
pub use terminal::{DataHandler, ReceivedData, Receiver, ReceiverAction, SimpleDataHandler};
