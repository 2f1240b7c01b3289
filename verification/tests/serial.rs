use at_serial::error::{AtError, IoErrorKind, IoFailure};
use at_serial::serial::{complete_read, complete_write, FlowControl, SerialConfig};

fn failure(kind: IoErrorKind, message: &str) -> IoFailure {
    IoFailure { kind, message: message.to_string() }
}

#[test]
fn default_config() {
    let config = SerialConfig::default();
    assert_eq!(config.path, "COM1");
    assert_eq!(config.baud_rate, 115200);
    assert_eq!(config.timeout_ms, 10);
    assert_eq!(config.flow_control, FlowControl::Off);
    assert!(config.check());
}

#[test]
fn config_with_fields_replaced() {
    let config =
        SerialConfig { path: "/dev/ttyUSB0".to_string(), baud_rate: 9600, ..Default::default() };
    assert_eq!(config.path, "/dev/ttyUSB0");
    assert_eq!(config.baud_rate, 9600);
    assert_eq!(config.timeout_ms, 10);
    assert!(config.check());
}

#[test]
fn config_needs_a_positive_baud_rate() {
    let config = SerialConfig { baud_rate: 0, ..Default::default() };
    assert!(!config.check());
}

#[test]
fn read_passes_the_count_on() {
    assert_eq!(complete_read(Ok(0)), Ok(0));
    assert_eq!(complete_read(Ok(17)), Ok(17));
}

#[test]
fn read_timeout_is_a_read_of_no_bytes() {
    assert_eq!(complete_read(Err(failure(IoErrorKind::TimedOut, "Operation timed out"))), Ok(0));
}

#[test]
fn read_failure_is_an_io_error() {
    for kind in [
        IoErrorKind::NotFound,
        IoErrorKind::PermissionDenied,
        IoErrorKind::BrokenPipe,
        IoErrorKind::InvalidInput,
        IoErrorKind::WouldBlock,
        IoErrorKind::Interrupted,
        IoErrorKind::UnexpectedEof,
        IoErrorKind::Other,
    ] {
        assert_eq!(
            complete_read(Err(failure(kind, "broken"))),
            Err(AtError::IoError(failure(kind, "broken")))
        );
    }
}

#[test]
fn write_reports_the_whole_length() {
    assert_eq!(complete_write(4, Ok(()), Ok(())), Ok(4));
    assert_eq!(complete_write(0, Ok(()), Ok(())), Ok(0));
}

#[test]
fn write_swallows_a_failed_flush() {
    assert_eq!(
        complete_write(6, Ok(()), Err(failure(IoErrorKind::Other, "Incorrect function"))),
        Ok(6)
    );
    assert_eq!(complete_write(6, Ok(()), Err(failure(IoErrorKind::TimedOut, "late"))), Ok(6));
}

#[test]
fn write_failure_is_an_io_error() {
    assert_eq!(
        complete_write(6, Err(failure(IoErrorKind::BrokenPipe, "gone")), Ok(())),
        Err(AtError::IoError(failure(IoErrorKind::BrokenPipe, "gone")))
    );
    assert_eq!(
        complete_write(6, Err(failure(IoErrorKind::TimedOut, "late")), Ok(())),
        Err(AtError::IoError(failure(IoErrorKind::TimedOut, "late")))
    );
}
