use std::io::{Error as IoError, ErrorKind};

use directory_player::errors::{
    ends_stream, ends_stream_of, io_fault_of, passed_over, passed_over_of,
};
use directory_player::{IoFault, StreamErrorKind};

fn io_error(kind: ErrorKind, text: &str) -> symphonia::core::errors::Error {
    symphonia::core::errors::Error::IoError(IoError::new(kind, text))
}

fn seek_error() -> symphonia::core::errors::Error {
    symphonia::core::errors::Error::SeekError(symphonia::core::errors::SeekErrorKind::OutOfRange)
}

#[test]
fn the_readers_end_of_stream_error_ends_the_stream() {
    let error = io_error(ErrorKind::UnexpectedEof, "end of stream");
    assert!(ends_stream(&error));
    assert!(!passed_over(&error));
}

#[test]
fn an_unexpected_end_with_another_text_is_fatal() {
    let error = io_error(ErrorKind::UnexpectedEof, "failed to fill buffer");
    assert!(!ends_stream(&error));
    assert!(!passed_over(&error));
}

#[test]
fn another_io_error_with_the_same_text_is_fatal() {
    let error = io_error(ErrorKind::Other, "end of stream");
    assert!(!ends_stream(&error));
}

#[test]
fn only_a_decode_error_is_passed_over() {
    assert!(passed_over(&symphonia::core::errors::Error::DecodeError("end of stream")));
    assert!(!passed_over(&seek_error()));
    assert!(!passed_over(&symphonia::core::errors::Error::Unsupported("end of stream")));
    assert!(!passed_over(&symphonia::core::errors::Error::LimitError("end of stream")));
    assert!(!passed_over(&symphonia::core::errors::Error::ResetRequired));
    assert!(!passed_over(&io_error(ErrorKind::InvalidData, "bad frame")));
}

#[test]
fn no_error_but_an_io_error_ends_the_stream() {
    assert!(!ends_stream(&symphonia::core::errors::Error::DecodeError("end of stream")));
    assert!(!ends_stream(&seek_error()));
    assert!(!ends_stream(&symphonia::core::errors::Error::Unsupported("end of stream")));
    assert!(!ends_stream(&symphonia::core::errors::Error::LimitError("end of stream")));
    assert!(!ends_stream(&symphonia::core::errors::Error::ResetRequired));
}

#[test]
fn the_io_part_of_an_error_is_read_out() {
    let error = io_error(ErrorKind::UnexpectedEof, "end of stream");
    let fault = io_fault_of(&error).expect("an i/o error");
    assert!(fault.unexpected_eof);
    assert_eq!(fault.text, "end of stream");

    let error = io_error(ErrorKind::NotFound, "no such file");
    let fault = io_fault_of(&error).expect("an i/o error");
    assert!(!fault.unexpected_eof);
    assert_eq!(fault.text, "no such file");

    assert!(io_fault_of(&symphonia::core::errors::Error::ResetRequired).is_none());
}

#[test]
fn the_end_of_the_stream_needs_the_kind_and_the_text() {
    let fault = |unexpected_eof: bool, text: &str| {
        Some(IoFault { unexpected_eof, text: text.to_string() })
    };
    assert!(ends_stream_of(&fault(true, "end of stream")));
    assert!(!ends_stream_of(&fault(false, "end of stream")));
    assert!(!ends_stream_of(&fault(true, "end of stream ")));
    assert!(!ends_stream_of(&fault(true, "")));
    assert!(!ends_stream_of(&None));
}

#[test]
fn the_kind_of_an_error_decides_whether_it_is_passed_over() {
    assert!(passed_over_of(StreamErrorKind::Decode));
    assert!(!passed_over_of(StreamErrorKind::Io));
    assert!(!passed_over_of(StreamErrorKind::Seek));
    assert!(!passed_over_of(StreamErrorKind::Unsupported));
    assert!(!passed_over_of(StreamErrorKind::Limit));
    assert!(!passed_over_of(StreamErrorKind::ResetRequired));
}
