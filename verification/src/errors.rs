//! Why a file could not be opened, and which errors of a stream are fatal.

use vstd::prelude::*;
use vstd::std_specs::convert::FromSpecImpl;

verus! {

/// An error of the operating system, `std::io::Error`. Nothing is known of
/// what it holds.
#[verifier::external_type_specification]
#[verifier::external_body]
pub struct ExIoError(std::io::Error);

/// An error of the container or the codec, symphonia's `Error`. Nothing is
/// known of what it holds.
#[verifier::external_type_specification]
#[verifier::external_body]
pub struct ExSymphoniaError(symphonia::core::errors::Error);

/// Why a file could not be opened.
#[derive(Debug)]
pub enum FileStreamOpenError {
    /// The file is missing or cannot be read.
    IoError(std::io::Error),
    /// The container or the codec is not understood.
    SymphoniaError(symphonia::core::errors::Error),
    /// The container has no default track.
    NoTrackFound,
}

/// The kind of a `FileStreamOpenError`.
#[derive(Clone, Copy, Debug, PartialEq, Eq, Structural)]
pub enum OpenErrorKind {
    Io,
    Codec,
    NoTrack,
}

impl FileStreamOpenError {
    /// The kind of this error.
    pub open spec fn spec_kind(self) -> OpenErrorKind {
        match self {
            FileStreamOpenError::IoError(_) => OpenErrorKind::Io,
            FileStreamOpenError::SymphoniaError(_) => OpenErrorKind::Codec,
            FileStreamOpenError::NoTrackFound => OpenErrorKind::NoTrack,
        }
    }

    /// The kind of this error.
    pub fn kind(&self) -> (kind: OpenErrorKind)
        ensures
            kind == self.spec_kind(),
    {
        match self {
            FileStreamOpenError::IoError(_) => OpenErrorKind::Io,
            FileStreamOpenError::SymphoniaError(_) => OpenErrorKind::Codec,
            FileStreamOpenError::NoTrackFound => OpenErrorKind::NoTrack,
        }
    }
}

/// Which of its variants symphonia's `Error` is.
#[derive(Clone, Copy, Debug, PartialEq, Eq, Structural)]
pub enum StreamErrorKind {
    Io,
    Decode,
    Seek,
    Unsupported,
    Limit,
    ResetRequired,
}

/// What an I/O error says of itself.
#[derive(Clone, Debug)]
pub struct IoFault {
    /// Whether its kind is `UnexpectedEof`.
    pub unexpected_eof: bool,
    /// Its text.
    pub text: String,
}

/// Which of its variants an error of symphonia is.
pub uninterp spec fn error_kind(error: symphonia::core::errors::Error) -> StreamErrorKind;

/// Tells the variants of symphonia's `Error` apart, one arm for each: the
/// answer is the variant that the error is.
#[verifier::external_body]
fn variant_of(error: &symphonia::core::errors::Error) -> (kind: StreamErrorKind)
    ensures
        kind == error_kind(*error),
{
    match error {
        symphonia::core::errors::Error::IoError(_) => StreamErrorKind::Io,
        symphonia::core::errors::Error::DecodeError(_) => StreamErrorKind::Decode,
        symphonia::core::errors::Error::SeekError(_) => StreamErrorKind::Seek,
        symphonia::core::errors::Error::Unsupported(_) => StreamErrorKind::Unsupported,
        symphonia::core::errors::Error::LimitError(_) => StreamErrorKind::Limit,
        symphonia::core::errors::Error::ResetRequired => StreamErrorKind::ResetRequired,
    }
}

/// The I/O error inside symphonia's `Error`: there is one exactly where the
/// error is its `IoError` variant. Nothing is claimed of what it holds.
#[verifier::external_body]
fn io_error_of(error: &symphonia::core::errors::Error) -> (io: Option<&std::io::Error>)
    ensures
        io is Some <==> error_kind(*error) == StreamErrorKind::Io,
{
    match error {
        symphonia::core::errors::Error::IoError(io) => Some(io),
        _ => None,
    }
}

/// Whether `std::io::Error::kind` gives `UnexpectedEof`. Nothing is claimed
/// of the answer.
#[verifier::external_body]
fn is_unexpected_eof(io: &std::io::Error) -> (unexpected: bool) {
    matches!(io.kind(), std::io::ErrorKind::UnexpectedEof)
}

/// The text of an I/O error, by `to_string`. Nothing is claimed of the
/// answer.
#[verifier::external_body]
fn io_text(io: &std::io::Error) -> (text: String) {
    io.to_string()
}

/// The text with which the reader marks the end of its stream.
pub open spec fn end_of_stream_text() -> Seq<char> {
    "end of stream"@
}

/// An error of the reader ends the stream in good order exactly where it is
/// an I/O error of kind `UnexpectedEof` whose text is "end of stream". Any
/// other error of the reader is fatal.
pub open spec fn marks_end_of_stream(io: Option<IoFault>) -> bool {
    io matches Some(fault) && fault.unexpected_eof && fault.text@ == end_of_stream_text()
}

/// An error of the decoder is passed over exactly where it is a decode
/// error: the packet is dropped and the next one is read. Any other error of
/// the decoder is fatal.
pub open spec fn is_passed_over(kind: StreamErrorKind) -> bool {
    kind == StreamErrorKind::Decode
}

/// Whether an error of the reader, of which `io` holds the I/O part, ends
/// the stream in good order.
pub fn ends_stream_of(io: &Option<IoFault>) -> (ends: bool)
    ensures
        ends == marks_end_of_stream(*io),
{
    match io {
        Some(fault) => {
            let marker = "end of stream".to_owned();
            fault.unexpected_eof && fault.text == marker
        },
        None => false,
    }
}

/// Whether an error of the decoder of this kind is passed over.
pub fn passed_over_of(kind: StreamErrorKind) -> (passed: bool)
    ensures
        passed == is_passed_over(kind),
{
    match kind {
        StreamErrorKind::Decode => true,
        _ => false,
    }
}

/// What the I/O error inside `error` says of itself; `None` exactly where
/// `error` is no I/O error.
pub fn io_fault_of(error: &symphonia::core::errors::Error) -> (io: Option<IoFault>)
    ensures
        io is Some <==> error_kind(*error) == StreamErrorKind::Io,
{
    match io_error_of(error) {
        Some(io) => Some(IoFault { unexpected_eof: is_unexpected_eof(io), text: io_text(io) }),
        None => None,
    }
}

/// Whether this error of the reader ends the stream in good order. The
/// error is read through `io_fault_of`, and `ends_stream_of` decides: only
/// an I/O error ends the stream.
pub fn ends_stream(error: &symphonia::core::errors::Error) -> (ends: bool)
    ensures
        ends ==> error_kind(*error) == StreamErrorKind::Io,
{
    let io = io_fault_of(error);
    ends_stream_of(&io)
}

/// Whether this error of the decoder is passed over: exactly where it is a
/// decode error.
pub fn passed_over(error: &symphonia::core::errors::Error) -> (passed: bool)
    ensures
        passed == is_passed_over(error_kind(*error)),
{
    passed_over_of(variant_of(error))
}

impl From<symphonia::core::errors::Error> for FileStreamOpenError {
    fn from(value: symphonia::core::errors::Error) -> (error: Self)
        ensures
            error == FileStreamOpenError::SymphoniaError(value),
    {
        FileStreamOpenError::SymphoniaError(value)
    }
}

impl FromSpecImpl<symphonia::core::errors::Error> for FileStreamOpenError {
    open spec fn obeys_from_spec() -> bool {
        true
    }

    open spec fn from_spec(value: symphonia::core::errors::Error) -> Self {
        FileStreamOpenError::SymphoniaError(value)
    }
}

impl From<std::io::Error> for FileStreamOpenError {
    fn from(value: std::io::Error) -> (error: Self)
        ensures
            error == FileStreamOpenError::IoError(value),
    {
        FileStreamOpenError::IoError(value)
    }
}

impl FromSpecImpl<std::io::Error> for FileStreamOpenError {
    open spec fn obeys_from_spec() -> bool {
        true
    }

    open spec fn from_spec(value: std::io::Error) -> Self {
        FileStreamOpenError::IoError(value)
    }
}

} // verus!
