use vstd::prelude::*;

verus! {

/// `std::io::Error`, carried opaquely when a stream cannot be opened or mapped.
#[verifier::external_type_specification]
#[verifier::external_body]
pub struct ExIoError(std::io::Error);

/// Failures of the byte-stream scan.
///
/// `InvalidLaneCount` is a configuration error (a scan width too small for the
/// pattern); `IncorrectByteSequence`, `UnexpectedByte` and `MisalignedIndices`
/// are format errors; `UnexpectedTermination` reports a buffer that ended
/// before a required marker.
#[derive(Debug, Clone, PartialEq, Eq)]
pub enum ByteStreamError {
    IncorrectByteSequence { expected: String, got: String },
    UnexpectedTermination(String),
    MisalignedIndices(String),
    InvalidLaneCount(String),
    Redaction(String),
    UnexpectedByte(String, String),
}

/// The class of a `ByteStreamError`, without its diagnostic text.
#[derive(Debug, Clone, Copy, PartialEq, Eq)]
pub enum ErrorKind {
    Configuration,
    Termination,
    IncorrectSequence,
    UnexpectedByte,
    Misaligned,
    Redaction,
}

impl ByteStreamError {
    /// The class of this error.
    pub open spec fn spec_kind(&self) -> ErrorKind {
        match self {
            ByteStreamError::IncorrectByteSequence { .. } => ErrorKind::IncorrectSequence,
            ByteStreamError::UnexpectedTermination(_) => ErrorKind::Termination,
            ByteStreamError::MisalignedIndices(_) => ErrorKind::Misaligned,
            ByteStreamError::InvalidLaneCount(_) => ErrorKind::Configuration,
            ByteStreamError::Redaction(_) => ErrorKind::Redaction,
            ByteStreamError::UnexpectedByte(_, _) => ErrorKind::UnexpectedByte,
        }
    }

    /// The class of this error.
    pub fn kind(&self) -> (r: ErrorKind)
        ensures
            r == self.spec_kind(),
    {
        match self {
            ByteStreamError::IncorrectByteSequence { .. } => ErrorKind::IncorrectSequence,
            ByteStreamError::UnexpectedTermination(_) => ErrorKind::Termination,
            ByteStreamError::MisalignedIndices(_) => ErrorKind::Misaligned,
            ByteStreamError::InvalidLaneCount(_) => ErrorKind::Configuration,
            ByteStreamError::Redaction(_) => ErrorKind::Redaction,
            ByteStreamError::UnexpectedByte(_, _) => ErrorKind::UnexpectedByte,
        }
    }
}

/// Failures of decoding a whole stream.
#[derive(Debug)]
pub enum DecodingError {
    UnrecognizedFilePath(String),
    FileError(std::io::Error),
    BytestreamError(ByteStreamError),
}

impl From<ByteStreamError> for DecodingError {
    fn from(e: ByteStreamError) -> (r: Self) {
        DecodingError::BytestreamError(e)
    }
}

impl vstd::std_specs::convert::FromSpecImpl<ByteStreamError> for DecodingError {
    open spec fn obeys_from_spec() -> bool {
        true
    }

    open spec fn from_spec(e: ByteStreamError) -> Self {
        DecodingError::BytestreamError(e)
    }
}

impl From<std::io::Error> for DecodingError {
    fn from(e: std::io::Error) -> (r: Self) {
        DecodingError::FileError(e)
    }
}

impl vstd::std_specs::convert::FromSpecImpl<std::io::Error> for DecodingError {
    open spec fn obeys_from_spec() -> bool {
        true
    }

    open spec fn from_spec(e: std::io::Error) -> Self {
        DecodingError::FileError(e)
    }
}

} // verus!
