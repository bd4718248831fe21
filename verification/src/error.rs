//! Error handling: the toolkit-wide error enumeration and its `Result`
//! alias. A failed tool invocation surfaces as `Other` with the tool's
//! diagnostic text; I/O failures carry the underlying error.

use vstd::prelude::*;

verus! {

/// Declares `std::io::Error` so that it can be carried as a payload;
/// nothing is assumed about its values.
#[verifier::external_type_specification]
#[verifier::external_body]
pub struct ExIoError(std::io::Error);

/// Declares `std::path::PathBuf` so that paths can be held and passed
/// through; the library never looks inside one.
#[verifier::external_type_specification]
#[verifier::external_body]
pub struct ExPathBuf(std::path::PathBuf);

/// Result type used throughout the toolkit.
pub type Result<T> = core::result::Result<T, Error>;

/// The ways a toolkit command can fail.
#[derive(Debug)]
pub enum Error {
    /// An I/O operation failed.
    Io(std::io::Error),
    /// An integer conversion failed.
    IntConversion(std::num::TryFromIntError),
    /// A file or directory could not be accessed.
    PathAccess(std::path::PathBuf),
    /// An invalid depth value was supplied.
    InvalidDepth(i32),
    /// A file-name pattern was rejected.
    Pattern(String),
    /// Any other failure, such as the connection-enumeration tool
    /// refusing to run; the payload is its diagnostic text.
    Other(String),
}

impl From<std::io::Error> for Error {
    fn from(err: std::io::Error) -> (r: Error) {
        Error::Io(err)
    }
}

impl vstd::std_specs::convert::FromSpecImpl<std::io::Error> for Error {
    open spec fn obeys_from_spec() -> bool {
        true
    }

    open spec fn from_spec(err: std::io::Error) -> Error {
        Error::Io(err)
    }
}

impl From<std::num::TryFromIntError> for Error {
    fn from(err: std::num::TryFromIntError) -> (r: Error) {
        Error::IntConversion(err)
    }
}

impl vstd::std_specs::convert::FromSpecImpl<std::num::TryFromIntError> for Error {
    open spec fn obeys_from_spec() -> bool {
        true
    }

    open spec fn from_spec(err: std::num::TryFromIntError) -> Error {
        Error::IntConversion(err)
    }
}

} // verus!
