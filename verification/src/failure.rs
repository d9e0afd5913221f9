use vstd::prelude::*;

verus! {

/// The error of `reqwest`, whatever went wrong between building a request
/// and reading the last byte of the answer. Nothing is known of a value.
#[verifier::external_type_specification]
#[verifier::external_body]
pub struct ExReqwestError(reqwest::Error);

/// The error of std's I/O. Nothing is known of a value.
#[verifier::external_type_specification]
#[verifier::external_body]
pub struct ExIoError(std::io::Error);

/// Why fetching one resource failed.
#[derive(Clone, Copy, Debug, PartialEq, Eq, Structural)]
pub enum Failure {
    /// The remote host could not be reached or read from.
    Network,
    /// The local file could not be created, opened, written or read.
    LocalIo,
}

impl From<std::io::Error> for Failure {
    /// Every error of the local file system counts as `LocalIo`.
    fn from(e: std::io::Error) -> (r: Failure) {
        Failure::LocalIo
    }
}

impl vstd::std_specs::convert::FromSpecImpl<std::io::Error> for Failure {
    open spec fn obeys_from_spec() -> bool {
        true
    }

    open spec fn from_spec(e: std::io::Error) -> Failure {
        Failure::LocalIo
    }
}

impl From<reqwest::Error> for Failure {
    /// Every error of the transfer counts as `Network`, whatever its cause.
    fn from(e: reqwest::Error) -> (r: Failure) {
        Failure::Network
    }
}

impl vstd::std_specs::convert::FromSpecImpl<reqwest::Error> for Failure {
    open spec fn obeys_from_spec() -> bool {
        true
    }

    open spec fn from_spec(e: reqwest::Error) -> Failure {
        Failure::Network
    }
}

} // verus!
