//! The error type of the annotation store.
use vstd::prelude::*;

verus! {

/// `std::io::Error`, carried opaquely by `Error::Io`.
#[verifier::external_type_specification]
#[verifier::external_body]
pub struct ExIoError(std::io::Error);

/// `base64::DecodeError`, carried opaquely by `Error::Base64`.
#[verifier::external_type_specification]
#[verifier::external_body]
pub struct ExDecodeError(base64::DecodeError);

/// What can go wrong while reading or changing the annotation store.
#[derive(Debug)]
pub enum Error {
    /// Reading or writing a file failed.
    Io(std::io::Error),
    /// The annotations file did not hold valid JSON; the text describes why.
    Json(String),
    /// A screenshot's payload was not valid base64.
    Base64(base64::DecodeError),
    /// No annotation (or screenshot) answers to the given name.
    NotFound(String),
    /// A lock guarding the store was poisoned.
    MutexPoisoned(String),
    /// Any other failure, described in words.
    Other(String),
}

} // verus!
