//! The error type shared by every fallible operation of the library.

use vstd::prelude::*;
use vstd::string::*;

verus! {

/// What went wrong. Each variant carries a human-readable detail.
#[derive(Debug)]
pub enum Error {
    InvalidRecord(String),
    InvalidCommit(String),
    InvalidDid(String),
    InvalidCid(String),
    RepositoryError(String),
    AutomergeError(String),
    SerializationError(String),
    StorageError(String),
    CryptoError(String),
    NotFound(String),
    ValidationError(String),
}

impl Error {
    /// The detail carried by the error, whatever its variant.
    pub open spec fn detail(self) -> Seq<char> {
        match self {
            Error::InvalidRecord(m) => m@,
            Error::InvalidCommit(m) => m@,
            Error::InvalidDid(m) => m@,
            Error::InvalidCid(m) => m@,
            Error::RepositoryError(m) => m@,
            Error::AutomergeError(m) => m@,
            Error::SerializationError(m) => m@,
            Error::StorageError(m) => m@,
            Error::CryptoError(m) => m@,
            Error::NotFound(m) => m@,
            Error::ValidationError(m) => m@,
        }
    }

    /// The fixed text that introduces the detail when the error is shown.
    pub fn label(&self) -> (s: &'static str)
        ensures
            s@ == match *self {
                Error::InvalidRecord(_) => "Invalid record: "@,
                Error::InvalidCommit(_) => "Invalid commit: "@,
                Error::InvalidDid(_) => "Invalid DID: "@,
                Error::InvalidCid(_) => "Invalid CID: "@,
                Error::RepositoryError(_) => "Repository error: "@,
                Error::AutomergeError(_) => "Automerge error: "@,
                Error::SerializationError(_) => "Serialization error: "@,
                Error::StorageError(_) => "Storage error: "@,
                Error::CryptoError(_) => "Crypto error: "@,
                Error::NotFound(_) => "Not found: "@,
                Error::ValidationError(_) => "Validation error: "@,
            },
    {
        match self {
            Error::InvalidRecord(_) => "Invalid record: ",
            Error::InvalidCommit(_) => "Invalid commit: ",
            Error::InvalidDid(_) => "Invalid DID: ",
            Error::InvalidCid(_) => "Invalid CID: ",
            Error::RepositoryError(_) => "Repository error: ",
            Error::AutomergeError(_) => "Automerge error: ",
            Error::SerializationError(_) => "Serialization error: ",
            Error::StorageError(_) => "Storage error: ",
            Error::CryptoError(_) => "Crypto error: ",
            Error::NotFound(_) => "Not found: ",
            Error::ValidationError(_) => "Validation error: ",
        }
    }

    /// The detail carried by the error.
    pub fn message(&self) -> (s: &str)
        ensures
            s@ == self.detail(),
    {
        match self {
            Error::InvalidRecord(m) => m.as_str(),
            Error::InvalidCommit(m) => m.as_str(),
            Error::InvalidDid(m) => m.as_str(),
            Error::InvalidCid(m) => m.as_str(),
            Error::RepositoryError(m) => m.as_str(),
            Error::AutomergeError(m) => m.as_str(),
            Error::SerializationError(m) => m.as_str(),
            Error::StorageError(m) => m.as_str(),
            Error::CryptoError(m) => m.as_str(),
            Error::NotFound(m) => m.as_str(),
            Error::ValidationError(m) => m.as_str(),
        }
    }

    /// The error as one line of text: its label, then its detail.
    pub fn to_string(&self) -> (s: String)
        ensures
            s@ == match *self {
                Error::InvalidRecord(_) => "Invalid record: "@,
                Error::InvalidCommit(_) => "Invalid commit: "@,
                Error::InvalidDid(_) => "Invalid DID: "@,
                Error::InvalidCid(_) => "Invalid CID: "@,
                Error::RepositoryError(_) => "Repository error: "@,
                Error::AutomergeError(_) => "Automerge error: "@,
                Error::SerializationError(_) => "Serialization error: "@,
                Error::StorageError(_) => "Storage error: "@,
                Error::CryptoError(_) => "Crypto error: "@,
                Error::NotFound(_) => "Not found: "@,
                Error::ValidationError(_) => "Validation error: "@,
            } + self.detail(),
    {
        crate::text::concat(self.label(), self.message())
    }
}

/// `automerge::AutomergeError`, the CRDT's own error. Nothing inside it is
/// seen here; `automerge_error_message` names the text that it shows.
#[verifier::external_type_specification]
#[verifier::external_body]
pub struct ExAutomergeError(automerge::AutomergeError);

/// The text that the CRDT's error shows of itself.
pub uninterp spec fn automerge_error_message(e: automerge::AutomergeError) -> String;

/// `ToString::to_string` on `automerge::AutomergeError`: the text that the
/// error's `Display` writes, here under its name.
#[verifier::external_body]
pub(crate) fn automerge_error_text(e: &automerge::AutomergeError) -> (text: String)
    ensures
        text == automerge_error_message(*e),
{
    e.to_string()
}

impl From<automerge::AutomergeError> for Error {
    /// The CRDT's error as an `AutomergeError` that carries its text.
    fn from(e: automerge::AutomergeError) -> (r: Error) {
        Error::AutomergeError(automerge_error_text(&e))
    }
}

impl vstd::std_specs::convert::FromSpecImpl<automerge::AutomergeError> for Error {
    open spec fn obeys_from_spec() -> bool {
        true
    }

    open spec fn from_spec(e: automerge::AutomergeError) -> Error {
        Error::AutomergeError(automerge_error_message(e))
    }
}

} // verus!
