//! The error kinds of the library. They are mutually exclusive; each carries a
//! short human-readable message.

use vstd::prelude::*;

verus! {

/// What went wrong. The variant is the kind; the string is for people.
#[derive(Clone, Debug)]
pub enum Error {
    /// Key derivation failure, key size mismatch, failed authentication of a
    /// ciphertext, invalid signature.
    Crypto(String),
    /// Failure of the storage engine, a violated constraint, a failed migration.
    Storage(String),
    /// Overlay not attached, deadline exceeded, mailbox full, invalid descriptor.
    Network(String),
    /// Missing primary identity, unknown identity.
    Identity(String),
    /// Unknown peer in an operation on the trust graph.
    Trust(String),
    /// Malformed input.
    Invalid(String),
    /// The record is absent.
    NotFound(String),
    /// The operation is not allowed in the current state.
    PermissionDenied(String),
    /// A deadline passed.
    Timeout(String),
    /// Encoding or decoding failed at the store or wire boundary.
    Serialization(String),
    /// A broken invariant.
    Internal(String),
}

/// The kind of an [`Error`], without its message.
#[derive(Clone, Copy, Debug, PartialEq, Eq, Structural)]
pub enum ErrorKind {
    Crypto,
    Storage,
    Network,
    Identity,
    Trust,
    Invalid,
    NotFound,
    PermissionDenied,
    Timeout,
    Serialization,
    Internal,
}

impl Error {
    /// The kind of this error.
    pub open spec fn spec_kind(&self) -> ErrorKind {
        match self {
            Error::Crypto(_) => ErrorKind::Crypto,
            Error::Storage(_) => ErrorKind::Storage,
            Error::Network(_) => ErrorKind::Network,
            Error::Identity(_) => ErrorKind::Identity,
            Error::Trust(_) => ErrorKind::Trust,
            Error::Invalid(_) => ErrorKind::Invalid,
            Error::NotFound(_) => ErrorKind::NotFound,
            Error::PermissionDenied(_) => ErrorKind::PermissionDenied,
            Error::Timeout(_) => ErrorKind::Timeout,
            Error::Serialization(_) => ErrorKind::Serialization,
            Error::Internal(_) => ErrorKind::Internal,
        }
    }

    /// The message carried by this error.
    pub open spec fn spec_message(self) -> Seq<char> {
        match self {
            Error::Crypto(m) => m@,
            Error::Storage(m) => m@,
            Error::Network(m) => m@,
            Error::Identity(m) => m@,
            Error::Trust(m) => m@,
            Error::Invalid(m) => m@,
            Error::NotFound(m) => m@,
            Error::PermissionDenied(m) => m@,
            Error::Timeout(m) => m@,
            Error::Serialization(m) => m@,
            Error::Internal(m) => m@,
        }
    }

    /// The kind of this error.
    #[verifier::when_used_as_spec(spec_kind)]
    pub fn kind(&self) -> (k: ErrorKind)
        ensures
            k == self.spec_kind(),
    {
        match self {
            Error::Crypto(_) => ErrorKind::Crypto,
            Error::Storage(_) => ErrorKind::Storage,
            Error::Network(_) => ErrorKind::Network,
            Error::Identity(_) => ErrorKind::Identity,
            Error::Trust(_) => ErrorKind::Trust,
            Error::Invalid(_) => ErrorKind::Invalid,
            Error::NotFound(_) => ErrorKind::NotFound,
            Error::PermissionDenied(_) => ErrorKind::PermissionDenied,
            Error::Timeout(_) => ErrorKind::Timeout,
            Error::Serialization(_) => ErrorKind::Serialization,
            Error::Internal(_) => ErrorKind::Internal,
        }
    }

    /// The message carried by this error.
    pub fn message(&self) -> (m: &str)
        ensures
            m@ == self.spec_message(),
    {
        match self {
            Error::Crypto(m) => m.as_str(),
            Error::Storage(m) => m.as_str(),
            Error::Network(m) => m.as_str(),
            Error::Identity(m) => m.as_str(),
            Error::Trust(m) => m.as_str(),
            Error::Invalid(m) => m.as_str(),
            Error::NotFound(m) => m.as_str(),
            Error::PermissionDenied(m) => m.as_str(),
            Error::Timeout(m) => m.as_str(),
            Error::Serialization(m) => m.as_str(),
            Error::Internal(m) => m.as_str(),
        }
    }

    /// The words that introduce a message of the given kind.
    pub open spec fn spec_prefix(kind: ErrorKind) -> Seq<char> {
        match kind {
            ErrorKind::Crypto => "Cryptographic error: "@,
            ErrorKind::Storage => "Database error: "@,
            ErrorKind::Network => "Network error: "@,
            ErrorKind::Identity => "Identity error: "@,
            ErrorKind::Trust => "Trust error: "@,
            ErrorKind::Invalid => "Invalid: "@,
            ErrorKind::NotFound => "Not found: "@,
            ErrorKind::PermissionDenied => "Permission denied: "@,
            ErrorKind::Timeout => "Timeout: "@,
            ErrorKind::Serialization => "Serialization error: "@,
            ErrorKind::Internal => "Internal error: "@,
        }
    }

    /// The words that introduce a message of the given kind.
    pub fn prefix(kind: ErrorKind) -> (p: &'static str)
        ensures
            p@ == Self::spec_prefix(kind),
    {
        match kind {
            ErrorKind::Crypto => "Cryptographic error: ",
            ErrorKind::Storage => "Database error: ",
            ErrorKind::Network => "Network error: ",
            ErrorKind::Identity => "Identity error: ",
            ErrorKind::Trust => "Trust error: ",
            ErrorKind::Invalid => "Invalid: ",
            ErrorKind::NotFound => "Not found: ",
            ErrorKind::PermissionDenied => "Permission denied: ",
            ErrorKind::Timeout => "Timeout: ",
            ErrorKind::Serialization => "Serialization error: ",
            ErrorKind::Internal => "Internal error: ",
        }
    }

    /// The code with which a command ends after an error of the given kind:
    /// 2 for the network and its deadlines, 3 for cryptography, 4 for the
    /// store and what could not be read from it, 64 for what should not
    /// happen, and 1 for what the user can mend.
    pub open spec fn spec_exit_code(kind: ErrorKind) -> u8 {
        match kind {
            ErrorKind::Network => 2,
            ErrorKind::Timeout => 2,
            ErrorKind::Crypto => 3,
            ErrorKind::Storage => 4,
            ErrorKind::Serialization => 4,
            ErrorKind::Internal => 64,
            _ => 1,
        }
    }

    /// The code with which a command ends after this error; a command that
    /// succeeds ends with 0.
    pub fn exit_code(&self) -> (code: u8)
        ensures
            code == Self::spec_exit_code(self.spec_kind()),
            code != 0,
    {
        match self.kind() {
            ErrorKind::Network => 2,
            ErrorKind::Timeout => 2,
            ErrorKind::Crypto => 3,
            ErrorKind::Storage => 4,
            ErrorKind::Serialization => 4,
            ErrorKind::Internal => 64,
            _ => 1,
        }
    }

    /// The error as one line of text: the words for its kind, then its message.
    pub fn to_string(&self) -> (s: String)
        ensures
            s@ == Self::spec_prefix(self.spec_kind()) + self.spec_message(),
    {
        let start = String::from_str(Self::prefix(self.kind()));
        start.concat(self.message())
    }
}

} // verus!
