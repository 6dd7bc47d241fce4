use vstd::prelude::*;

verus! {

/// The kinds of failure that the library reports. Every fallible operation
/// returns exactly one of them; none of them is ever raised as a panic.
#[derive(Clone, Copy, Debug, PartialEq, Eq, Structural)]
pub enum ErrorKind {
    /// A signup or a rename asked for a username or an email that is taken.
    DuplicateIdentity,
    /// No row matches the key that was looked up.
    NotFound,
    /// The identity exists, but the password verifier did not accept.
    InvalidCredentials,
    /// The random source, the password hasher or the token cipher failed.
    CryptoFailure,
    /// A play state or a platform lies outside its allow-list.
    InvalidEnumValue,
    /// The caller does not own the record it tried to change.
    Forbidden,
    /// A session token did not open under the server's key.
    Unauthenticated,
    /// At least one entry of an external catalog could not be reconciled.
    SyncError,
    /// The store refused a write: a uniqueness constraint on a catalog or
    /// collection row, or no row id left to give out.
    StorageFailure,
}

impl ErrorKind {
    /// The kind as a client is told it. A login that fails because no
    /// identity matches is told like one that fails on the password, so that
    /// the answer does not reveal which identities exist.
    pub open spec fn shown(self) -> ErrorKind {
        if self == ErrorKind::NotFound {
            ErrorKind::InvalidCredentials
        } else {
            self
        }
    }

    /// The kind to tell the client of a failed login.
    pub fn shown_to_client(self) -> (r: ErrorKind)
        ensures
            r == self.shown(),
    {
        match self {
            ErrorKind::NotFound => ErrorKind::InvalidCredentials,
            _ => self,
        }
    }
}

} // verus!
