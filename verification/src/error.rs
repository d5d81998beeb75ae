//! The failures that the store reports to its caller.

use vstd::prelude::*;

verus! {

/// Why an operation of the store did not succeed.
#[derive(Clone, Copy, Debug, PartialEq, Eq, Structural)]
pub enum StoreError {
    /// The authentication tag did not verify: wrong password or altered ciphertext.
    AuthenticationError,
    /// A module of that name is already there.
    AlreadyExists,
    /// The module or entry referred to is absent, or not in a state that has it.
    NotFound,
    /// The key derivation rejected its parameters.
    KeyDerivationError,
    /// The cipher rejected the key or the message.
    EncryptionError,
    /// An entry file or a registry file is malformed.
    SerializationError,
    /// The storage underneath failed.
    IoError,
}

impl StoreError {
    /// A short text for the boundary layer to show.
    pub fn message(&self) -> (text: &'static str)
        ensures
            text@ == error_text(*self),
    {
        match self {
            StoreError::AuthenticationError => "authentication failed: wrong password or damaged data",
            StoreError::AlreadyExists => "module already exists",
            StoreError::NotFound => "no such module or entry",
            StoreError::KeyDerivationError => "key derivation failed",
            StoreError::EncryptionError => "encryption failed",
            StoreError::SerializationError => "malformed entry or registry data",
            StoreError::IoError => "storage failure",
        }
    }

    /// Whether the caller can simply try again (re-prompt, pick another name).
    pub fn is_recoverable(&self) -> (r: bool)
        ensures
            r == (*self == StoreError::AuthenticationError || *self == StoreError::AlreadyExists
                || *self == StoreError::NotFound),
    {
        match self {
            StoreError::AuthenticationError | StoreError::AlreadyExists | StoreError::NotFound => true,
            _ => false,
        }
    }
}

/// The text that `message` gives for each failure.
pub open spec fn error_text(e: StoreError) -> Seq<char> {
    match e {
        StoreError::AuthenticationError => "authentication failed: wrong password or damaged data"@,
        StoreError::AlreadyExists => "module already exists"@,
        StoreError::NotFound => "no such module or entry"@,
        StoreError::KeyDerivationError => "key derivation failed"@,
        StoreError::EncryptionError => "encryption failed"@,
        StoreError::SerializationError => "malformed entry or registry data"@,
        StoreError::IoError => "storage failure"@,
    }
}

} // verus!
