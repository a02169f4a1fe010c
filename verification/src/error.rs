//! Errors and results for the vault core.

use vstd::prelude::*;

verus! {

/// Everything that can go wrong in the vault core.
///
/// Wrong password, tampered metadata and tampered ciphertext are deliberately
/// conflated into the single [`Error::AuthenticationFailed`] kind, so that a
/// caller (or an attacker watching a caller) cannot tell the causes apart.
#[derive(Debug, PartialEq, Eq)]
pub enum Error {
    /// The item label is required and must be a single line.
    LabelRequired,
    /// The secret itself is required.
    SecretRequired,
    /// The encryption (master) password is required and must be a single line.
    EncryptionPasswordRequired,
    /// The account name must be a single line if specified.
    AccountNameSingleLine,
    /// The password confirmation does not match the encryption password.
    ConfirmPasswordMismatch,
    /// No item is currently selected.
    SelectionRequired,
    /// Password hashing failed (the password was malformed, e.g. absurdly long).
    Hashing,
    /// Wrong password, tampered metadata, or tampered ciphertext.
    AuthenticationFailed,
    /// Invalid padding in a decrypted secret.
    Unpad,
    /// A unique column (label, KDF salt, or authentication nonce) collided
    /// with an existing item on insert.
    ConstraintViolation,
    /// No item with the requested unique id exists.
    NotFound,
    /// The store records a schema version newer than this build supports.
    SchemaVersionMismatch { expected: i64, actual: i64 },
    /// The store cannot assign any further unique ids.
    StorageFull,
    /// Another error, annotated with a human-readable message.
    Context { message: String, source: Box<Error> },
}

impl Error {
    /// Wraps an error with a human-readable message.
    pub fn context(source: Error, message: String) -> (r: Error)
        ensures
            r == (Error::Context { message, source: Box::new(source) }),
    {
        Error::Context { message, source: Box::new(source) }
    }
}

/// Extends `Result` with a way to annotate its error with a message.
pub trait ResultExt<T>: Sized {
    /// Replaces the error, if any, with the same error wrapped in a message.
    fn context(self, message: String) -> Result<T, Error>;
}

impl<T> ResultExt<T> for Result<T, Error> {
    fn context(self, message: String) -> (r: Result<T, Error>)
        ensures
            self matches Ok(v) ==> r matches Ok(w) && w == v,
            self matches Err(e) ==> r == Err::<T, Error>(Error::Context {
                message,
                source: Box::new(e),
            }),
    {
        match self {
            Ok(v) => Ok(v),
            Err(e) => Err(Error::context(e, message)),
        }
    }
}

} // verus!
