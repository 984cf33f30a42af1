//! The error taxonomy of the vault.
//!
//! Every operation reports its failure through [`PassmanError`]; no error is
//! swallowed and no operation partially succeeds.

use vstd::prelude::*;

verus! {

/// The kind of an I/O failure, as the caller needs to distinguish it.
///
/// A missing entry file surfaces as `NotFound`; a command line that names no
/// usable command surfaces as `InvalidInput`.
#[derive(Clone, Copy, Debug, PartialEq, Eq, Structural)]
pub enum IoErrorKind {
    NotFound,
    PermissionDenied,
    InvalidInput,
    Other,
}

/// An error of the vault.
///
/// - `IoError`: a file was missing, unreadable or unwritable, or an input was
///   unusable; carried by kind.
/// - `ChaChaPoly`: the authentication tag did not verify.  This is the sole
///   signal for a wrong master passphrase or a corrupted/tampered file; the
///   two causes are indistinguishable by design.
/// - `FromUtf8`: the decrypted bytes were not valid UTF-8.
/// - `Argon2`: the key-derivation cost parameters were outside the
///   algorithm's valid domain, or the key derivation itself failed.
/// - `InvalidFileFormat`: the entry file's header failed a magic, tag or
///   length check.
/// - `UnsupportedVersion`: the entry file carries a format version this
///   library does not read.
#[derive(Clone, Copy, Debug, PartialEq, Eq, Structural)]
pub enum PassmanError {
    IoError(IoErrorKind),
    ChaChaPoly,
    FromUtf8,
    Argon2,
    InvalidFileFormat,
    UnsupportedVersion,
}

impl PassmanError {
    /// The user-facing description of this error.
    pub open spec fn message_spec(&self) -> Seq<char> {
        match self {
            PassmanError::IoError(IoErrorKind::NotFound) => "File not found."@,
            PassmanError::IoError(IoErrorKind::PermissionDenied) => "Permission denied."@,
            PassmanError::IoError(IoErrorKind::InvalidInput) => "Invalid input."@,
            PassmanError::IoError(IoErrorKind::Other) => "File access error."@,
            PassmanError::ChaChaPoly => "Encryption error. Wrong master password?"@,
            PassmanError::FromUtf8 => "Invalid password file contents."@,
            PassmanError::Argon2 => "Password hashing error."@,
            PassmanError::InvalidFileFormat => "Invalid file format: Header check failed or file is corrupted."@,
            PassmanError::UnsupportedVersion => "Unsupported file version."@,
        }
    }

    /// Render this error as text for display.
    pub fn message(&self) -> (r: String)
        ensures
            r@ == self.message_spec(),
    {
        match self {
            PassmanError::IoError(IoErrorKind::NotFound) => "File not found.".to_owned(),
            PassmanError::IoError(IoErrorKind::PermissionDenied) => "Permission denied.".to_owned(),
            PassmanError::IoError(IoErrorKind::InvalidInput) => "Invalid input.".to_owned(),
            PassmanError::IoError(IoErrorKind::Other) => "File access error.".to_owned(),
            PassmanError::ChaChaPoly => "Encryption error. Wrong master password?".to_owned(),
            PassmanError::FromUtf8 => "Invalid password file contents.".to_owned(),
            PassmanError::Argon2 => "Password hashing error.".to_owned(),
            PassmanError::InvalidFileFormat => "Invalid file format: Header check failed or file is corrupted.".to_owned(),
            PassmanError::UnsupportedVersion => "Unsupported file version.".to_owned(),
        }
    }
}

} // verus!
