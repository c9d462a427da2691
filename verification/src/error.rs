//! The errors that operations on the store report.
use vstd::prelude::*;

verus! {

/// Which structural rule a header broke.
#[derive(Debug, Clone, Copy, PartialEq, Eq, Structural)]
pub enum VerificationFailure {
    /// The reserved section is absent, or is not a table.
    MissingMainSection,
    /// The reserved section holds no version string that is a semantic version.
    MissingVersionInfo,
    /// Some entry at the root of the header is not a table.
    NonTableInBaseTable,
}

/// What can go wrong in the store.
#[derive(Debug, Clone, Copy, PartialEq, Eq, Structural)]
pub enum StoreError {
    /// An absolute path was given where an id is wanted.
    InvalidId,
    /// The id is already taken, in the cache or at the backend.
    AlreadyExists,
    /// Neither the cache nor the backend knows the id.
    NotFound,
    /// The entry is borrowed.
    Locked,
    /// The lock on the cache could not be taken.
    LockAcquisitionFailure,
    /// The backend failed.
    BackendIo,
    /// A buffer does not hold a header between two delimiters, or the header does not parse.
    MalformedEntry,
    /// The header breaks a structural rule.
    VerificationFailed(VerificationFailure),
    /// A path component is not valid UTF-8.
    Utf8Error,
    /// The configuration lacks a setting, or holds it with the wrong type.
    Configuration,
}

/// The name of an error.
pub open spec fn error_name(e: StoreError) -> Seq<char> {
    match e {
        StoreError::InvalidId => "InvalidId"@,
        StoreError::AlreadyExists => "AlreadyExists"@,
        StoreError::NotFound => "NotFound"@,
        StoreError::Locked => "Locked"@,
        StoreError::LockAcquisitionFailure => "LockAcquisitionFailure"@,
        StoreError::BackendIo => "BackendIo"@,
        StoreError::MalformedEntry => "MalformedEntry"@,
        StoreError::VerificationFailed(VerificationFailure::MissingMainSection) => "MissingMainSection"@,
        StoreError::VerificationFailed(VerificationFailure::MissingVersionInfo) => "MissingVersionInfo"@,
        StoreError::VerificationFailed(VerificationFailure::NonTableInBaseTable) => "NonTableInBaseTable"@,
        StoreError::Utf8Error => "Utf8Error"@,
        StoreError::Configuration => "Configuration"@,
    }
}

impl StoreError {
    /// A short name for the error, for messages.
    pub fn name(&self) -> (s: &'static str)
        ensures
            s@ == error_name(*self),
    {
        match self {
            StoreError::InvalidId => "InvalidId",
            StoreError::AlreadyExists => "AlreadyExists",
            StoreError::NotFound => "NotFound",
            StoreError::Locked => "Locked",
            StoreError::LockAcquisitionFailure => "LockAcquisitionFailure",
            StoreError::BackendIo => "BackendIo",
            StoreError::MalformedEntry => "MalformedEntry",
            StoreError::VerificationFailed(VerificationFailure::MissingMainSection) => "MissingMainSection",
            StoreError::VerificationFailed(VerificationFailure::MissingVersionInfo) => "MissingVersionInfo",
            StoreError::VerificationFailed(VerificationFailure::NonTableInBaseTable) => "NonTableInBaseTable",
            StoreError::Utf8Error => "Utf8Error",
            StoreError::Configuration => "Configuration",
        }
    }
}

} // verus!
