//! Error kinds shared by the whole library.

use vstd::prelude::*;

verus! {

/// Every failure the library can report, as a closed enumeration.
#[derive(Copy, Clone, Debug, PartialEq, Eq, Structural)]
pub enum MucoErrorKind {
    /// An unclassified failure.
    Unknown,
    /// A named library or device is not registered.
    Nonexistant,
    /// A library is already registered at the same location.
    DuplicateLibrary,
    /// A device is already registered at the same location.
    DuplicateDevice,
    /// The configuration store cannot be read or written.
    ConfigurationFile,
    /// Persisted content is malformed.
    Serde,
    /// A transcode was requested to an unsupported target container.
    Transcode,
}

impl MucoErrorKind {
    /// The kind's spec-level description.
    pub open spec fn spec_message(self) -> Seq<char> {
        match self {
            MucoErrorKind::Unknown => "unknown failure"@,
            MucoErrorKind::Nonexistant => "resource does not exist"@,
            MucoErrorKind::DuplicateLibrary => "duplicate library"@,
            MucoErrorKind::DuplicateDevice => "duplicate device"@,
            MucoErrorKind::ConfigurationFile => "cannot read or write the configuration"@,
            MucoErrorKind::Serde => "malformed persisted content"@,
            MucoErrorKind::Transcode => "transcoding error"@,
        }
    }

    /// A human-readable description of the failure.
    pub fn message(&self) -> (r: &'static str)
        ensures
            r@ == self.spec_message(),
    {
        match self {
            MucoErrorKind::Unknown => "unknown failure",
            MucoErrorKind::Nonexistant => "resource does not exist",
            MucoErrorKind::DuplicateLibrary => "duplicate library",
            MucoErrorKind::DuplicateDevice => "duplicate device",
            MucoErrorKind::ConfigurationFile => "cannot read or write the configuration",
            MucoErrorKind::Serde => "malformed persisted content",
            MucoErrorKind::Transcode => "transcoding error",
        }
    }
}

/// The result type used throughout the library.
pub type MucoResult<T> = Result<T, MucoErrorKind>;

} // verus!
