//! The library's error taxonomy.  The filesystem adapter collapses all of
//! these into "not found" toward the kernel bridge; the variants record the
//! underlying cause.
use vstd::prelude::*;

verus! {

/// Errors raised by the library's own logic.
#[derive(Clone, Copy, Debug, PartialEq, Eq, Structural)]
pub enum AsmError {
    /// A header fixup was asked of a buffer shorter than one 512-byte block.
    HeaderTooShort,
    /// A raw read walked past the end of the extent map.
    AuOutOfRange,
    /// A raw read named a disk key with no entry in the device map.
    UnknownDisk,
    /// A connection string was not of the form `user/pass@inst`.
    InvalidConnectionString,
}

impl AsmError {
    /// A short description, in place of a `Display` implementation.
    pub fn message(&self) -> &'static str {
        match self {
            AsmError::HeaderTooShort => "header buffer is less than 512 bytes",
            AsmError::AuOutOfRange => "allocation unit index beyond the extent map",
            AsmError::UnknownDisk => "disk key missing from the device map",
            AsmError::InvalidConnectionString => "connection string must be user/pass@inst",
        }
    }
}

} // verus!
