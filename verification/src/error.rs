//! Why a run over an image ends early.

use crate::code::DecodeError;
use vstd::prelude::*;

verus! {

/// Exit status of a process that stopped at a character outside the alphabet.
pub const INVALID_CHARACTER_STATUS: i32 = 32;

/// Exit status of a process that stopped for any other reason.
pub const FAILURE_STATUS: i32 = 101;

/// Why a run ended before all its codes were applied.
#[derive(Clone, Copy, Debug, PartialEq, Eq, Structural)]
pub enum ApplyError {
    /// A string of the list is not a code.
    Decode(DecodeError),
    /// The platform that was selected has no decoder.
    PlatformNotImplemented,
    /// A byte of the image could not be read or written at the offset that a
    /// code gave.
    ImageIo,
}

impl ApplyError {
    /// The exit status that a host process reports for this error.
    pub open spec fn spec_exit_status(self) -> i32 {
        if self == ApplyError::Decode(DecodeError::InvalidCharacter) {
            INVALID_CHARACTER_STATUS
        } else {
            FAILURE_STATUS
        }
    }

    /// The exit status that a host process reports for this error: one of its
    /// own for a character outside the alphabet, the general one otherwise.
    pub fn exit_status(&self) -> (status: i32)
        ensures
            status == self.spec_exit_status(),
    {
        match self {
            ApplyError::Decode(DecodeError::InvalidCharacter) => INVALID_CHARACTER_STATUS,
            _ => FAILURE_STATUS,
        }
    }
}

} // verus!
