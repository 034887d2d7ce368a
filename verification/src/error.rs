//! Failures that are specific to the record program, and how the host sees them.

use pinocchio::program_error::ProgramError;
use vstd::prelude::*;
use vstd::std_specs::convert::FromSpecImpl;

verus! {

/// The host's error vocabulary, `pinocchio::program_error::ProgramError`, with
/// its variants as the crate defines them.
#[verifier::external_type_specification]
pub struct ExProgramError(ProgramError);

/// Failures that only this program reports. The host receives each as a
/// custom error that carries the variant's code.
#[derive(Clone, Copy, Debug, PartialEq, Eq, Structural)]
pub enum RecordError {
    /// Incorrect authority provided on update or delete
    IncorrectAuthority,
    /// Calculation overflow
    Overflow,
}

impl RecordError {
    /// The number under which the host reports this failure.
    pub open spec fn spec_code(self) -> u32 {
        match self {
            RecordError::IncorrectAuthority => 0,
            RecordError::Overflow => 1,
        }
    }

    /// The failure that a code stands for, if any.
    pub open spec fn spec_from_u32(code: u32) -> Option<RecordError> {
        if code == 0 {
            Some(RecordError::IncorrectAuthority)
        } else if code == 1 {
            Some(RecordError::Overflow)
        } else {
            None
        }
    }

    pub fn code(&self) -> (c: u32)
        ensures
            c == self.spec_code(),
    {
        match self {
            RecordError::IncorrectAuthority => 0,
            RecordError::Overflow => 1,
        }
    }

    pub fn from_u32(code: u32) -> (e: Option<RecordError>)
        ensures
            e == Self::spec_from_u32(code),
    {
        if code == 0 {
            Some(RecordError::IncorrectAuthority)
        } else if code == 1 {
            Some(RecordError::Overflow)
        } else {
            None
        }
    }

    /// A code names at most one failure, and every failure is found again
    /// from its code.
    pub proof fn lemma_code_roundtrip(e: RecordError, code: u32)
        ensures
            Self::spec_from_u32(e.spec_code()) == Some(e),
            Self::spec_from_u32(code) == Some(e) <==> code == e.spec_code(),
    {
    }
}

impl From<RecordError> for ProgramError {
    fn from(e: RecordError) -> (err: ProgramError) {
        ProgramError::Custom(e.code())
    }
}

impl FromSpecImpl<RecordError> for ProgramError {
    open spec fn obeys_from_spec() -> bool {
        true
    }

    open spec fn from_spec(e: RecordError) -> ProgramError {
        ProgramError::Custom(e.spec_code())
    }
}

} // verus!
