//! Error taxonomy of the curve store, and its mapping to the numeric error
//! codes reported to the host environment.

use vstd::prelude::*;
use crate::decimal::MathError;

verus! {

/// Why a set of curve parameters was rejected by the validator.
#[derive(Clone, Copy, Debug, PartialEq, Eq, Structural)]
pub enum InvalidParamsReason {
    /// `x_step` is zero.
    ZeroStep,
    /// `y_count` is zero.
    ZeroCount,
    /// `decimals` exceeds nine.
    DecimalsTooLarge,
    /// The maximum grid coordinate does not fit the sample type at the scale.
    MaxXTooLarge,
    /// The maximum grid coordinate does not strictly exceed `x0`.
    DegenerateRange,
}

/// Why a block of persisted or submitted bytes was rejected.
#[derive(Clone, Copy, Debug, PartialEq, Eq, Structural)]
pub enum LayoutError {
    /// The byte count does not match the fixed layout.
    Size,
    /// The record-type tag does not match.
    Discriminator,
    /// The layout version does not match.
    Version,
    /// The instruction tag byte names no instruction.
    Tag,
    /// The stored sample count exceeds the sample array.
    SampleCount,
}

/// Failure of a curve-store operation.
#[derive(Clone, Copy, Debug, PartialEq, Eq, Structural)]
pub enum CurvyError {
    /// Checked fixed-point arithmetic failed.
    Math(MathError),
    /// Malformed instruction bytes.
    Instruction(LayoutError),
    /// Malformed persisted record bytes.
    Record(LayoutError),
    /// A key does not match the expected one.
    InvalidKey,
    /// An account does not satisfy the declared flags or size.
    InvalidAccount,
    /// Fewer accounts were supplied than the instruction needs.
    NotEnoughAccountKeys,
    /// A required authorizing signature is missing.
    MissingSignature,
    /// The operation cannot be performed in the current state.
    OperationCanNotBePerformed,
    /// The curve parameters are not valid.
    InvalidParams(InvalidParamsReason),
}

/// A failure as reported to the host environment.
#[derive(Clone, Copy, Debug, PartialEq, Eq, Structural)]
pub enum ProgramError {
    /// A store-specific numeric error code.
    Custom(u32),
    /// The instruction names a different program.
    IncorrectProgramId,
}

/// The numeric code assigned to each store error.
pub open spec fn spec_error_code(e: CurvyError) -> u32 {
    match e {
        CurvyError::Math(_) => 3u32,
        CurvyError::Instruction(_) => 4u32,
        CurvyError::Record(_) => 6u32,
        CurvyError::InvalidKey => 8u32,
        CurvyError::InvalidAccount => 9u32,
        CurvyError::NotEnoughAccountKeys => 10u32,
        CurvyError::MissingSignature => 11u32,
        CurvyError::OperationCanNotBePerformed => 25u32,
        CurvyError::InvalidParams(_) => 29u32,
    }
}

impl CurvyError {
    /// The numeric code under which the error reaches the host environment.
    pub fn error_code(&self) -> (r: u32)
        ensures
            r == spec_error_code(*self),
    {
        match self {
            CurvyError::Math(_) => 3,
            CurvyError::Instruction(_) => 4,
            CurvyError::Record(_) => 6,
            CurvyError::InvalidKey => 8,
            CurvyError::InvalidAccount => 9,
            CurvyError::NotEnoughAccountKeys => 10,
            CurvyError::MissingSignature => 11,
            CurvyError::OperationCanNotBePerformed => 25,
            CurvyError::InvalidParams(_) => 29,
        }
    }

    /// The error as the host environment reports it.
    pub fn to_program_error(&self) -> (r: ProgramError)
        ensures
            r == ProgramError::Custom(spec_error_code(*self)),
    {
        ProgramError::Custom(self.error_code())
    }
}

} // verus!
