use vstd::prelude::*;

verus! {

/// Errors specific to this program; the numeric code of each is its position.
#[derive(Clone, Copy, Debug, PartialEq, Eq, Structural)]
pub enum PoolError {
    InvalidInstruction,
    InvalidModule,
    InvalidAction,
    InvestorAlreadyExists,
    MaxInvestorReached,
    ObjectAlreadyCreated,
    UnmatchedPoolAddress,
    UnmatchedCreator,
    UnmatchedInvestorAccountAddress,
    InvalidManagerAccount,
    AmountsUnmatched,
    InvalidTokenAccount,
    ObjectNotInitialized,
}

impl PoolError {
    pub open spec fn spec_code(self) -> u32 {
        match self {
            PoolError::InvalidInstruction => 0,
            PoolError::InvalidModule => 1,
            PoolError::InvalidAction => 2,
            PoolError::InvestorAlreadyExists => 3,
            PoolError::MaxInvestorReached => 4,
            PoolError::ObjectAlreadyCreated => 5,
            PoolError::UnmatchedPoolAddress => 6,
            PoolError::UnmatchedCreator => 7,
            PoolError::UnmatchedInvestorAccountAddress => 8,
            PoolError::InvalidManagerAccount => 9,
            PoolError::AmountsUnmatched => 10,
            PoolError::InvalidTokenAccount => 11,
            PoolError::ObjectNotInitialized => 12,
        }
    }

    /// The custom error code that the host reports for this error.
    pub fn code(&self) -> (r: u32)
        ensures
            r == self.spec_code(),
    {
        match self {
            PoolError::InvalidInstruction => 0,
            PoolError::InvalidModule => 1,
            PoolError::InvalidAction => 2,
            PoolError::InvestorAlreadyExists => 3,
            PoolError::MaxInvestorReached => 4,
            PoolError::ObjectAlreadyCreated => 5,
            PoolError::UnmatchedPoolAddress => 6,
            PoolError::UnmatchedCreator => 7,
            PoolError::UnmatchedInvestorAccountAddress => 8,
            PoolError::InvalidManagerAccount => 9,
            PoolError::AmountsUnmatched => 10,
            PoolError::InvalidTokenAccount => 11,
            PoolError::ObjectNotInitialized => 12,
        }
    }
}

/// Every way an instruction can fail: a program error, or one of the host's
/// generic account errors.
#[derive(Clone, Copy, Debug, PartialEq, Eq, Structural)]
pub enum ProcessError {
    Custom(PoolError),
    /// An account that is to be read or changed is not owned by this program.
    IncorrectOwner,
    /// The designated signer account did not sign.
    MissingSignature,
    /// A buffer is too short for its record, or holds bytes that do not decode.
    InvalidAccountData,
    /// Fewer accounts were passed than the instruction needs.
    NotEnoughAccountKeys,
    /// A count went below zero or a product does not fit in 64 bits.
    ArithmeticOverflow,
}

} // verus!
