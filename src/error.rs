//! Error kinds of the components. Each surfaces to the host as a `u32` code.
use vstd::prelude::*;

verus! {

/// Failure to take a field out of an instruction.
#[derive(Debug, Clone, Copy, PartialEq, Eq, Structural)]
pub enum ValidationError {
    ExtractionError,
}

/// Failures that the host runtime and the token program define.
#[derive(Debug, Clone, Copy, PartialEq, Eq, Structural)]
pub enum ProgramError {
    MissingRequiredSignature,
    UninitializedAccount,
    AccountAlreadyInitialized,
    InvalidInstructionData,
    InvalidAccountData,
    OwnerMismatch,
    MultisigAlreadyInUse,
    InvalidNumberOfProvidedSigners,
    InvalidNumberOfRequiredSigners,
}

#[derive(Debug, Clone, Copy, PartialEq, Eq, Structural)]
pub enum GravityError {
    InvalidInstruction,
    NotRentExempt,
    InputRoundMismatch,
    InvalidBFTCount,
    InvalidInstructionIndex,
}

#[derive(Debug, Clone, Copy, PartialEq, Eq, Structural)]
pub enum NebulaError {
    SendValueToSubsFailed,
    SubscriberExists,
    SubscribeFailed,
    DataProviderForSendValueToSubsIsInvalid,
    SubscriberValueBeenSent,
    InvalidSubscriptionID,
    InvalidInstructionIndex,
    InvalidSubscriptionProgramID,
    PulseIDHasNotBeenPersisted,
    UnsubscribeIsNotAvailable,
    PulseValidationOrderMismatch,
}

#[derive(Debug, Clone, Copy, PartialEq, Eq, Structural)]
pub enum PortError {
    InvalidDataOnAttach,
    InvalidRequestStatus,
    InvalidInstructionIndex,
    AccessDenied,
    TransferRequestsCountLimit,
    InvalidInputToken,
    ErrorOnReceiverUnpack,
    RequestIDIsAlreadyBeingProcessed,
    RequestIDForConfirmationIsInvalid,
    RequestAmountMismatch,
    RequestReceiverMismatch,
    RequestStatusMismatch,
    ByteArrayUnpackFailed,
    InvalidTokenMint,
}

/// Any failure of an operation, by the module that defines it.
#[derive(Debug, Clone, Copy, PartialEq, Eq, Structural)]
pub enum ContractError {
    Program(ProgramError),
    Validation(ValidationError),
    Gravity(GravityError),
    Nebula(NebulaError),
    Port(PortError),
}

impl GravityError {
    /// The custom error code: the variant's position.
    pub fn code(&self) -> (r: u32)
        ensures
            r == match *self {
                GravityError::InvalidInstruction => 0u32,
                GravityError::NotRentExempt => 1u32,
                GravityError::InputRoundMismatch => 2u32,
                GravityError::InvalidBFTCount => 3u32,
                GravityError::InvalidInstructionIndex => 4u32,
            },
    {
        match self {
            GravityError::InvalidInstruction => 0,
            GravityError::NotRentExempt => 1,
            GravityError::InputRoundMismatch => 2,
            GravityError::InvalidBFTCount => 3,
            GravityError::InvalidInstructionIndex => 4,
        }
    }
}

} // verus!
