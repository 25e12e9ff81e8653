use vstd::prelude::*;

verus! {

/// `cosmwasm_std::StdError`, the error of storage access and address
/// validation, with its variants and their fields visible.
#[verifier::external_type_specification]
pub struct ExStdError(cosmwasm_std::StdError);

/// `cosmwasm_std::VerificationError`, held inside a `StdError`; opaque.
#[verifier::external_type_specification]
#[verifier::external_body]
pub struct ExVerificationError(cosmwasm_std::VerificationError);

/// `cosmwasm_std::RecoverPubkeyError`, held inside a `StdError`; opaque.
#[verifier::external_type_specification]
#[verifier::external_body]
pub struct ExRecoverPubkeyError(cosmwasm_std::RecoverPubkeyError);

/// `cosmwasm_std::OverflowError`, held inside a `StdError`; opaque.
#[verifier::external_type_specification]
#[verifier::external_body]
pub struct ExOverflowError(cosmwasm_std::OverflowError);

/// `cosmwasm_std::DivideByZeroError`, held inside a `StdError`; opaque.
#[verifier::external_type_specification]
#[verifier::external_body]
pub struct ExDivideByZeroError(cosmwasm_std::DivideByZeroError);

/// `cosmwasm_std::ConversionOverflowError`, held inside a `StdError`; opaque.
#[verifier::external_type_specification]
#[verifier::external_body]
pub struct ExConversionOverflowError(cosmwasm_std::ConversionOverflowError);

/// The errors that the contract's handlers return.
#[derive(Debug, PartialEq)]
pub enum ContractError {
    Std(cosmwasm_std::StdError),
    Unauthorized {},
    TooManyOptions {},
    PollNotFound {},
    PollClosed {},
    VoteOptionNotFound {},
    InsufficientFunds {},
}

/// Which error a `ContractError` is, without the payload of a storage error.
pub enum ErrorKind {
    Std,
    Unauthorized,
    TooManyOptions,
    PollNotFound,
    PollClosed,
    VoteOptionNotFound,
    InsufficientFunds,
}

impl View for ContractError {
    type V = ErrorKind;

    open spec fn view(&self) -> ErrorKind {
        match self {
            ContractError::Std(_) => ErrorKind::Std,
            ContractError::Unauthorized {} => ErrorKind::Unauthorized,
            ContractError::TooManyOptions {} => ErrorKind::TooManyOptions,
            ContractError::PollNotFound {} => ErrorKind::PollNotFound,
            ContractError::PollClosed {} => ErrorKind::PollClosed,
            ContractError::VoteOptionNotFound {} => ErrorKind::VoteOptionNotFound,
            ContractError::InsufficientFunds {} => ErrorKind::InsufficientFunds,
        }
    }
}

} // verus!
