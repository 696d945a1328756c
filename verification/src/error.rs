//! The errors that the contract answers with.

use vstd::prelude::*;

verus! {

#[derive(Copy, Clone, Debug, PartialEq, Eq, PartialOrd, Ord, Structural)]
pub enum ContractError {
    GameNotFound,
    NotYourTurn,
    GameNotInProgress,
    InvalidMove,
    InsufficientFunds,
    AlreadyJoined,
    GameFull,
    NotPlayer,
    GameAlreadyCompleted,
    DrawNotAvailable,
    ForfeitNotAllowed,
    InvalidPercentage,
    MismatchedLengths,
    /// The nonce of a reward claim was used before.
    Unauthorized,
    StakeLimitExceeded,
    /// The player has no rating yet.
    RatingNotFound,
}

impl ContractError {
    /// The number under which the error travels on the network.
    pub open spec fn number(self) -> u32 {
        match self {
            ContractError::GameNotFound => 1,
            ContractError::NotYourTurn => 2,
            ContractError::GameNotInProgress => 3,
            ContractError::InvalidMove => 4,
            ContractError::InsufficientFunds => 5,
            ContractError::AlreadyJoined => 6,
            ContractError::GameFull => 7,
            ContractError::NotPlayer => 8,
            ContractError::GameAlreadyCompleted => 9,
            ContractError::DrawNotAvailable => 10,
            ContractError::ForfeitNotAllowed => 11,
            ContractError::InvalidPercentage => 12,
            ContractError::MismatchedLengths => 13,
            ContractError::Unauthorized => 14,
            ContractError::StakeLimitExceeded => 15,
            ContractError::RatingNotFound => 16,
        }
    }

    pub fn code(self) -> (code: u32)
        ensures
            code == self.number(),
    {
        match self {
            ContractError::GameNotFound => 1,
            ContractError::NotYourTurn => 2,
            ContractError::GameNotInProgress => 3,
            ContractError::InvalidMove => 4,
            ContractError::InsufficientFunds => 5,
            ContractError::AlreadyJoined => 6,
            ContractError::GameFull => 7,
            ContractError::NotPlayer => 8,
            ContractError::GameAlreadyCompleted => 9,
            ContractError::DrawNotAvailable => 10,
            ContractError::ForfeitNotAllowed => 11,
            ContractError::InvalidPercentage => 12,
            ContractError::MismatchedLengths => 13,
            ContractError::Unauthorized => 14,
            ContractError::StakeLimitExceeded => 15,
            ContractError::RatingNotFound => 16,
        }
    }
}

/// The errors are numbered from 1 in the order in which they are listed.
pub proof fn errors_are_numbered_in_order()
    ensures
        ContractError::GameNotFound.number() == 1,
        ContractError::NotYourTurn.number() == 2,
        ContractError::GameNotInProgress.number() == 3,
        ContractError::InvalidMove.number() == 4,
        ContractError::InsufficientFunds.number() == 5,
        ContractError::AlreadyJoined.number() == 6,
        ContractError::GameFull.number() == 7,
        ContractError::NotPlayer.number() == 8,
        ContractError::GameAlreadyCompleted.number() == 9,
        ContractError::DrawNotAvailable.number() == 10,
        ContractError::ForfeitNotAllowed.number() == 11,
        ContractError::InvalidPercentage.number() == 12,
        ContractError::MismatchedLengths.number() == 13,
        ContractError::Unauthorized.number() == 14,
        ContractError::StakeLimitExceeded.number() == 15,
        ContractError::RatingNotFound.number() == 16,
{
}

/// No two errors share a number.
pub proof fn error_numbers_are_distinct(a: ContractError, b: ContractError)
    requires
        a.number() == b.number(),
    ensures
        a == b,
{
}

} // verus!
