use vstd::prelude::*;

verus! {

/// A principal (an account) as the host identifies it.
#[derive(Clone, Copy, Debug, PartialEq, Eq, Structural)]
pub struct Address(pub u64);

/// An asset identifier.
#[derive(Clone, Copy, Debug, PartialEq, Eq, Structural)]
pub struct TokenId(pub u64);

/// A transfer of `amount` base units of the asset `token` (of nonce `nonce`).
#[derive(Clone, Copy, Debug, PartialEq, Eq, Structural)]
pub struct Payment {
    pub token: TokenId,
    pub nonce: u64,
    pub amount: u128,
}

/// Whether governance is running.
#[derive(Clone, Copy, Debug, PartialEq, Eq, Structural)]
pub enum State {
    Inactive,
    Active,
}

/// The direction of a vote.
#[derive(Clone, Copy, Debug, PartialEq, Eq, Structural)]
pub enum VoteType {
    Upvote,
    DownVote,
}

/// The derived lifecycle status of a proposal.
#[derive(Clone, Copy, Debug, PartialEq, Eq, Structural)]
pub enum ProposalStatus {
    Pending,
    Active,
    Defeated,
    Succeeded,
    Executed,
}

/// The kind of a proposal's payload.
#[derive(Clone, Copy, Debug, PartialEq, Eq, Structural)]
pub enum ProposalTypeEnum {
    Nothing,
    NewTransfer,
}

/// Why an operation was rejected. A rejected operation changes nothing.
#[derive(Clone, Copy, Debug, PartialEq, Eq, Structural)]
pub enum GovError {
    /// Governance is inactive.
    NotActive,
    /// The caller is not a board member.
    Unauthorized,
    /// The proposal, action or asset does not exist.
    NotFound,
    /// Wrong asset, or a zero amount, on a paid operation.
    InvalidPayment,
    /// A vote outside the proposal's voting window.
    NotInVotingWindow,
    /// Redemption before voting has concluded.
    VotingNotConcluded,
    /// Execution of a proposal that has not succeeded.
    ProposalNotSucceeded,
    /// The caller's escrow for the proposal is empty.
    NothingToRedeem,
    /// Too few valid signers for a board action.
    QuorumNotReached,
    /// A zero value, an existing member or asset added, a missing one removed.
    InvalidArgument,
    /// A board action that still has valid signers cannot be discarded.
    HasValidSigners,
    /// Activation without a positive voting quorum.
    QuorumNotSet,
    /// Activation without a positive voting period.
    VotingPeriodNotSet,
    /// Activation without any voting asset.
    NoVotingTokens,
    /// A weight, tally or escrowed amount would exceed 128 bits.
    Overflow,
    /// The identity is not linked to this organisation.
    IdentityNotRegistered,
    /// A class that still has students cannot be deleted.
    ClassNotEmpty,
    /// The teacher does not teach that subject in that class.
    NotTeacherOfClass,
}

impl GovError {
    /// A short human-readable description of the error.
    pub fn message(&self) -> &'static str {
        match self {
            GovError::NotActive => "contract is not active",
            GovError::Unauthorized => "only board members",
            GovError::NotFound => "not found",
            GovError::InvalidPayment => "wrong payment token or zero payment",
            GovError::NotInVotingWindow => "proposal is not active",
            GovError::VotingNotConcluded => "voting period not ended",
            GovError::ProposalNotSucceeded => "proposal not succeeded",
            GovError::NothingToRedeem => "nothing to redeem",
            GovError::QuorumNotReached => "quorum has not been reached",
            GovError::InvalidArgument => "invalid argument",
            GovError::HasValidSigners => "cannot discard action with valid signatures",
            GovError::QuorumNotSet => "quorum not set",
            GovError::VotingPeriodNotSet => "voting period not set",
            GovError::NoVotingTokens => "no voting tokens set",
            GovError::Overflow => "arithmetic overflow",
            GovError::IdentityNotRegistered => "identity not registered",
            GovError::ClassNotEmpty => "class has students",
            GovError::NotTeacherOfClass => "not teacher of class for subject",
        }
    }
}

} // verus!
