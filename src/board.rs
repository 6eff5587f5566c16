use vstd::prelude::*;

use crate::types::{Address, TokenId};

verus! {

/// A configuration change that the board decides by collecting signatures.
#[derive(Clone, Copy, Debug, PartialEq, Eq, Structural)]
pub enum BoardAction {
    Nothing,
    AddBoardMember(Address),
    RemoveBoardMember(Address),
    ChangeBoardQuorum(usize),
    ChangeQuorum(u128),
    ChangeVotingPeriod(u64),
    AddVotingToken(TokenId, u128),
    RemoveVotingToken(TokenId),
    ChangeTaxAmount(u128),
}

} // verus!
