use vstd::prelude::*;

use crate::board::BoardAction;
use crate::dao::FranchiseDao;
use crate::multisig::performs;
use crate::proposal::{voting_concluded, Proposal};
use crate::types::{Address, GovError, ProposalStatus, State, TokenId};

verus! {

broadcast use vstd::set::group_set_axioms;

/// The status of a proposal depends on nothing but its execution flag, its
/// creation time, its two tallies, the time and the voting period and quorum:
/// two proposals that agree on those have the same status, at every time.
pub proof fn lemma_status_is_function_of_facts(p: Proposal, q: Proposal, now: u64, voting_period: u64, quorum: u128)
    requires
        p.was_executed == q.was_executed,
        p.creation_timestamp == q.creation_timestamp,
        p.num_upvotes == q.num_upvotes,
        p.num_downvotes == q.num_downvotes,
    ensures
        p.status_at(now, voting_period, quorum) == q.status_at(now, voting_period, quorum),
{
}

/// An executed proposal is `Executed` at every time, whatever the voting
/// period, quorum and tallies.
pub proof fn lemma_executed_is_terminal(p: Proposal)
    requires
        p.was_executed,
    ensures
        forall|now: u64, voting_period: u64, quorum: u128|
            #[trigger] p.status_at(now, voting_period, quorum) == ProposalStatus::Executed,
{
}

/// Once voting on a proposal has concluded it stays concluded later on,
/// while its facts stay unchanged.
pub proof fn lemma_concluded_stays_concluded(p: Proposal, now: u64, later: u64, voting_period: u64, quorum: u128)
    requires
        voting_concluded(p.status_at(now, voting_period, quorum)),
        now <= later,
    ensures
        voting_concluded(p.status_at(later, voting_period, quorum)),
{
}

/// After a successful redemption of `voter`'s escrow on proposal `id` (state
/// `s0` to `s1`), redeeming again, at that time or later, fails with
/// `NothingToRedeem`.
pub proof fn lemma_redeem_twice_fails(s0: FranchiseDao, s1: FranchiseDao, voter: Address, id: u64, now: u64, later: u64)
    requires
        s0.wf(),
        s0.redeem_error(voter, id, now) is None,
        s1.same_config(&s0),
        s1.proposals@ == s0.proposals@,
        s1.escrow@ == s0.escrow@.remove((voter, id)),
        now <= later,
    ensures
        s1.redeem_error(voter, id, later) == Some(GovError::NothingToRedeem),
{
    lemma_concluded_stays_concluded(s0.proposals@[id as int], now, later, s0.voting_period, s0.quorum);
}

/// The valid signers of any board action never outnumber the board, however
/// many signatures the action collected before members left it.
pub proof fn lemma_valid_signers_within_board(s: FranchiseDao, id: usize)
    requires
        s.wf(),
    ensures
        s.valid_signers(id).len() <= s.board_members@.len(),
{
    s.board_members.lemma_members();
    vstd::set_lib::lemma_len_subset(s.valid_signers(id), s.board_members@);
}

/// Removing the last voting asset turns governance off.
pub proof fn lemma_removing_last_asset_deactivates(o: FranchiseDao, n: FranchiseDao, t: TokenId)
    requires
        o.voting_tokens@.dom() == Set::<TokenId>::empty().insert(t),
        performs(&n, &o, BoardAction::RemoveVotingToken(t)),
    ensures
        n.state == State::Inactive,
        n.voting_tokens@.len() == 0,
{
    assert(o.voting_tokens@.remove(t).dom() =~= Set::<TokenId>::empty());
}

/// No board action turns governance on; only `set_state_active` does, and it
/// succeeds only with some voting asset and a positive quorum and voting period.
pub proof fn lemma_reactivation_needs_configuration(o: FranchiseDao, n: FranchiseDao, a: BoardAction, caller: Address)
    requires
        performs(&n, &o, a),
    ensures
        o.state == State::Inactive ==> n.state == State::Inactive,
        n.activation_result(caller) is Ok ==> n.voting_tokens@.len() > 0 && n.quorum > 0 && n.voting_period > 0,
{
}

} // verus!
