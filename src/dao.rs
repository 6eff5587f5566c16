use vstd::prelude::*;

use crate::address_set::AddressSet;
use crate::board::BoardAction;
use crate::escrow::EscrowBook;
use crate::math::ONE;
use crate::proposal::Proposal;
use crate::token_weights::TokenWeights;
use crate::types::{Address, GovError, ProposalStatus, State, TokenId};

verus! {

/// The whole governance state: configuration, membership, proposals, escrow
/// and board actions.
///
/// Proposal ids are their positions in `proposals`. Board action ids start at
/// one: action `id` is held at `actions[id - 1]`, `None` once it has been
/// performed or discarded, with its signers at `action_signers[id - 1]`.
pub struct FranchiseDao {
    pub state: State,
    pub governance_token: TokenId,
    pub voting_tokens: TokenWeights,
    pub voting_period: u64,
    pub quorum: u128,
    pub board_quorum: usize,
    pub board_members: AddressSet,
    pub tax_amount: u128,
    pub proposals: Vec<Proposal>,
    pub escrow: EscrowBook,
    pub actions: Vec<Option<BoardAction>>,
    pub action_signers: Vec<AddressSet>,
}

/// A summary of the configuration and of the proposal store.
pub struct ContractInfo {
    pub state: State,
    pub governance_token: TokenId,
    pub voting_tokens: Vec<TokenId>,
    pub voting_token_weights: Vec<u128>,
    pub voting_period: u64,
    pub quorum: u128,
    pub board_quorum: usize,
    pub board_members: Vec<Address>,
    pub last_proposal_id: u64,
    pub proposals_count: u64,
}

impl FranchiseDao {
    pub open spec fn wf(&self) -> bool {
        &&& self.voting_tokens.wf()
        &&& self.board_members.wf()
        &&& self.escrow.wf()
        &&& self.proposals@.len() <= u64::MAX
        &&& forall|i: int| 0 <= i < self.proposals@.len() ==> (#[trigger] self.proposals@[i]).id == i
        &&& self.actions@.len() == self.action_signers@.len()
        &&& forall|i: int| 0 <= i < self.action_signers@.len() ==> (#[trigger] self.action_signers@[i]).wf()
        &&& forall|i: int|
            0 <= i < self.actions@.len() && (#[trigger] self.actions@[i]) is None
                ==> self.action_signers@[i]@.is_empty()
    }

    /// The live status of proposal `id` at time `now`.
    pub open spec fn status_of(&self, id: u64, now: u64) -> ProposalStatus {
        self.proposals@[id as int].status_at(now, self.voting_period, self.quorum)
    }

    /// Board action `id` is open: proposed, and neither performed nor discarded.
    pub open spec fn action_exists(&self, id: usize) -> bool {
        1 <= id <= self.actions@.len() && self.actions@[id - 1] is Some
    }

    /// The payload of open board action `id`.
    pub open spec fn action_of(&self, id: usize) -> BoardAction {
        self.actions@[id - 1]->Some_0
    }

    /// The principals that have signed board action `id`.
    pub open spec fn signers_of(&self, id: usize) -> Set<Address> {
        if 1 <= id <= self.action_signers@.len() {
            self.action_signers@[id - 1]@
        } else {
            Set::empty()
        }
    }

    /// The signers of board action `id` that are board members now.
    pub open spec fn valid_signers(&self, id: usize) -> Set<Address> {
        self.signers_of(id).intersect(self.board_members@)
    }

    /// What turning governance on by `caller` gives: `Ok` only for a board
    /// member, with a positive quorum and voting period and some voting asset.
    pub open spec fn activation_result(&self, caller: Address) -> Result<(), GovError> {
        if !self.board_members@.contains(caller) {
            Err(GovError::Unauthorized)
        } else if self.quorum == 0 {
            Err(GovError::QuorumNotSet)
        } else if self.voting_period == 0 {
            Err(GovError::VotingPeriodNotSet)
        } else if self.voting_tokens@.len() == 0 {
            Err(GovError::NoVotingTokens)
        } else {
            Ok(())
        }
    }

    /// All but the proposals and the escrow are as in `o`.
    pub open spec fn same_config(&self, o: &FranchiseDao) -> bool {
        &&& self.state == o.state
        &&& self.governance_token == o.governance_token
        &&& self.voting_tokens@ == o.voting_tokens@
        &&& self.voting_period == o.voting_period
        &&& self.quorum == o.quorum
        &&& self.board_quorum == o.board_quorum
        &&& self.board_members@ == o.board_members@
        &&& self.tax_amount == o.tax_amount
    }

    /// The board actions and their signers are as in `o`.
    pub open spec fn same_actions(&self, o: &FranchiseDao) -> bool {
        &&& self.actions@ == o.actions@
        &&& self.action_signers@.len() == o.action_signers@.len()
        &&& forall|i: int| 0 <= i < self.action_signers@.len() ==> (#[trigger] self.action_signers@[i])@ == o.action_signers@[i]@
    }

    /// The proposals and the escrow are as in `o`.
    pub open spec fn same_ledger(&self, o: &FranchiseDao) -> bool {
        &&& self.proposals@ == o.proposals@
        &&& self.escrow@ == o.escrow@
    }

    /// A fresh instance: `owner` is the only board member, `token` the
    /// governance asset and the only voting asset, of weight `ONE`.
    /// Governance starts inactive, with quorum and voting period unset and a
    /// board quorum of one.
    pub fn new(owner: Address, token: TokenId) -> (r: FranchiseDao)
        ensures
            r.wf(),
            r.state == State::Inactive,
            r.governance_token == token,
            r.voting_tokens@ == Map::<TokenId, u128>::empty().insert(token, ONE),
            r.voting_period == 0,
            r.quorum == 0,
            r.board_quorum == 1,
            r.board_members@ == Set::<Address>::empty().insert(owner),
            r.tax_amount == 0,
            r.proposals@.len() == 0,
            r.escrow@ == Map::<(Address, u64), Seq<crate::types::Payment>>::empty(),
            r.actions@.len() == 0,
    {
        let mut board_members = AddressSet::new();
        board_members.insert(owner);
        let mut voting_tokens = TokenWeights::new();
        voting_tokens.insert(token, ONE);
        FranchiseDao {
            state: State::Inactive,
            governance_token: token,
            voting_tokens,
            voting_period: 0,
            quorum: 0,
            board_quorum: 1,
            board_members,
            tax_amount: 0,
            proposals: Vec::new(),
            escrow: EscrowBook::new(),
            actions: Vec::new(),
            action_signers: Vec::new(),
        }
    }

    pub fn is_board_member(&self, address: Address) -> (r: bool)
        ensures
            r == self.board_members@.contains(address),
    {
        self.board_members.contains(address)
    }

    /// Turns governance on. The caller must be a board member; the voting
    /// quorum and period must be positive and some voting asset must exist.
    pub fn set_state_active(&mut self, caller: Address) -> (r: Result<(), GovError>)
        requires
            old(self).wf(),
        ensures
            final(self).wf(),
            r == old(self).activation_result(caller),
            r is Err ==> *final(self) == *old(self),
            r is Ok ==> *final(self) == (FranchiseDao { state: State::Active, ..*old(self) }),
    {
        if !self.board_members.contains(caller) {
            return Err(GovError::Unauthorized);
        }
        if self.quorum == 0 {
            return Err(GovError::QuorumNotSet);
        }
        if self.voting_period == 0 {
            return Err(GovError::VotingPeriodNotSet);
        }
        if self.voting_tokens.is_empty() {
            return Err(GovError::NoVotingTokens);
        }
        self.state = State::Active;
        Ok(())
    }

    /// Turns governance off. The caller must be a board member.
    pub fn set_state_inactive(&mut self, caller: Address) -> (r: Result<(), GovError>)
        requires
            old(self).wf(),
        ensures
            final(self).wf(),
            r is Ok <==> old(self).board_members@.contains(caller),
            r is Err ==> r == Err::<(), GovError>(GovError::Unauthorized) && *final(self) == *old(self),
            r is Ok ==> *final(self) == (FranchiseDao { state: State::Inactive, ..*old(self) }),
    {
        if !self.board_members.contains(caller) {
            return Err(GovError::Unauthorized);
        }
        self.state = State::Inactive;
        Ok(())
    }

    /// Sets the voting period. The caller must be a board member.
    pub fn set_voting_period(&mut self, caller: Address, period: u64) -> (r: Result<(), GovError>)
        requires
            old(self).wf(),
        ensures
            final(self).wf(),
            r is Ok <==> old(self).board_members@.contains(caller),
            r is Err ==> r == Err::<(), GovError>(GovError::Unauthorized) && *final(self) == *old(self),
            r is Ok ==> *final(self) == (FranchiseDao { voting_period: period, ..*old(self) }),
    {
        if !self.board_members.contains(caller) {
            return Err(GovError::Unauthorized);
        }
        self.voting_period = period;
        Ok(())
    }

    /// Sets the voting quorum. The caller must be a board member.
    pub fn set_quorum(&mut self, caller: Address, quorum: u128) -> (r: Result<(), GovError>)
        requires
            old(self).wf(),
        ensures
            final(self).wf(),
            r is Ok <==> old(self).board_members@.contains(caller),
            r is Err ==> r == Err::<(), GovError>(GovError::Unauthorized) && *final(self) == *old(self),
            r is Ok ==> *final(self) == (FranchiseDao { quorum, ..*old(self) }),
    {
        if !self.board_members.contains(caller) {
            return Err(GovError::Unauthorized);
        }
        self.quorum = quorum;
        Ok(())
    }

    /// Sets the tax parameter. The caller must be a board member.
    pub fn set_tax_amount(&mut self, caller: Address, new_tax_amount: u128) -> (r: Result<(), GovError>)
        requires
            old(self).wf(),
        ensures
            final(self).wf(),
            r is Ok <==> old(self).board_members@.contains(caller),
            r is Err ==> r == Err::<(), GovError>(GovError::Unauthorized) && *final(self) == *old(self),
            r is Ok ==> *final(self) == (FranchiseDao { tax_amount: new_tax_amount, ..*old(self) }),
    {
        if !self.board_members.contains(caller) {
            return Err(GovError::Unauthorized);
        }
        self.tax_amount = new_tax_amount;
        Ok(())
    }

    /// The live status of `proposal` at time `now`.
    pub fn get_proposal_status(&self, proposal: &Proposal, now: u64) -> (r: ProposalStatus)
        ensures
            r == proposal.status_at(now, self.voting_period, self.quorum),
    {
        proposal.current_status(now, self.voting_period, self.quorum)
    }

    /// The live status of proposal `proposal_id` at time `now`.
    pub fn get_proposal_status_view(&self, proposal_id: u64, now: u64) -> (r: Result<ProposalStatus, GovError>)
        ensures
            r == (if proposal_id < self.proposals@.len() {
                Ok(self.status_of(proposal_id, now))
            } else {
                Err(GovError::NotFound)
            }),
    {
        if proposal_id >= self.proposals.len() as u64 {
            return Err(GovError::NotFound);
        }
        Ok(self.get_proposal_status(&self.proposals[proposal_id as usize], now))
    }
}

} // verus!
