use vstd::prelude::*;

use crate::dao::FranchiseDao;
use crate::escrow::{merge_overflows, merge_payment, merged};
use crate::math::{isqrt, sqrt_floor, weighted, weighted_amount};
use crate::proposal::{execute_proposal, voting_concluded, OutboundCall, Proposal, ProposalType, TransferProposal};
use crate::types::{Address, GovError, Payment, ProposalStatus, ProposalTypeEnum, State, VoteType};

verus! {

impl FranchiseDao {
    /// What `voter` holds in escrow on proposal `id`: empty where nothing.
    pub open spec fn escrow_of(&self, voter: Address, id: u64) -> Seq<Payment> {
        if self.escrow@.contains_key((voter, id)) {
            self.escrow@[(voter, id)]
        } else {
            Seq::empty()
        }
    }

    /// The tally increment of a deposit `payment` in a voting asset:
    /// the integer square root of its weight.
    pub open spec fn vote_increment(&self, payment: Payment) -> nat {
        sqrt_floor(weighted(payment.amount as int, self.voting_tokens@[payment.token] as int) as nat)
    }

    /// Why a vote of `voter` on proposal `id` at time `now` with `payment`
    /// is rejected, if it is.
    pub open spec fn vote_error(&self, voter: Address, id: u64, vote_type: VoteType, payment: Payment, now: u64) -> Option<GovError> {
        if self.state != State::Active {
            Some(GovError::NotActive)
        } else if id >= self.proposals@.len() {
            Some(GovError::NotFound)
        } else if self.status_of(id, now) != ProposalStatus::Active {
            Some(GovError::NotInVotingWindow)
        } else if !self.voting_tokens@.contains_key(payment.token) || payment.amount == 0 {
            Some(GovError::InvalidPayment)
        } else if weighted(payment.amount as int, self.voting_tokens@[payment.token] as int) > u128::MAX {
            Some(GovError::Overflow)
        } else if (match vote_type {
            VoteType::Upvote => self.proposals@[id as int].num_upvotes,
            VoteType::DownVote => self.proposals@[id as int].num_downvotes,
        }) + self.vote_increment(payment) > u128::MAX {
            Some(GovError::Overflow)
        } else if merge_overflows(self.escrow_of(voter, id), payment) {
            Some(GovError::Overflow)
        } else {
            None
        }
    }

    /// Why redeeming the escrow of `voter` on proposal `id` at time `now` is
    /// rejected, if it is.
    pub open spec fn redeem_error(&self, voter: Address, id: u64, now: u64) -> Option<GovError> {
        if id >= self.proposals@.len() {
            Some(GovError::NotFound)
        } else if !voting_concluded(self.status_of(id, now)) {
            Some(GovError::VotingNotConcluded)
        } else if !self.escrow@.contains_key((voter, id)) {
            Some(GovError::NothingToRedeem)
        } else {
            None
        }
    }

    /// Why executing proposal `id` at time `now` is rejected, if it is.
    pub open spec fn execute_error(&self, id: u64, now: u64) -> Option<GovError> {
        if self.state != State::Active {
            Some(GovError::NotActive)
        } else if id >= self.proposals@.len() {
            Some(GovError::NotFound)
        } else if self.status_of(id, now) != ProposalStatus::Succeeded {
            Some(GovError::ProposalNotSucceeded)
        } else {
            None
        }
    }

    /// Creates a transfer proposal by board member `caller` at time `now`, and
    /// returns its id, the next one.
    pub fn propose_new_transfer(
        &mut self,
        caller: Address,
        now: u64,
        title: Vec<u8>,
        description: Vec<u8>,
        transfer_proposal: TransferProposal,
    ) -> (r: Result<u64, GovError>)
        requires
            old(self).wf(),
            old(self).proposals@.len() < u64::MAX,
        ensures
            final(self).wf(),
            r == (if old(self).state != State::Active {
                Err(GovError::NotActive)
            } else if !old(self).board_members@.contains(caller) {
                Err(GovError::Unauthorized)
            } else {
                Ok(old(self).proposals@.len() as u64)
            }),
            r is Err ==> *final(self) == *old(self),
            r matches Ok(id) ==> {
                &&& final(self).same_config(&*old(self))
                &&& final(self).same_actions(&*old(self))
                &&& final(self).escrow@ == old(self).escrow@
                &&& final(self).proposals@ == old(self).proposals@.push(
                    Proposal {
                        id,
                        proposal_data: ProposalType::NewTransfer(transfer_proposal),
                        proposal_type: ProposalTypeEnum::NewTransfer,
                        creation_timestamp: now,
                        proposer: caller,
                        title,
                        description,
                        status: ProposalStatus::Pending,
                        was_executed: false,
                        num_upvotes: 0,
                        num_downvotes: 0,
                    },
                )
            },
    {
        if self.state != State::Active {
            return Err(GovError::NotActive);
        }
        if !self.board_members.contains(caller) {
            return Err(GovError::Unauthorized);
        }
        let id = self.proposals.len() as u64;
        let proposal = Proposal {
            id,
            proposal_data: ProposalType::NewTransfer(transfer_proposal),
            proposal_type: ProposalTypeEnum::NewTransfer,
            creation_timestamp: now,
            proposer: caller,
            title,
            description,
            status: ProposalStatus::Pending,
            was_executed: false,
            num_upvotes: 0,
            num_downvotes: 0,
        };
        self.proposals.push(proposal);
        Ok(id)
    }

    /// Casts a vote of `caller` on proposal `id` at time `now`, backed by the
    /// deposit `payment`, which is held in escrow. The tally of the vote's
    /// direction grows by the integer square root of the deposit's weight.
    pub fn vote(&mut self, caller: Address, proposal_id: u64, vote_type: VoteType, payment: Payment, now: u64) -> (r: Result<(), GovError>)
        requires
            old(self).wf(),
        ensures
            final(self).wf(),
            match old(self).vote_error(caller, proposal_id, vote_type, payment, now) {
                Some(e) => r == Err::<(), GovError>(e) && *final(self) == *old(self),
                None => {
                    let p = old(self).proposals@[proposal_id as int];
                    let inc = old(self).vote_increment(payment);
                    &&& r is Ok
                    &&& final(self).same_config(&*old(self))
                    &&& final(self).same_actions(&*old(self))
                    &&& final(self).proposals@ == old(self).proposals@.update(
                        proposal_id as int,
                        match vote_type {
                            VoteType::Upvote => Proposal { num_upvotes: (p.num_upvotes + inc) as u128, ..p },
                            VoteType::DownVote => Proposal { num_downvotes: (p.num_downvotes + inc) as u128, ..p },
                        },
                    )
                    &&& final(self).escrow@ == old(self).escrow@.insert(
                        (caller, proposal_id),
                        merged(old(self).escrow_of(caller, proposal_id), payment),
                    )
                },
            },
    {
        if self.state != State::Active {
            return Err(GovError::NotActive);
        }
        if proposal_id >= self.proposals.len() as u64 {
            return Err(GovError::NotFound);
        }
        let idx = proposal_id as usize;
        if self.get_proposal_status(&self.proposals[idx], now) != ProposalStatus::Active {
            return Err(GovError::NotInVotingWindow);
        }
        let asset_weight = match self.voting_tokens.get(payment.token) {
            Some(w) => w,
            None => return Err(GovError::InvalidPayment),
        };
        if payment.amount == 0 {
            return Err(GovError::InvalidPayment);
        }
        let vote_weight = match weighted_amount(payment.amount, asset_weight) {
            Some(w) => w,
            None => return Err(GovError::Overflow),
        };
        let inc = isqrt(vote_weight);
        let tally = match vote_type {
            VoteType::Upvote => self.proposals[idx].num_upvotes,
            VoteType::DownVote => self.proposals[idx].num_downvotes,
        };
        if tally > u128::MAX - inc {
            return Err(GovError::Overflow);
        }
        let held = self.escrow.get(caller, proposal_id);
        let payments = match merge_payment(&held, payment) {
            Some(v) => v,
            None => return Err(GovError::Overflow),
        };
        match vote_type {
            VoteType::Upvote => {
                self.proposals[idx].num_upvotes = tally + inc;
            },
            VoteType::DownVote => {
                self.proposals[idx].num_downvotes = tally + inc;
            },
        }
        proof {
            assert(payments@.len() > 0);
        }
        self.escrow.set(caller, proposal_id, payments);
        Ok(())
    }

    /// An upvote: see `vote`.
    pub fn upvote(&mut self, caller: Address, proposal_id: u64, payment: Payment, now: u64) -> (r: Result<(), GovError>)
        requires
            old(self).wf(),
        ensures
            final(self).wf(),
            match old(self).vote_error(caller, proposal_id, VoteType::Upvote, payment, now) {
                Some(e) => r == Err::<(), GovError>(e) && *final(self) == *old(self),
                None => {
                    let p = old(self).proposals@[proposal_id as int];
                    &&& r is Ok
                    &&& final(self).same_config(&*old(self))
                    &&& final(self).same_actions(&*old(self))
                    &&& final(self).proposals@ == old(self).proposals@.update(
                        proposal_id as int,
                        Proposal { num_upvotes: (p.num_upvotes + old(self).vote_increment(payment)) as u128, ..p },
                    )
                    &&& final(self).escrow@ == old(self).escrow@.insert(
                        (caller, proposal_id),
                        merged(old(self).escrow_of(caller, proposal_id), payment),
                    )
                },
            },
    {
        self.vote(caller, proposal_id, VoteType::Upvote, payment, now)
    }

    /// A downvote: see `vote`.
    pub fn downvote(&mut self, caller: Address, proposal_id: u64, payment: Payment, now: u64) -> (r: Result<(), GovError>)
        requires
            old(self).wf(),
        ensures
            final(self).wf(),
            match old(self).vote_error(caller, proposal_id, VoteType::DownVote, payment, now) {
                Some(e) => r == Err::<(), GovError>(e) && *final(self) == *old(self),
                None => {
                    let p = old(self).proposals@[proposal_id as int];
                    &&& r is Ok
                    &&& final(self).same_config(&*old(self))
                    &&& final(self).same_actions(&*old(self))
                    &&& final(self).proposals@ == old(self).proposals@.update(
                        proposal_id as int,
                        Proposal { num_downvotes: (p.num_downvotes + old(self).vote_increment(payment)) as u128, ..p },
                    )
                    &&& final(self).escrow@ == old(self).escrow@.insert(
                        (caller, proposal_id),
                        merged(old(self).escrow_of(caller, proposal_id), payment),
                    )
                },
            },
    {
        self.vote(caller, proposal_id, VoteType::DownVote, payment, now)
    }

    /// Hands `caller` back everything escrowed on proposal `id`, once voting
    /// on it has concluded, and clears the escrow entry.
    pub fn redeem(&mut self, caller: Address, proposal_id: u64, now: u64) -> (r: Result<Vec<Payment>, GovError>)
        requires
            old(self).wf(),
        ensures
            final(self).wf(),
            match old(self).redeem_error(caller, proposal_id, now) {
                Some(e) => r matches Err(x) && x == e && *final(self) == *old(self),
                None => {
                    &&& r matches Ok(v) && v@ == old(self).escrow@[(caller, proposal_id)]
                    &&& final(self).same_config(&*old(self))
                    &&& final(self).same_actions(&*old(self))
                    &&& final(self).proposals@ == old(self).proposals@
                    &&& final(self).escrow@ == old(self).escrow@.remove((caller, proposal_id))
                },
            },
    {
        if proposal_id >= self.proposals.len() as u64 {
            return Err(GovError::NotFound);
        }
        let status = self.get_proposal_status(&self.proposals[proposal_id as usize], now);
        if status != ProposalStatus::Succeeded && status != ProposalStatus::Defeated && status != ProposalStatus::Executed {
            return Err(GovError::VotingNotConcluded);
        }
        if !self.escrow.contains(caller, proposal_id) {
            return Err(GovError::NothingToRedeem);
        }
        let payments = self.escrow.take(caller, proposal_id);
        Ok(payments)
    }

    /// Executes succeeded proposal `id` at time `now`: marks it executed and
    /// returns the calls of its payload, in order, for the host to dispatch
    /// within the same atomic operation.
    pub fn execute(&mut self, proposal_id: u64, now: u64) -> (r: Result<Vec<OutboundCall>, GovError>)
        requires
            old(self).wf(),
        ensures
            final(self).wf(),
            match old(self).execute_error(proposal_id, now) {
                Some(e) => r matches Err(x) && x == e && *final(self) == *old(self),
                None => {
                    let p = old(self).proposals@[proposal_id as int];
                    &&& r matches Ok(calls) && calls@.len() == p.proposal_data.actions().len()
                        && forall|i: int| 0 <= i < calls@.len() ==> (#[trigger] calls@[i]).dispatches(&p.proposal_data.actions()[i])
                    &&& final(self).same_config(&*old(self))
                    &&& final(self).same_actions(&*old(self))
                    &&& final(self).escrow@ == old(self).escrow@
                    &&& final(self).proposals@ == old(self).proposals@.update(proposal_id as int, Proposal { was_executed: true, ..p })
                },
            },
    {
        if self.state != State::Active {
            return Err(GovError::NotActive);
        }
        if proposal_id >= self.proposals.len() as u64 {
            return Err(GovError::NotFound);
        }
        let idx = proposal_id as usize;
        if self.get_proposal_status(&self.proposals[idx], now) != ProposalStatus::Succeeded {
            return Err(GovError::ProposalNotSucceeded);
        }
        let calls = execute_proposal(&self.proposals[idx].proposal_data);
        self.proposals[idx].was_executed = true;
        Ok(calls)
    }

    /// A copy of what `voter` holds in escrow on proposal `id`.
    pub fn get_voter_amount(&self, voter: Address, proposal_id: u64) -> (r: Vec<Payment>)
        requires
            self.wf(),
        ensures
            r@ == self.escrow_of(voter, proposal_id),
    {
        self.escrow.get(voter, proposal_id)
    }

    /// The principals with unredeemed deposits on proposal `id`, each once.
    pub fn get_proposal_voters(&self, proposal_id: u64) -> (r: Vec<Address>)
        requires
            self.wf(),
        ensures
            r@.no_duplicates(),
            forall|v: Address| r@.contains(v) <==> self.escrow@.contains_key((v, proposal_id)),
    {
        self.escrow.voters_of(proposal_id)
    }

    /// The proposals on which `voter` has unredeemed deposits, each once.
    pub fn get_voter_proposals(&self, voter: Address) -> (r: Vec<u64>)
        requires
            self.wf(),
        ensures
            r@.no_duplicates(),
            forall|p: u64| r@.contains(p) <==> self.escrow@.contains_key((voter, p)),
    {
        self.escrow.proposals_of(voter)
    }
}

} // verus!
