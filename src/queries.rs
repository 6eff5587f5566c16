use vstd::prelude::*;

use crate::dao::{ContractInfo, FranchiseDao};
use crate::proposal::{copy_byte_lists, copy_bytes, Action, Proposal, ProposalType, TransferProposal};
use crate::types::{ProposalStatus, ProposalTypeEnum};

verus! {

/// The number of proposals in `ps` whose status at `now` is `status`, or all
/// of them where `status` is `None`.
pub open spec fn count_with_status(
    ps: Seq<Proposal>,
    status: Option<ProposalStatus>,
    now: u64,
    voting_period: u64,
    quorum: u128,
) -> nat
    decreases ps.len(),
{
    if ps.len() == 0 {
        0
    } else {
        count_with_status(ps.drop_last(), status, now, voting_period, quorum) + if status is None
            || ps.last().status_at(now, voting_period, quorum) == status->Some_0 {
            1nat
        } else {
            0nat
        }
    }
}

/// Counting with no status filter counts every proposal.
pub proof fn lemma_count_all(ps: Seq<Proposal>, now: u64, voting_period: u64, quorum: u128)
    ensures
        count_with_status(ps, None, now, voting_period, quorum) == ps.len(),
    decreases ps.len(),
{
    if ps.len() > 0 {
        lemma_count_all(ps.drop_last(), now, voting_period, quorum);
    }
}

/// The proposals of `ps` of kind `t`, in order.
pub open spec fn of_type(ps: Seq<Proposal>, t: ProposalTypeEnum) -> Seq<Proposal>
    decreases ps.len(),
{
    if ps.len() == 0 {
        ps
    } else if ps.last().proposal_type == t {
        of_type(ps.drop_last(), t).push(ps.last())
    } else {
        of_type(ps.drop_last(), t)
    }
}

/// How many of `n` listed items have a rank from `from` to `to`, both included.
pub open spec fn window_len(n: int, from: int, to: int) -> int {
    let end = if n < to + 1 {
        n
    } else {
        to + 1
    };
    if end > from {
        end - from
    } else {
        0
    }
}

/// Two action lists hold the same actions.
pub open spec fn same_actions(a: Seq<Action>, b: Seq<Action>) -> bool {
    a.len() == b.len() && forall|i: int| 0 <= i < a.len() ==> (#[trigger] a[i]).same_as(&b[i])
}

/// Two payloads are the same.
pub open spec fn same_payload(a: ProposalType, b: ProposalType) -> bool {
    match (a, b) {
        (ProposalType::Nothing, ProposalType::Nothing) => true,
        (ProposalType::NewTransfer(x), ProposalType::NewTransfer(y)) => same_actions(x.actions@, y.actions@),
        _ => false,
    }
}

impl Proposal {
    /// `self` is a copy of `src` whose cached status is `status`.
    pub open spec fn listed_as(&self, src: Proposal, status: ProposalStatus) -> bool {
        &&& self.id == src.id
        &&& same_payload(self.proposal_data, src.proposal_data)
        &&& self.proposal_type == src.proposal_type
        &&& self.creation_timestamp == src.creation_timestamp
        &&& self.proposer == src.proposer
        &&& self.title@ == src.title@
        &&& self.description@ == src.description@
        &&& self.status == status
        &&& self.was_executed == src.was_executed
        &&& self.num_upvotes == src.num_upvotes
        &&& self.num_downvotes == src.num_downvotes
    }
}

fn copy_action(a: &Action) -> (r: Action)
    ensures
        r.same_as(a),
{
    Action {
        gas_limit: a.gas_limit,
        dest_address: a.dest_address,
        payment_token: a.payment_token,
        payment_amount: a.payment_amount,
        endpoint_name: copy_bytes(&a.endpoint_name),
        arguments: copy_byte_lists(&a.arguments),
    }
}

fn copy_payload(d: &ProposalType) -> (r: ProposalType)
    ensures
        same_payload(r, *d),
{
    match d {
        ProposalType::Nothing => ProposalType::Nothing,
        ProposalType::NewTransfer(t) => {
            let mut actions: Vec<Action> = Vec::new();
            let mut i: usize = 0;
            while i < t.actions.len()
                invariant
                    i <= t.actions@.len(),
                    actions@.len() == i,
                    forall|j: int| 0 <= j < i ==> (#[trigger] actions@[j]).same_as(&t.actions@[j]),
                decreases t.actions.len() - i,
            {
                actions.push(copy_action(&t.actions[i]));
                i = i + 1;
            }
            ProposalType::NewTransfer(TransferProposal { actions })
        },
    }
}

/// A copy of `p` with cached status `status`.
fn list_proposal(p: &Proposal, status: ProposalStatus) -> (r: Proposal)
    ensures
        r.listed_as(*p, status),
{
    Proposal {
        id: p.id,
        proposal_data: copy_payload(&p.proposal_data),
        proposal_type: p.proposal_type,
        creation_timestamp: p.creation_timestamp,
        proposer: p.proposer,
        title: copy_bytes(&p.title),
        description: copy_bytes(&p.description),
        status,
        was_executed: p.was_executed,
        num_upvotes: p.num_upvotes,
        num_downvotes: p.num_downvotes,
    }
}

impl FranchiseDao {
    /// The number of proposals whose status at `now` is `status`; all of them
    /// where `status` is `None`.
    pub fn get_proposals_count(&self, status: Option<ProposalStatus>, now: u64) -> (r: u64)
        requires
            self.wf(),
        ensures
            r == count_with_status(self.proposals@, status, now, self.voting_period, self.quorum),
    {
        let mut count: u64 = 0;
        let mut i: usize = 0;
        while i < self.proposals.len()
            invariant
                self.wf(),
                i <= self.proposals@.len(),
                count == count_with_status(self.proposals@.subrange(0, i as int), status, now, self.voting_period, self.quorum),
                count <= i,
            decreases self.proposals.len() - i,
        {
            let ghost pre = self.proposals@.subrange(0, i as int + 1);
            assert(pre.drop_last() =~= self.proposals@.subrange(0, i as int));
            let s = self.get_proposal_status(&self.proposals[i], now);
            let hit = match status {
                None => true,
                Some(want) => s == want,
            };
            if hit {
                count = count + 1;
            }
            i = i + 1;
        }
        assert(self.proposals@.subrange(0, i as int) =~= self.proposals@);
        count
    }

    /// The proposals of kind `proposal_type` whose rank among that kind is
    /// from `idx_from` to `idx_to`, both included, each with its status at
    /// `now`.
    pub fn get_proposals(&self, idx_from: u64, idx_to: u64, proposal_type: ProposalTypeEnum, now: u64) -> (r: Vec<Proposal>)
        requires
            self.wf(),
        ensures
            r@.len() == window_len(of_type(self.proposals@, proposal_type).len() as int, idx_from as int, idx_to as int),
            forall|k: int| 0 <= k < r@.len() ==> {
                let src = #[trigger] of_type(self.proposals@, proposal_type)[idx_from + k];
                r@[k].listed_as(src, src.status_at(now, self.voting_period, self.quorum))
            },
    {
        let mut r: Vec<Proposal> = Vec::new();
        let mut rank: u64 = 0;
        let mut i: usize = 0;
        while i < self.proposals.len()
            invariant
                self.wf(),
                i <= self.proposals@.len(),
                rank == of_type(self.proposals@.subrange(0, i as int), proposal_type).len(),
                rank <= i,
                r@.len() == window_len(rank as int, idx_from as int, idx_to as int),
                forall|k: int| 0 <= k < r@.len() ==> {
                    let src = #[trigger] of_type(self.proposals@.subrange(0, i as int), proposal_type)[idx_from + k];
                    r@[k].listed_as(src, src.status_at(now, self.voting_period, self.quorum))
                },
            decreases self.proposals.len() - i,
        {
            let ghost before = of_type(self.proposals@.subrange(0, i as int), proposal_type);
            let ghost pre = self.proposals@.subrange(0, i as int + 1);
            assert(pre.drop_last() =~= self.proposals@.subrange(0, i as int));
            assert(pre.last() == self.proposals@[i as int]);
            if self.proposals[i].proposal_type == proposal_type {
                assert(of_type(pre, proposal_type) == before.push(self.proposals@[i as int]));
                if rank >= idx_from && rank <= idx_to {
                    let s = self.get_proposal_status(&self.proposals[i], now);
                    let copy = list_proposal(&self.proposals[i], s);
                    r.push(copy);
                }
                rank = rank + 1;
            } else {
                assert(of_type(pre, proposal_type) == before);
            }
            i = i + 1;
        }
        assert(self.proposals@.subrange(0, i as int) =~= self.proposals@);
        r
    }

    /// A summary of the configuration; `proposals_count` counts every proposal.
    pub fn get_contract_info(&self, now: u64) -> (r: ContractInfo)
        requires
            self.wf(),
        ensures
            r.state == self.state,
            r.governance_token == self.governance_token,
            r.voting_tokens@ == self.voting_tokens.token_seq(),
            r.voting_token_weights@ == self.voting_tokens.weight_seq(),
            r.voting_period == self.voting_period,
            r.quorum == self.quorum,
            r.board_quorum == self.board_quorum,
            r.board_members@ == self.board_members.members(),
            r.last_proposal_id == self.proposals@.len(),
            r.proposals_count == self.proposals@.len(),
    {
        proof {
            lemma_count_all(self.proposals@, now, self.voting_period, self.quorum);
        }
        let (voting_tokens, voting_token_weights) = self.voting_tokens.entries();
        let board_members = self.board_members.to_vec();
        let proposals_count = self.get_proposals_count(None, now);
        ContractInfo {
            state: self.state,
            governance_token: self.governance_token,
            voting_tokens,
            voting_token_weights,
            voting_period: self.voting_period,
            quorum: self.quorum,
            board_quorum: self.board_quorum,
            board_members,
            last_proposal_id: self.proposals.len() as u64,
            proposals_count,
        }
    }
}

} // verus!
