use vstd::prelude::*;

use crate::types::{Address, Payment, ProposalStatus, ProposalTypeEnum, TokenId};

verus! {

/// One outbound call of a transfer proposal.
#[derive(Clone, Debug, PartialEq, Eq)]
pub struct Action {
    pub gas_limit: u64,
    pub dest_address: Address,
    pub payment_token: TokenId,
    pub payment_amount: u128,
    pub endpoint_name: Vec<u8>,
    pub arguments: Vec<Vec<u8>>,
}

/// The arguments of a proposal with a single action.
#[derive(Clone, Debug, PartialEq, Eq)]
pub struct ProposalCreationArgs {
    pub description: Vec<u8>,
    pub action: Action,
}

/// A sequence of outbound calls, dispatched in order on execution.
#[derive(Clone, Debug, PartialEq, Eq)]
pub struct TransferProposal {
    pub actions: Vec<Action>,
}

/// The payload of a proposal.
#[derive(Clone, Debug, PartialEq, Eq)]
pub enum ProposalType {
    Nothing,
    NewTransfer(TransferProposal),
}

/// A token-voted proposal. `status` is an advisory cache: the live status is
/// always derived from the stored facts and the current time.
#[derive(Clone, Debug, PartialEq, Eq)]
pub struct Proposal {
    pub id: u64,
    pub proposal_data: ProposalType,
    pub proposal_type: ProposalTypeEnum,
    pub creation_timestamp: u64,
    pub proposer: Address,
    pub title: Vec<u8>,
    pub description: Vec<u8>,
    pub status: ProposalStatus,
    pub was_executed: bool,
    pub num_upvotes: u128,
    pub num_downvotes: u128,
}

/// A call that the host is to dispatch: to `dest_address`'s `endpoint_name`
/// with `arguments`, `gas_limit` gas and, where present, `payment`.
#[derive(Clone, Debug, PartialEq, Eq)]
pub struct OutboundCall {
    pub dest_address: Address,
    pub endpoint_name: Vec<u8>,
    pub payment: Option<Payment>,
    pub arguments: Vec<Vec<u8>>,
    pub gas_limit: u64,
}

/// The status of a proposal, from its stored facts, the time `now`, the voting
/// period and the voting quorum.
pub open spec fn status_from(
    was_executed: bool,
    creation: int,
    now: int,
    voting_period: int,
    upvotes: int,
    downvotes: int,
    quorum: int,
) -> ProposalStatus {
    if was_executed {
        ProposalStatus::Executed
    } else if now < creation {
        ProposalStatus::Pending
    } else if now < creation + voting_period {
        ProposalStatus::Active
    } else if upvotes > downvotes && upvotes - downvotes >= quorum {
        ProposalStatus::Succeeded
    } else {
        ProposalStatus::Defeated
    }
}

/// Whether voting on a proposal of status `s` has concluded.
pub open spec fn voting_concluded(s: ProposalStatus) -> bool {
    s == ProposalStatus::Succeeded || s == ProposalStatus::Defeated || s == ProposalStatus::Executed
}

/// Two byte-string lists hold the same bytes.
pub open spec fn same_byte_lists(a: Seq<Vec<u8>>, b: Seq<Vec<u8>>) -> bool {
    a.len() == b.len() && forall|i: int| 0 <= i < a.len() ==> (#[trigger] a[i])@ == b[i]@
}

impl Action {
    /// `self` holds the same values as `o`.
    pub open spec fn same_as(&self, o: &Action) -> bool {
        &&& self.gas_limit == o.gas_limit
        &&& self.dest_address == o.dest_address
        &&& self.payment_token == o.payment_token
        &&& self.payment_amount == o.payment_amount
        &&& self.endpoint_name@ == o.endpoint_name@
        &&& same_byte_lists(self.arguments@, o.arguments@)
    }
}

impl OutboundCall {
    /// `self` is the dispatch of `a`: a payment is attached only when the
    /// action's amount is positive, with nonce zero.
    pub open spec fn dispatches(&self, a: &Action) -> bool {
        &&& self.dest_address == a.dest_address
        &&& self.endpoint_name@ == a.endpoint_name@
        &&& same_byte_lists(self.arguments@, a.arguments@)
        &&& self.gas_limit == a.gas_limit
        &&& self.payment == if a.payment_amount > 0 {
            Some(Payment { token: a.payment_token, nonce: 0, amount: a.payment_amount })
        } else {
            None
        }
    }
}

impl ProposalType {
    /// The actions that executing a proposal with this payload dispatches.
    pub open spec fn actions(self) -> Seq<Action> {
        match self {
            ProposalType::Nothing => Seq::empty(),
            ProposalType::NewTransfer(t) => t.actions@,
        }
    }
}

impl Proposal {
    /// The live status of this proposal at time `now`.
    pub open spec fn status_at(self, now: u64, voting_period: u64, quorum: u128) -> ProposalStatus {
        status_from(
            self.was_executed,
            self.creation_timestamp as int,
            now as int,
            voting_period as int,
            self.num_upvotes as int,
            self.num_downvotes as int,
            quorum as int,
        )
    }

    /// Derives the live status of this proposal at time `now`.
    pub fn current_status(&self, now: u64, voting_period: u64, quorum: u128) -> (r: ProposalStatus)
        ensures
            r == self.status_at(now, voting_period, quorum),
    {
        if self.was_executed {
            return ProposalStatus::Executed;
        }
        if now < self.creation_timestamp {
            return ProposalStatus::Pending;
        }
        if now - self.creation_timestamp < voting_period {
            return ProposalStatus::Active;
        }
        if self.num_upvotes > self.num_downvotes && self.num_upvotes - self.num_downvotes >= quorum {
            ProposalStatus::Succeeded
        } else {
            ProposalStatus::Defeated
        }
    }
}

/// A copy of a byte string.
pub fn copy_bytes(b: &Vec<u8>) -> (r: Vec<u8>)
    ensures
        r@ == b@,
{
    let mut r: Vec<u8> = Vec::new();
    let mut i: usize = 0;
    while i < b.len()
        invariant
            i <= b.len(),
            r@ == b@.subrange(0, i as int),
        decreases b.len() - i,
    {
        r.push(b[i]);
        i = i + 1;
        assert(r@ =~= b@.subrange(0, i as int));
    }
    assert(r@ =~= b@);
    r
}

/// A copy of a list of byte strings.
pub fn copy_byte_lists(l: &Vec<Vec<u8>>) -> (r: Vec<Vec<u8>>)
    ensures
        same_byte_lists(r@, l@),
{
    let mut r: Vec<Vec<u8>> = Vec::new();
    let mut i: usize = 0;
    while i < l.len()
        invariant
            i <= l.len(),
            r@.len() == i,
            forall|j: int| 0 <= j < i ==> (#[trigger] r@[j])@ == l@[j]@,
        decreases l.len() - i,
    {
        r.push(copy_bytes(&l[i]));
        i = i + 1;
    }
    r
}

/// Turns one action of a transfer proposal into the call that dispatches it.
pub fn execute_action(action: &Action) -> (r: OutboundCall)
    ensures
        r.dispatches(action),
{
    let payment = if action.payment_amount > 0 {
        Some(Payment { token: action.payment_token, nonce: 0, amount: action.payment_amount })
    } else {
        None
    };
    OutboundCall {
        dest_address: action.dest_address,
        endpoint_name: copy_bytes(&action.endpoint_name),
        payment,
        arguments: copy_byte_lists(&action.arguments),
        gas_limit: action.gas_limit,
    }
}

/// The calls that executing a proposal with payload `data` dispatches, in order.
pub fn execute_proposal(data: &ProposalType) -> (r: Vec<OutboundCall>)
    ensures
        r@.len() == data.actions().len(),
        forall|i: int| 0 <= i < r@.len() ==> (#[trigger] r@[i]).dispatches(&data.actions()[i]),
{
    let mut r: Vec<OutboundCall> = Vec::new();
    match data {
        ProposalType::Nothing => {},
        ProposalType::NewTransfer(t) => {
            let mut i: usize = 0;
            while i < t.actions.len()
                invariant
                    i <= t.actions.len(),
                    data.actions() == t.actions@,
                    r@.len() == i,
                    forall|j: int| 0 <= j < i ==> (#[trigger] r@[j]).dispatches(&t.actions@[j]),
                decreases t.actions.len() - i,
            {
                r.push(execute_action(&t.actions[i]));
                i = i + 1;
            }
        },
    }
    r
}

} // verus!
