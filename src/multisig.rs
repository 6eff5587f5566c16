use vstd::prelude::*;

use crate::address_set::AddressSet;
use crate::board::BoardAction;
use crate::dao::FranchiseDao;
use crate::types::{Address, GovError, State, TokenId};

verus! {

broadcast use vstd::set::group_set_axioms;

/// `n` is `o` after board action `a` took effect (its slot aside).
pub open spec fn performs(n: &FranchiseDao, o: &FranchiseDao, a: BoardAction) -> bool {
    &&& n.governance_token == o.governance_token
    &&& n.board_members@ == match a {
        BoardAction::AddBoardMember(x) => o.board_members@.insert(x),
        BoardAction::RemoveBoardMember(x) => o.board_members@.remove(x),
        _ => o.board_members@,
    }
    &&& n.board_quorum == match a {
        BoardAction::ChangeBoardQuorum(q) => q,
        _ => o.board_quorum,
    }
    &&& n.quorum == match a {
        BoardAction::ChangeQuorum(q) => q,
        _ => o.quorum,
    }
    &&& n.voting_period == match a {
        BoardAction::ChangeVotingPeriod(p) => p,
        _ => o.voting_period,
    }
    &&& n.voting_tokens@ == match a {
        BoardAction::AddVotingToken(t, w) => o.voting_tokens@.insert(t, w),
        BoardAction::RemoveVotingToken(t) => o.voting_tokens@.remove(t),
        _ => o.voting_tokens@,
    }
    &&& n.state == match a {
        BoardAction::RemoveVotingToken(t) => if o.voting_tokens@.remove(t).len() == 0 {
            State::Inactive
        } else {
            o.state
        },
        _ => o.state,
    }
    &&& n.tax_amount == match a {
        BoardAction::ChangeTaxAmount(v) => v,
        _ => o.tax_amount,
    }
}

/// `n` is `o` with only the signers of board action `id` changed, to `s`.
pub open spec fn signers_replaced(n: &FranchiseDao, o: &FranchiseDao, id: usize, s: Set<Address>) -> bool {
    &&& n.same_config(o)
    &&& n.same_ledger(o)
    &&& n.actions@ == o.actions@
    &&& n.action_signers@.len() == o.action_signers@.len()
    &&& n.signers_of(id) == s
    &&& forall|j: usize| j != id ==> #[trigger] n.signers_of(j) == o.signers_of(j)
}

/// `n` is `o` with board action `id` closed: its slot emptied, its signers cleared.
pub open spec fn slot_closed(n: &FranchiseDao, o: &FranchiseDao, id: usize) -> bool {
    &&& n.same_ledger(o)
    &&& n.actions@ == o.actions@.update(id - 1, None)
    &&& n.action_signers@.len() == o.action_signers@.len()
    &&& n.signers_of(id) == Set::<Address>::empty()
    &&& forall|j: usize| j != id ==> #[trigger] n.signers_of(j) == o.signers_of(j)
}

impl FranchiseDao {
    /// The number of signers of board action `id` that are board members now.
    pub fn get_action_valid_signer_count(&self, action_id: usize) -> (r: usize)
        requires
            self.wf(),
        ensures
            r == self.valid_signers(action_id).len(),
    {
        if action_id == 0 || action_id > self.action_signers.len() {
            assert(self.valid_signers(action_id) =~= Set::<Address>::empty());
            return 0;
        }
        self.action_signers[action_id - 1].count_in(&self.board_members)
    }

    /// Board action `id` has at least `board_quorum` valid signers.
    pub fn quorum_reached(&self, action_id: usize) -> (r: bool)
        requires
            self.wf(),
        ensures
            r == (self.valid_signers(action_id).len() >= self.board_quorum),
    {
        self.get_action_valid_signer_count(action_id) >= self.board_quorum
    }

    /// `user` has signed board action `id`.
    pub fn signed(&self, user: Address, action_id: usize) -> (r: bool)
        requires
            self.wf(),
        ensures
            r == self.signers_of(action_id).contains(user),
    {
        if action_id == 0 || action_id > self.action_signers.len() {
            return false;
        }
        self.action_signers[action_id - 1].contains(user)
    }

    /// Adds the caller, a board member, to the signers of open board action `id`.
    pub fn sign(&mut self, caller: Address, action_id: usize) -> (r: Result<(), GovError>)
        requires
            old(self).wf(),
        ensures
            final(self).wf(),
            r == (if !old(self).action_exists(action_id) {
                Err(GovError::NotFound)
            } else if !old(self).board_members@.contains(caller) {
                Err(GovError::Unauthorized)
            } else {
                Ok(())
            }),
            r is Err ==> *final(self) == *old(self),
            r is Ok ==> signers_replaced(&*final(self), &*old(self), action_id, old(self).signers_of(action_id).insert(caller)),
    {
        if action_id == 0 || action_id > self.actions.len() || self.actions[action_id - 1].is_none() {
            return Err(GovError::NotFound);
        }
        if !self.board_members.contains(caller) {
            return Err(GovError::Unauthorized);
        }
        self.action_signers[action_id - 1].insert(caller);
        proof {
            assert forall|i: int| 0 <= i < self.action_signers@.len() implies (#[trigger] self.action_signers@[i]).wf() by {
                if i != action_id - 1 {
                    assert(self.action_signers@[i] == old(self).action_signers@[i]);
                }
            }
            assert forall|j: usize| j != action_id implies #[trigger] self.signers_of(j) == old(self).signers_of(j) by {
                if 1 <= j <= self.action_signers@.len() {
                    assert(self.action_signers@[j - 1] == old(self).action_signers@[j - 1]);
                }
            }
        }
        Ok(())
    }

    /// Removes the caller, a board member, from the signers of open board action `id`.
    pub fn unsign(&mut self, caller: Address, action_id: usize) -> (r: Result<(), GovError>)
        requires
            old(self).wf(),
        ensures
            final(self).wf(),
            r == (if !old(self).action_exists(action_id) {
                Err(GovError::NotFound)
            } else if !old(self).board_members@.contains(caller) {
                Err(GovError::Unauthorized)
            } else {
                Ok(())
            }),
            r is Err ==> *final(self) == *old(self),
            r is Ok ==> signers_replaced(&*final(self), &*old(self), action_id, old(self).signers_of(action_id).remove(caller)),
    {
        if action_id == 0 || action_id > self.actions.len() || self.actions[action_id - 1].is_none() {
            return Err(GovError::NotFound);
        }
        if !self.board_members.contains(caller) {
            return Err(GovError::Unauthorized);
        }
        self.action_signers[action_id - 1].remove(caller);
        proof {
            assert forall|i: int| 0 <= i < self.action_signers@.len() implies (#[trigger] self.action_signers@[i]).wf() by {
                if i != action_id - 1 {
                    assert(self.action_signers@[i] == old(self).action_signers@[i]);
                }
            }
            assert forall|j: usize| j != action_id implies #[trigger] self.signers_of(j) == old(self).signers_of(j) by {
                if 1 <= j <= self.action_signers@.len() {
                    assert(self.action_signers@[j - 1] == old(self).action_signers@[j - 1]);
                }
            }
        }
        Ok(())
    }

    /// Empties the slot of board action `id` and its signer set.
    fn close_slot(&mut self, action_id: usize)
        requires
            old(self).wf(),
            1 <= action_id <= old(self).actions@.len(),
        ensures
            final(self).wf(),
            final(self).same_config(&*old(self)),
            slot_closed(&*final(self), &*old(self), action_id),
    {
        self.actions.set(action_id - 1, None);
        self.action_signers[action_id - 1].clear();
        proof {
            assert forall|i: int| 0 <= i < self.action_signers@.len() implies (#[trigger] self.action_signers@[i]).wf() by {
                if i != action_id - 1 {
                    assert(self.action_signers@[i] == old(self).action_signers@[i]);
                }
            }
            assert forall|i: int| 0 <= i < self.actions@.len() && (#[trigger] self.actions@[i]) is None implies self.action_signers@[i]@.is_empty() by {
                if i != action_id - 1 {
                    assert(self.action_signers@[i] == old(self).action_signers@[i]);
                }
            }
            assert forall|j: usize| j != action_id implies #[trigger] self.signers_of(j) == old(self).signers_of(j) by {
                if 1 <= j <= self.action_signers@.len() {
                    assert(self.action_signers@[j - 1] == old(self).action_signers@[j - 1]);
                }
            }
        }
    }

    /// Drops open board action `id` without effect. The caller must be a board
    /// member, and no current board member may still have signed it.
    pub fn discard_action(&mut self, caller: Address, action_id: usize) -> (r: Result<(), GovError>)
        requires
            old(self).wf(),
        ensures
            final(self).wf(),
            r == (if !old(self).board_members@.contains(caller) {
                Err(GovError::Unauthorized)
            } else if !old(self).action_exists(action_id) {
                Err(GovError::NotFound)
            } else if old(self).valid_signers(action_id).len() != 0 {
                Err(GovError::HasValidSigners)
            } else {
                Ok(())
            }),
            r is Err ==> *final(self) == *old(self),
            r is Ok ==> final(self).same_config(&*old(self)) && slot_closed(&*final(self), &*old(self), action_id),
    {
        if !self.board_members.contains(caller) {
            return Err(GovError::Unauthorized);
        }
        if action_id == 0 || action_id > self.actions.len() || self.actions[action_id - 1].is_none() {
            return Err(GovError::NotFound);
        }
        if self.get_action_valid_signer_count(action_id) != 0 {
            return Err(GovError::HasValidSigners);
        }
        self.close_slot(action_id);
        Ok(())
    }

    /// Records board action `action` under the next id, signed by the caller,
    /// who must be a board member. Returns the new id.
    pub fn propose_action(&mut self, caller: Address, action: BoardAction) -> (r: Result<usize, GovError>)
        requires
            old(self).wf(),
            old(self).actions@.len() < usize::MAX,
        ensures
            final(self).wf(),
            r is Err ==> r == Err::<usize, GovError>(GovError::Unauthorized) && *final(self) == *old(self),
            r is Ok <==> old(self).board_members@.contains(caller),
            r matches Ok(id) ==> {
                &&& id == old(self).actions@.len() + 1
                &&& final(self).same_config(&*old(self))
                &&& final(self).same_ledger(&*old(self))
                &&& final(self).actions@ == old(self).actions@.push(Some(action))
                &&& final(self).signers_of(id) == Set::<Address>::empty().insert(caller)
                &&& forall|j: usize| j != id ==> #[trigger] final(self).signers_of(j) == old(self).signers_of(j)
            },
    {
        if !self.board_members.contains(caller) {
            return Err(GovError::Unauthorized);
        }
        let mut signers = AddressSet::new();
        signers.insert(caller);
        self.actions.push(Some(action));
        self.action_signers.push(signers);
        let id = self.actions.len();
        proof {
            assert forall|i: int| 0 <= i < self.action_signers@.len() implies (#[trigger] self.action_signers@[i]).wf() by {
                if i < old(self).action_signers@.len() {
                    assert(self.action_signers@[i] == old(self).action_signers@[i]);
                }
            }
            assert forall|i: int| 0 <= i < self.actions@.len() && (#[trigger] self.actions@[i]) is None implies self.action_signers@[i]@.is_empty() by {
                assert(i < old(self).actions@.len());
                assert(self.action_signers@[i] == old(self).action_signers@[i]);
            }
            assert forall|j: usize| j != id implies #[trigger] self.signers_of(j) == old(self).signers_of(j) by {
                if 1 <= j <= old(self).action_signers@.len() {
                    assert(self.action_signers@[j - 1] == old(self).action_signers@[j - 1]);
                }
            }
        }
        Ok(id)
    }

    /// Proposes adding `board_member_address`, who must not be a member yet.
    pub fn propose_add_board_member(&mut self, caller: Address, board_member_address: Address) -> (r: Result<usize, GovError>)
        requires
            old(self).wf(),
            old(self).actions@.len() < usize::MAX,
        ensures
            final(self).wf(),
            old(self).board_members@.contains(board_member_address) ==> r == Err::<usize, GovError>(GovError::InvalidArgument) && *final(self) == *old(self),
            !old(self).board_members@.contains(board_member_address) ==> {
                &&& r is Ok <==> old(self).board_members@.contains(caller)
                &&& r is Err ==> r == Err::<usize, GovError>(GovError::Unauthorized) && *final(self) == *old(self)
                &&& r matches Ok(id) ==> id == old(self).actions@.len() + 1 && final(self).action_exists(id)
                    && final(self).action_of(id) == BoardAction::AddBoardMember(board_member_address)
                    && final(self).signers_of(id) == Set::<Address>::empty().insert(caller)
            },
    {
        if self.board_members.contains(board_member_address) {
            return Err(GovError::InvalidArgument);
        }
        self.propose_action(caller, BoardAction::AddBoardMember(board_member_address))
    }

    /// Proposes removing `user_address`, who must be a member.
    pub fn propose_remove_user(&mut self, caller: Address, user_address: Address) -> (r: Result<usize, GovError>)
        requires
            old(self).wf(),
            old(self).actions@.len() < usize::MAX,
        ensures
            final(self).wf(),
            !old(self).board_members@.contains(user_address) ==> r == Err::<usize, GovError>(GovError::InvalidArgument) && *final(self) == *old(self),
            old(self).board_members@.contains(user_address) ==> {
                &&& r is Ok <==> old(self).board_members@.contains(caller)
                &&& r is Err ==> r == Err::<usize, GovError>(GovError::Unauthorized) && *final(self) == *old(self)
                &&& r matches Ok(id) ==> id == old(self).actions@.len() + 1 && final(self).action_exists(id)
                    && final(self).action_of(id) == BoardAction::RemoveBoardMember(user_address)
                    && final(self).signers_of(id) == Set::<Address>::empty().insert(caller)
            },
    {
        if !self.board_members.contains(user_address) {
            return Err(GovError::InvalidArgument);
        }
        self.propose_action(caller, BoardAction::RemoveBoardMember(user_address))
    }

    /// Proposes a new board quorum, which must be positive.
    pub fn propose_change_board_quorum(&mut self, caller: Address, new_quorum: usize) -> (r: Result<usize, GovError>)
        requires
            old(self).wf(),
            old(self).actions@.len() < usize::MAX,
        ensures
            final(self).wf(),
            new_quorum == 0 ==> r == Err::<usize, GovError>(GovError::InvalidArgument) && *final(self) == *old(self),
            new_quorum > 0 ==> {
                &&& r is Ok <==> old(self).board_members@.contains(caller)
                &&& r is Err ==> r == Err::<usize, GovError>(GovError::Unauthorized) && *final(self) == *old(self)
                &&& r matches Ok(id) ==> id == old(self).actions@.len() + 1 && final(self).action_exists(id)
                    && final(self).action_of(id) == BoardAction::ChangeBoardQuorum(new_quorum)
                    && final(self).signers_of(id) == Set::<Address>::empty().insert(caller)
            },
    {
        if new_quorum == 0 {
            return Err(GovError::InvalidArgument);
        }
        self.propose_action(caller, BoardAction::ChangeBoardQuorum(new_quorum))
    }

    /// Proposes a new voting quorum, which must be positive.
    pub fn propose_change_quorum(&mut self, caller: Address, new_quorum: u128) -> (r: Result<usize, GovError>)
        requires
            old(self).wf(),
            old(self).actions@.len() < usize::MAX,
        ensures
            final(self).wf(),
            new_quorum == 0 ==> r == Err::<usize, GovError>(GovError::InvalidArgument) && *final(self) == *old(self),
            new_quorum > 0 ==> {
                &&& r is Ok <==> old(self).board_members@.contains(caller)
                &&& r is Err ==> r == Err::<usize, GovError>(GovError::Unauthorized) && *final(self) == *old(self)
                &&& r matches Ok(id) ==> id == old(self).actions@.len() + 1 && final(self).action_exists(id)
                    && final(self).action_of(id) == BoardAction::ChangeQuorum(new_quorum)
                    && final(self).signers_of(id) == Set::<Address>::empty().insert(caller)
            },
    {
        if new_quorum == 0 {
            return Err(GovError::InvalidArgument);
        }
        self.propose_action(caller, BoardAction::ChangeQuorum(new_quorum))
    }

    /// Proposes a new voting period, which must be positive.
    pub fn propose_change_voting_period(&mut self, caller: Address, new_period: u64) -> (r: Result<usize, GovError>)
        requires
            old(self).wf(),
            old(self).actions@.len() < usize::MAX,
        ensures
            final(self).wf(),
            new_period == 0 ==> r == Err::<usize, GovError>(GovError::InvalidArgument) && *final(self) == *old(self),
            new_period > 0 ==> {
                &&& r is Ok <==> old(self).board_members@.contains(caller)
                &&& r is Err ==> r == Err::<usize, GovError>(GovError::Unauthorized) && *final(self) == *old(self)
                &&& r matches Ok(id) ==> id == old(self).actions@.len() + 1 && final(self).action_exists(id)
                    && final(self).action_of(id) == BoardAction::ChangeVotingPeriod(new_period)
                    && final(self).signers_of(id) == Set::<Address>::empty().insert(caller)
            },
    {
        if new_period == 0 {
            return Err(GovError::InvalidArgument);
        }
        self.propose_action(caller, BoardAction::ChangeVotingPeriod(new_period))
    }

    /// Proposes adding voting asset `token`, not yet one, with a positive weight.
    pub fn propose_add_voting_token(&mut self, caller: Address, token: TokenId, weight: u128) -> (r: Result<usize, GovError>)
        requires
            old(self).wf(),
            old(self).actions@.len() < usize::MAX,
        ensures
            final(self).wf(),
            old(self).voting_tokens@.contains_key(token) || weight == 0 ==> r == Err::<usize, GovError>(GovError::InvalidArgument) && *final(self) == *old(self),
            !old(self).voting_tokens@.contains_key(token) && weight > 0 ==> {
                &&& r is Ok <==> old(self).board_members@.contains(caller)
                &&& r is Err ==> r == Err::<usize, GovError>(GovError::Unauthorized) && *final(self) == *old(self)
                &&& r matches Ok(id) ==> id == old(self).actions@.len() + 1 && final(self).action_exists(id)
                    && final(self).action_of(id) == BoardAction::AddVotingToken(token, weight)
                    && final(self).signers_of(id) == Set::<Address>::empty().insert(caller)
            },
    {
        if self.voting_tokens.contains_key(token) {
            return Err(GovError::InvalidArgument);
        }
        if weight == 0 {
            return Err(GovError::InvalidArgument);
        }
        self.propose_action(caller, BoardAction::AddVotingToken(token, weight))
    }

    /// Proposes removing voting asset `token`, which must be one.
    pub fn propose_remove_voting_token(&mut self, caller: Address, token: TokenId) -> (r: Result<usize, GovError>)
        requires
            old(self).wf(),
            old(self).actions@.len() < usize::MAX,
        ensures
            final(self).wf(),
            !old(self).voting_tokens@.contains_key(token) ==> r == Err::<usize, GovError>(GovError::InvalidArgument) && *final(self) == *old(self),
            old(self).voting_tokens@.contains_key(token) ==> {
                &&& r is Ok <==> old(self).board_members@.contains(caller)
                &&& r is Err ==> r == Err::<usize, GovError>(GovError::Unauthorized) && *final(self) == *old(self)
                &&& r matches Ok(id) ==> id == old(self).actions@.len() + 1 && final(self).action_exists(id)
                    && final(self).action_of(id) == BoardAction::RemoveVotingToken(token)
                    && final(self).signers_of(id) == Set::<Address>::empty().insert(caller)
            },
    {
        if !self.voting_tokens.contains_key(token) {
            return Err(GovError::InvalidArgument);
        }
        self.propose_action(caller, BoardAction::RemoveVotingToken(token))
    }

    /// Proposes a new tax parameter, which must be positive.
    pub fn propose_change_tax_amount(&mut self, caller: Address, new_tax_amount: u128) -> (r: Result<usize, GovError>)
        requires
            old(self).wf(),
            old(self).actions@.len() < usize::MAX,
        ensures
            final(self).wf(),
            new_tax_amount == 0 ==> r == Err::<usize, GovError>(GovError::InvalidArgument) && *final(self) == *old(self),
            new_tax_amount > 0 ==> {
                &&& r is Ok <==> old(self).board_members@.contains(caller)
                &&& r is Err ==> r == Err::<usize, GovError>(GovError::Unauthorized) && *final(self) == *old(self)
                &&& r matches Ok(id) ==> id == old(self).actions@.len() + 1 && final(self).action_exists(id)
                    && final(self).action_of(id) == BoardAction::ChangeTaxAmount(new_tax_amount)
                    && final(self).signers_of(id) == Set::<Address>::empty().insert(caller)
            },
    {
        if new_tax_amount == 0 {
            return Err(GovError::InvalidArgument);
        }
        self.propose_action(caller, BoardAction::ChangeTaxAmount(new_tax_amount))
    }

    /// Performs open board action `id`. The caller must be a board member and
    /// the action must have at least `board_quorum` valid signers.
    pub fn perform_action_endpoint(&mut self, caller: Address, action_id: usize) -> (r: Result<(), GovError>)
        requires
            old(self).wf(),
        ensures
            final(self).wf(),
            r == (if !old(self).board_members@.contains(caller) {
                Err(GovError::Unauthorized)
            } else if !old(self).action_exists(action_id) {
                Err(GovError::NotFound)
            } else if old(self).valid_signers(action_id).len() < old(self).board_quorum {
                Err(GovError::QuorumNotReached)
            } else {
                Ok(())
            }),
            r is Err ==> *final(self) == *old(self),
            r is Ok ==> slot_closed(&*final(self), &*old(self), action_id)
                && performs(&*final(self), &*old(self), old(self).action_of(action_id)),
    {
        if !self.board_members.contains(caller) {
            return Err(GovError::Unauthorized);
        }
        if action_id == 0 || action_id > self.actions.len() || self.actions[action_id - 1].is_none() {
            return Err(GovError::NotFound);
        }
        if !self.quorum_reached(action_id) {
            return Err(GovError::QuorumNotReached);
        }
        self.perform_action(action_id);
        Ok(())
    }

    /// Closes open board action `id`, then applies its payload.
    fn perform_action(&mut self, action_id: usize)
        requires
            old(self).wf(),
            old(self).action_exists(action_id),
        ensures
            final(self).wf(),
            slot_closed(&*final(self), &*old(self), action_id),
            performs(&*final(self), &*old(self), old(self).action_of(action_id)),
    {
        let action = match self.actions[action_id - 1] {
            Some(a) => a,
            None => BoardAction::Nothing,
        };
        self.close_slot(action_id);
        let ghost closed = *self;
        match action {
            BoardAction::Nothing => {},
            BoardAction::AddBoardMember(a) => {
                self.board_members.insert(a);
            },
            BoardAction::RemoveBoardMember(a) => {
                self.board_members.remove(a);
            },
            BoardAction::ChangeBoardQuorum(q) => {
                self.board_quorum = q;
            },
            BoardAction::ChangeQuorum(q) => {
                self.quorum = q;
            },
            BoardAction::ChangeVotingPeriod(p) => {
                self.voting_period = p;
            },
            BoardAction::AddVotingToken(t, w) => {
                self.voting_tokens.insert(t, w);
            },
            BoardAction::RemoveVotingToken(t) => {
                self.voting_tokens.remove(t);
                if self.voting_tokens.is_empty() {
                    self.state = State::Inactive;
                }
            },
            BoardAction::ChangeTaxAmount(v) => {
                self.tax_amount = v;
            },
        }
        proof {
            assert(self.action_signers == closed.action_signers);
            assert forall|j: usize| j != action_id implies #[trigger] self.signers_of(j) == old(self).signers_of(j) by {
                assert(self.signers_of(j) == closed.signers_of(j));
            }
        }
    }
}

} // verus!
