use franchise_dao::board::BoardAction;
use franchise_dao::dao::FranchiseDao;
use franchise_dao::math::ONE;
use franchise_dao::types::{Address, GovError, State, TokenId};

const A: Address = Address(1);
const B: Address = Address(2);
const C: Address = Address(3);
const OUTSIDER: Address = Address(99);
const GOV: TokenId = TokenId(100);
const OTHER: TokenId = TokenId(200);

/// A board of A, B and C with a board quorum of `quorum`.
fn board_of_three(quorum: usize) -> FranchiseDao {
    let mut dao = FranchiseDao::new(A, GOV);
    let id = dao.propose_add_board_member(A, B).unwrap();
    dao.perform_action_endpoint(A, id).unwrap();
    let id = dao.propose_add_board_member(A, C).unwrap();
    dao.sign(B, id).unwrap();
    dao.perform_action_endpoint(A, id).unwrap();
    let id = dao.propose_change_board_quorum(A, quorum).unwrap();
    dao.sign(B, id).unwrap();
    dao.perform_action_endpoint(A, id).unwrap();
    assert_eq!(dao.board_quorum, quorum);
    dao
}

#[test]
fn scenario_remove_member_with_two_signers() {
    let mut dao = board_of_three(2);
    let id = dao.propose_remove_user(A, C).unwrap();
    assert!(dao.signed(A, id));
    assert_eq!(dao.get_action_valid_signer_count(id), 1);
    assert!(!dao.quorum_reached(id));
    assert_eq!(dao.perform_action_endpoint(A, id), Err(GovError::QuorumNotReached));
    dao.sign(B, id).unwrap();
    assert_eq!(dao.get_action_valid_signer_count(id), 2);
    assert!(dao.quorum_reached(id));
    assert_eq!(dao.perform_action_endpoint(A, id), Ok(()));
    assert!(!dao.is_board_member(C));
    assert!(dao.actions[id - 1].is_none());
    assert!(!dao.signed(A, id));
    assert_eq!(dao.get_action_valid_signer_count(id), 0);
    assert_eq!(dao.perform_action_endpoint(A, id), Err(GovError::NotFound));
}

#[test]
fn scenario_discard_only_without_valid_signers() {
    let mut dao = board_of_three(2);
    let id = dao.propose_change_quorum(A, 7).unwrap();
    assert_eq!(dao.discard_action(B, id), Err(GovError::HasValidSigners));
    dao.unsign(A, id).unwrap();
    assert_eq!(dao.get_action_valid_signer_count(id), 0);
    assert_eq!(dao.discard_action(B, id), Ok(()));
    assert!(dao.actions[id - 1].is_none());
    assert_eq!(dao.quorum, 0);
    assert_eq!(dao.discard_action(B, id), Err(GovError::NotFound));
    assert_eq!(dao.sign(B, id), Err(GovError::NotFound));
}

#[test]
fn removed_members_stop_counting_as_signers() {
    let mut dao = board_of_three(1);
    let pending = dao.propose_change_tax_amount(C, 5).unwrap();
    dao.sign(B, pending).unwrap();
    assert_eq!(dao.get_action_valid_signer_count(pending), 2);
    let id = dao.propose_remove_user(A, C).unwrap();
    dao.perform_action_endpoint(A, id).unwrap();
    let id = dao.propose_remove_user(A, B).unwrap();
    dao.perform_action_endpoint(A, id).unwrap();
    // B and C signed, but neither is on the board any more.
    assert!(dao.signed(C, pending));
    assert_eq!(dao.get_action_valid_signer_count(pending), 0);
    assert!(dao.get_action_valid_signer_count(pending) <= dao.board_members.len());
    assert_eq!(dao.perform_action_endpoint(A, pending), Err(GovError::QuorumNotReached));
    assert_eq!(dao.discard_action(A, pending), Ok(()));
}

#[test]
fn sign_and_unsign_are_set_operations() {
    let mut dao = board_of_three(3);
    let id = dao.propose_change_voting_period(A, 50).unwrap();
    dao.sign(A, id).unwrap();
    dao.sign(A, id).unwrap();
    assert_eq!(dao.get_action_valid_signer_count(id), 1);
    dao.unsign(B, id).unwrap();
    assert_eq!(dao.get_action_valid_signer_count(id), 1);
    assert_eq!(dao.sign(OUTSIDER, id), Err(GovError::Unauthorized));
    assert_eq!(dao.unsign(OUTSIDER, id), Err(GovError::Unauthorized));
    assert_eq!(dao.sign(A, id + 1), Err(GovError::NotFound));
    assert_eq!(dao.sign(A, 0), Err(GovError::NotFound));
    dao.sign(B, id).unwrap();
    dao.sign(C, id).unwrap();
    assert_eq!(dao.perform_action_endpoint(OUTSIDER, id), Err(GovError::Unauthorized));
    dao.perform_action_endpoint(C, id).unwrap();
    assert_eq!(dao.voting_period, 50);
}

#[test]
fn proposal_arguments_are_checked() {
    let mut dao = board_of_three(1);
    assert_eq!(dao.propose_add_board_member(A, B), Err(GovError::InvalidArgument));
    assert_eq!(dao.propose_remove_user(A, OUTSIDER), Err(GovError::InvalidArgument));
    assert_eq!(dao.propose_change_board_quorum(A, 0), Err(GovError::InvalidArgument));
    assert_eq!(dao.propose_change_quorum(A, 0), Err(GovError::InvalidArgument));
    assert_eq!(dao.propose_change_voting_period(A, 0), Err(GovError::InvalidArgument));
    assert_eq!(dao.propose_add_voting_token(A, GOV, 1), Err(GovError::InvalidArgument));
    assert_eq!(dao.propose_add_voting_token(A, OTHER, 0), Err(GovError::InvalidArgument));
    assert_eq!(dao.propose_remove_voting_token(A, OTHER), Err(GovError::InvalidArgument));
    assert_eq!(dao.propose_change_tax_amount(A, 0), Err(GovError::InvalidArgument));
    assert_eq!(dao.propose_change_tax_amount(OUTSIDER, 1), Err(GovError::Unauthorized));
    assert_eq!(dao.propose_action(OUTSIDER, BoardAction::Nothing), Err(GovError::Unauthorized));
    assert_eq!(dao.discard_action(OUTSIDER, 1), Err(GovError::Unauthorized));
    assert!(dao.actions.len() == 3);
}

#[test]
fn action_ids_are_sequential_from_one() {
    let mut dao = FranchiseDao::new(A, GOV);
    assert_eq!(dao.propose_action(A, BoardAction::Nothing), Ok(1));
    assert_eq!(dao.propose_change_quorum(A, 4), Ok(2));
    dao.discard_action(A, 1).unwrap_err();
    dao.unsign(A, 1).unwrap();
    dao.discard_action(A, 1).unwrap();
    assert_eq!(dao.propose_change_quorum(A, 5), Ok(3));
}

#[test]
fn performing_each_kind_of_action() {
    let mut dao = FranchiseDao::new(A, GOV);
    let id = dao.propose_action(A, BoardAction::Nothing).unwrap();
    dao.perform_action_endpoint(A, id).unwrap();
    let id = dao.propose_change_quorum(A, 4).unwrap();
    dao.perform_action_endpoint(A, id).unwrap();
    assert_eq!(dao.quorum, 4);
    let id = dao.propose_change_voting_period(A, 9).unwrap();
    dao.perform_action_endpoint(A, id).unwrap();
    assert_eq!(dao.voting_period, 9);
    let id = dao.propose_change_tax_amount(A, 11).unwrap();
    dao.perform_action_endpoint(A, id).unwrap();
    assert_eq!(dao.tax_amount, 11);
    let id = dao.propose_add_voting_token(A, OTHER, 3 * ONE).unwrap();
    dao.perform_action_endpoint(A, id).unwrap();
    assert_eq!(dao.voting_tokens.get(OTHER), Some(3 * ONE));
    assert_eq!(dao.voting_tokens.len(), 2);
}

#[test]
fn removing_last_voting_asset_deactivates() {
    let mut dao = FranchiseDao::new(A, GOV);
    dao.set_quorum(A, 1).unwrap();
    dao.set_voting_period(A, 10).unwrap();
    dao.set_state_active(A).unwrap();
    let id = dao.propose_add_voting_token(A, OTHER, ONE).unwrap();
    dao.perform_action_endpoint(A, id).unwrap();
    let id = dao.propose_remove_voting_token(A, GOV).unwrap();
    dao.perform_action_endpoint(A, id).unwrap();
    assert_eq!(dao.state, State::Active);
    let id = dao.propose_remove_voting_token(A, OTHER).unwrap();
    dao.perform_action_endpoint(A, id).unwrap();
    assert_eq!(dao.state, State::Inactive);
    assert!(dao.voting_tokens.is_empty());
    assert_eq!(dao.set_state_active(A), Err(GovError::NoVotingTokens));
    let id = dao.propose_add_voting_token(A, GOV, ONE).unwrap();
    dao.perform_action_endpoint(A, id).unwrap();
    assert_eq!(dao.state, State::Inactive);
    assert_eq!(dao.set_state_active(A), Ok(()));
    assert_eq!(dao.state, State::Active);
}
