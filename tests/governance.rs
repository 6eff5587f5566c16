use franchise_dao::dao::FranchiseDao;
use franchise_dao::math::ONE;
use franchise_dao::proposal::{Action, ProposalType, TransferProposal};
use franchise_dao::types::{Address, GovError, Payment, ProposalStatus, ProposalTypeEnum, State, TokenId};

const OWNER: Address = Address(1);
const VOTER: Address = Address(7);
const GOV: TokenId = TokenId(100);
const OTHER: TokenId = TokenId(200);

fn active_dao(quorum: u128, period: u64) -> FranchiseDao {
    let mut dao = FranchiseDao::new(OWNER, GOV);
    dao.set_quorum(OWNER, quorum).unwrap();
    dao.set_voting_period(OWNER, period).unwrap();
    dao.set_state_active(OWNER).unwrap();
    dao
}

fn pay(token: TokenId, amount: u128) -> Payment {
    Payment { token, nonce: 0, amount }
}

fn empty_transfer() -> TransferProposal {
    TransferProposal { actions: Vec::new() }
}

fn one_call(amount: u128) -> TransferProposal {
    TransferProposal {
        actions: vec![Action {
            gas_limit: 5_000_000,
            dest_address: Address(42),
            payment_token: OTHER,
            payment_amount: amount,
            endpoint_name: b"claim".to_vec(),
            arguments: vec![vec![1, 2], vec![3]],
        }],
    }
}

#[test]
fn new_dao_starts_inactive_with_owner_and_governance_token() {
    let dao = FranchiseDao::new(OWNER, GOV);
    assert_eq!(dao.state, State::Inactive);
    assert!(dao.is_board_member(OWNER));
    assert!(!dao.is_board_member(VOTER));
    assert_eq!(dao.voting_tokens.get(GOV), Some(ONE));
    assert_eq!(dao.board_quorum, 1);
}

#[test]
fn activation_needs_quorum_period_and_assets() {
    let mut dao = FranchiseDao::new(OWNER, GOV);
    assert_eq!(dao.set_state_active(VOTER), Err(GovError::Unauthorized));
    assert_eq!(dao.set_state_active(OWNER), Err(GovError::QuorumNotSet));
    dao.set_quorum(OWNER, 2).unwrap();
    assert_eq!(dao.set_state_active(OWNER), Err(GovError::VotingPeriodNotSet));
    dao.set_voting_period(OWNER, 100).unwrap();
    assert_eq!(dao.set_state_active(OWNER), Ok(()));
    assert_eq!(dao.state, State::Active);
    assert_eq!(dao.set_state_inactive(VOTER), Err(GovError::Unauthorized));
    assert_eq!(dao.set_state_inactive(OWNER), Ok(()));
    assert_eq!(dao.state, State::Inactive);
}

#[test]
fn setters_are_board_only() {
    let mut dao = FranchiseDao::new(OWNER, GOV);
    assert_eq!(dao.set_quorum(VOTER, 5), Err(GovError::Unauthorized));
    assert_eq!(dao.set_voting_period(VOTER, 5), Err(GovError::Unauthorized));
    assert_eq!(dao.set_tax_amount(VOTER, 5), Err(GovError::Unauthorized));
    assert_eq!(dao.set_tax_amount(OWNER, 5), Ok(()));
    assert_eq!(dao.tax_amount, 5);
}

#[test]
fn proposing_needs_active_state_and_board_member() {
    let mut dao = FranchiseDao::new(OWNER, GOV);
    assert_eq!(
        dao.propose_new_transfer(OWNER, 0, b"t".to_vec(), b"d".to_vec(), empty_transfer()),
        Err(GovError::NotActive)
    );
    let mut dao = active_dao(2, 100);
    assert_eq!(
        dao.propose_new_transfer(VOTER, 0, b"t".to_vec(), b"d".to_vec(), empty_transfer()),
        Err(GovError::Unauthorized)
    );
    assert_eq!(dao.propose_new_transfer(OWNER, 0, b"t".to_vec(), b"d".to_vec(), empty_transfer()), Ok(0));
    assert_eq!(dao.propose_new_transfer(OWNER, 3, b"u".to_vec(), b"e".to_vec(), empty_transfer()), Ok(1));
    let p = &dao.proposals[1];
    assert_eq!(p.id, 1);
    assert_eq!(p.creation_timestamp, 3);
    assert_eq!(p.proposer, OWNER);
    assert_eq!(p.title, b"u".to_vec());
    assert_eq!(p.proposal_type, ProposalTypeEnum::NewTransfer);
    assert!(!p.was_executed);
}

#[test]
fn scenario_quorum_two_period_hundred() {
    let mut dao = active_dao(2, 100);
    let id = dao.propose_new_transfer(OWNER, 0, b"t".to_vec(), b"d".to_vec(), empty_transfer()).unwrap();
    assert_eq!(dao.upvote(VOTER, id, pay(GOV, 100), 0), Ok(()));
    assert_eq!(dao.get_proposal_status_view(id, 50), Ok(ProposalStatus::Active));
    assert_eq!(dao.proposals[id as usize].num_upvotes, 10);
    assert_eq!(dao.proposals[id as usize].num_downvotes, 0);
    assert_eq!(dao.get_proposal_status_view(id, 150), Ok(ProposalStatus::Succeeded));
}

#[test]
fn status_boundaries() {
    let mut dao = active_dao(5, 100);
    let id = dao.propose_new_transfer(OWNER, 10, b"t".to_vec(), b"d".to_vec(), empty_transfer()).unwrap();
    assert_eq!(dao.get_proposal_status_view(id, 9), Ok(ProposalStatus::Pending));
    assert_eq!(dao.get_proposal_status_view(id, 10), Ok(ProposalStatus::Active));
    assert_eq!(dao.get_proposal_status_view(id, 109), Ok(ProposalStatus::Active));
    assert_eq!(dao.get_proposal_status_view(id, 110), Ok(ProposalStatus::Defeated));
    assert_eq!(dao.get_proposal_status_view(id + 1, 110), Err(GovError::NotFound));
}

#[test]
fn status_is_deterministic() {
    let mut dao = active_dao(2, 100);
    let id = dao.propose_new_transfer(OWNER, 0, b"t".to_vec(), b"d".to_vec(), empty_transfer()).unwrap();
    dao.upvote(VOTER, id, pay(GOV, 16), 1).unwrap();
    for now in [0u64, 50, 99, 100, 1000] {
        let a = dao.get_proposal_status_view(id, now);
        let b = dao.get_proposal_status_view(id, now);
        assert_eq!(a, b);
        assert_eq!(dao.get_proposal_status(&dao.proposals[0], now), a.unwrap());
    }
}

#[test]
fn tie_and_margin_below_quorum_are_defeated() {
    let mut dao = active_dao(3, 100);
    let id = dao.propose_new_transfer(OWNER, 0, b"t".to_vec(), b"d".to_vec(), empty_transfer()).unwrap();
    dao.upvote(VOTER, id, pay(GOV, 25), 1).unwrap();
    dao.downvote(Address(8), id, pay(GOV, 25), 1).unwrap();
    assert_eq!(dao.get_proposal_status_view(id, 100), Ok(ProposalStatus::Defeated));
    dao.set_voting_period(OWNER, 200).unwrap();
    dao.upvote(VOTER, id, pay(GOV, 4), 150).unwrap();
    // 5 + 2 up against 5 down: a margin of 2, below the quorum of 3.
    assert_eq!(dao.get_proposal_status_view(id, 200), Ok(ProposalStatus::Defeated));
    dao.set_quorum(OWNER, 2).unwrap();
    assert_eq!(dao.get_proposal_status_view(id, 200), Ok(ProposalStatus::Succeeded));
}

#[test]
fn vote_errors() {
    let mut dao = FranchiseDao::new(OWNER, GOV);
    assert_eq!(dao.upvote(VOTER, 0, pay(GOV, 1), 0), Err(GovError::NotActive));
    let mut dao = active_dao(2, 100);
    assert_eq!(dao.upvote(VOTER, 0, pay(GOV, 1), 0), Err(GovError::NotFound));
    let id = dao.propose_new_transfer(OWNER, 10, b"t".to_vec(), b"d".to_vec(), empty_transfer()).unwrap();
    assert_eq!(dao.upvote(VOTER, id, pay(GOV, 1), 5), Err(GovError::NotInVotingWindow));
    assert_eq!(dao.upvote(VOTER, id, pay(GOV, 1), 110), Err(GovError::NotInVotingWindow));
    assert_eq!(dao.upvote(VOTER, id, pay(OTHER, 1), 20), Err(GovError::InvalidPayment));
    assert_eq!(dao.downvote(VOTER, id, pay(GOV, 0), 20), Err(GovError::InvalidPayment));
    assert!(dao.get_voter_amount(VOTER, id).is_empty());
    assert!(dao.get_proposal_voters(id).is_empty());
}

#[test]
fn vote_weight_overflow_is_rejected() {
    let mut dao = active_dao(2, 100);
    dao.propose_add_voting_token(OWNER, OTHER, u128::MAX).unwrap();
    dao.perform_action_endpoint(OWNER, 1).unwrap();
    let id = dao.propose_new_transfer(OWNER, 0, b"t".to_vec(), b"d".to_vec(), empty_transfer()).unwrap();
    assert_eq!(dao.upvote(VOTER, id, pay(OTHER, u128::MAX), 1), Err(GovError::Overflow));
    assert_eq!(dao.proposals[0].num_upvotes, 0);
}

#[test]
fn weighted_asset_votes_use_square_root_of_weight() {
    let mut dao = active_dao(2, 100);
    // Weight of half a token per token: 50 units weigh 25, whose root is 5.
    dao.propose_add_voting_token(OWNER, OTHER, ONE / 2).unwrap();
    dao.perform_action_endpoint(OWNER, 1).unwrap();
    let id = dao.propose_new_transfer(OWNER, 0, b"t".to_vec(), b"d".to_vec(), empty_transfer()).unwrap();
    dao.downvote(VOTER, id, pay(OTHER, 50), 1).unwrap();
    assert_eq!(dao.proposals[0].num_downvotes, 5);
    // 99 units of weight ONE: floor of the root of 99 is 9.
    dao.upvote(VOTER, id, pay(GOV, 99), 1).unwrap();
    assert_eq!(dao.proposals[0].num_upvotes, 9);
}

#[test]
fn escrow_merges_same_asset_and_appends_others() {
    let mut dao = active_dao(2, 100);
    dao.propose_add_voting_token(OWNER, OTHER, ONE).unwrap();
    dao.perform_action_endpoint(OWNER, 1).unwrap();
    let id = dao.propose_new_transfer(OWNER, 0, b"t".to_vec(), b"d".to_vec(), empty_transfer()).unwrap();
    dao.upvote(VOTER, id, pay(GOV, 4), 1).unwrap();
    dao.downvote(VOTER, id, pay(OTHER, 9), 2).unwrap();
    dao.upvote(VOTER, id, pay(GOV, 5), 3).unwrap();
    assert_eq!(dao.get_voter_amount(VOTER, id), vec![pay(GOV, 9), pay(OTHER, 9)]);
    assert_eq!(dao.get_proposal_voters(id), vec![VOTER]);
    assert_eq!(dao.get_voter_proposals(VOTER), vec![id]);
    assert!(dao.get_voter_proposals(OWNER).is_empty());
    assert_eq!(dao.proposals[0].num_upvotes, 2 + 2);
    assert_eq!(dao.proposals[0].num_downvotes, 3);
}

#[test]
fn redeem_returns_escrow_once() {
    let mut dao = active_dao(2, 100);
    let id = dao.propose_new_transfer(OWNER, 0, b"t".to_vec(), b"d".to_vec(), empty_transfer()).unwrap();
    dao.upvote(VOTER, id, pay(GOV, 100), 0).unwrap();
    assert_eq!(dao.redeem(VOTER, id, 50), Err(GovError::VotingNotConcluded));
    assert_eq!(dao.redeem(VOTER, id + 1, 150), Err(GovError::NotFound));
    assert_eq!(dao.redeem(VOTER, id, 150), Ok(vec![pay(GOV, 100)]));
    assert_eq!(dao.redeem(VOTER, id, 150), Err(GovError::NothingToRedeem));
    assert!(dao.get_proposal_voters(id).is_empty());
    assert!(dao.get_voter_proposals(VOTER).is_empty());
    assert_eq!(dao.redeem(Address(9), id, 150), Err(GovError::NothingToRedeem));
}

#[test]
fn execute_dispatches_and_is_final() {
    let mut dao = active_dao(2, 100);
    let id = dao.propose_new_transfer(OWNER, 0, b"t".to_vec(), b"d".to_vec(), one_call(7)).unwrap();
    assert_eq!(dao.execute(id, 50).err(), Some(GovError::ProposalNotSucceeded));
    dao.upvote(VOTER, id, pay(GOV, 100), 0).unwrap();
    assert_eq!(dao.execute(id + 1, 150).err(), Some(GovError::NotFound));
    let calls = dao.execute(id, 150).unwrap();
    assert_eq!(calls.len(), 1);
    assert_eq!(calls[0].dest_address, Address(42));
    assert_eq!(calls[0].endpoint_name, b"claim".to_vec());
    assert_eq!(calls[0].arguments, vec![vec![1u8, 2], vec![3u8]]);
    assert_eq!(calls[0].gas_limit, 5_000_000);
    assert_eq!(calls[0].payment, Some(Payment { token: OTHER, nonce: 0, amount: 7 }));
    assert!(dao.proposals[0].was_executed);
    for now in [0u64, 10, 150, 10_000] {
        assert_eq!(dao.get_proposal_status_view(id, now), Ok(ProposalStatus::Executed));
    }
    assert_eq!(dao.execute(id, 150).err(), Some(GovError::ProposalNotSucceeded));
    // Deposits can still be redeemed from an executed proposal.
    assert_eq!(dao.redeem(VOTER, id, 150), Ok(vec![pay(GOV, 100)]));
}

#[test]
fn execute_without_payment_attaches_none() {
    let mut dao = active_dao(1, 10);
    let id = dao.propose_new_transfer(OWNER, 0, b"t".to_vec(), b"d".to_vec(), one_call(0)).unwrap();
    dao.upvote(VOTER, id, pay(GOV, 1), 0).unwrap();
    let calls = dao.execute(id, 10).unwrap();
    assert_eq!(calls[0].payment, None);
}

#[test]
fn execute_needs_active_state() {
    let mut dao = active_dao(1, 10);
    let id = dao.propose_new_transfer(OWNER, 0, b"t".to_vec(), b"d".to_vec(), empty_transfer()).unwrap();
    dao.upvote(VOTER, id, pay(GOV, 1), 0).unwrap();
    dao.set_state_inactive(OWNER).unwrap();
    assert_eq!(dao.execute(id, 10).err(), Some(GovError::NotActive));
    dao.set_state_active(OWNER).unwrap();
    assert_eq!(dao.execute(id, 10).map(|c| c.len()), Ok(0));
}

#[test]
fn listing_and_counting_proposals() {
    let mut dao = active_dao(1, 10);
    for t in 0..4u64 {
        dao.propose_new_transfer(OWNER, t * 100, format!("p{}", t).into_bytes(), Vec::new(), empty_transfer())
            .unwrap();
    }
    assert_eq!(dao.get_proposals_count(None, 250), 4);
    assert_eq!(dao.get_proposals_count(Some(ProposalStatus::Defeated), 250), 3);
    assert_eq!(dao.get_proposals_count(Some(ProposalStatus::Pending), 250), 1);
    assert_eq!(dao.get_proposals_count(Some(ProposalStatus::Active), 205), 1);
    let listed = dao.get_proposals(1, 2, ProposalTypeEnum::NewTransfer, 205);
    assert_eq!(listed.len(), 2);
    assert_eq!(listed[0].id, 1);
    assert_eq!(listed[0].status, ProposalStatus::Defeated);
    assert_eq!(listed[1].id, 2);
    assert_eq!(listed[1].title, b"p2".to_vec());
    assert_eq!(listed[1].status, ProposalStatus::Active);
    assert!(matches!(listed[1].proposal_data, ProposalType::NewTransfer(_)));
    assert_eq!(dao.get_proposals(3, 10, ProposalTypeEnum::NewTransfer, 250).len(), 1);
    assert_eq!(dao.get_proposals(2, 1, ProposalTypeEnum::NewTransfer, 250).len(), 0);
    assert_eq!(dao.get_proposals(0, 10, ProposalTypeEnum::Nothing, 250).len(), 0);
}

#[test]
fn contract_info_summarises_configuration() {
    let dao = active_dao(3, 20);
    let info = dao.get_contract_info(0);
    assert_eq!(info.state, State::Active);
    assert_eq!(info.governance_token, GOV);
    assert_eq!(info.voting_tokens, vec![GOV]);
    assert_eq!(info.voting_token_weights, vec![ONE]);
    assert_eq!(info.voting_period, 20);
    assert_eq!(info.quorum, 3);
    assert_eq!(info.board_quorum, 1);
    assert_eq!(info.board_members, vec![OWNER]);
    assert_eq!(info.last_proposal_id, 0);
    assert_eq!(info.proposals_count, 0);
}

#[test]
fn error_messages() {
    assert_eq!(GovError::NothingToRedeem.message(), "nothing to redeem");
    assert_eq!(GovError::NotActive.message(), "contract is not active");
}
