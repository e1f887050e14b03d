use wct_ledger::address::Address;
use wct_ledger::governance::{
    cancel_proposal, cast_vote, create_proposal, execute_proposal, initialize, quorum_threshold,
    update_governance, Governance, GovernanceError, Proposal, ProposalStatus, ProposalType, Vote,
};
use wct_ledger::registry::{register_voting_power, VotingPowerRegistry};

const T0: i64 = 1_700_000_000;
const PERIOD: i64 = 1_000;
const DELAY: i64 = 100;

fn addr(n: u128) -> Address {
    Address::new(0, n)
}

fn authority() -> Address {
    addr(1)
}

fn proposer() -> Address {
    addr(2)
}

fn setup(quorum: u8) -> (Governance, VotingPowerRegistry) {
    initialize(authority(), addr(100), addr(101), 50, PERIOD, DELAY, quorum).unwrap()
}

fn open_proposal(g: &mut Governance) -> Proposal {
    create_proposal(
        g,
        proposer(),
        50,
        "Fund the grants round".to_string(),
        "Move funds to the grants wallet".to_string(),
        ProposalType::TreasuryWithdrawal,
        vec![1, 2, 3],
        T0,
    )
    .unwrap()
}

fn tallies(p: &Proposal) -> (u64, u64) {
    (p.yes_votes, p.no_votes)
}

fn counted(p: &Proposal) -> u64 {
    p.votes
        .iter()
        .filter(|b| b.vote != Vote::Abstain)
        .map(|b| b.voting_power)
        .sum()
}

#[test]
fn initialize_validates_parameters() {
    assert_eq!(
        initialize(authority(), addr(100), addr(101), 0, PERIOD, DELAY, 0).err(),
        Some(GovernanceError::InvalidQuorumPercentage)
    );
    assert_eq!(
        initialize(authority(), addr(100), addr(101), 0, PERIOD, DELAY, 101).err(),
        Some(GovernanceError::InvalidQuorumPercentage)
    );
    assert_eq!(
        initialize(authority(), addr(100), addr(101), 0, 0, DELAY, 20).err(),
        Some(GovernanceError::InvalidVotingPeriod)
    );
    assert_eq!(
        initialize(authority(), addr(100), addr(101), 0, PERIOD, -1, 20).err(),
        Some(GovernanceError::InvalidExecutionDelay)
    );
    let (g, r) = setup(100);
    assert_eq!(g.quorum_percentage, 100);
    assert_eq!(g.proposal_count, 0);
    assert_eq!(r.total_voting_power, 0);
}

#[test]
fn proposals_are_numbered_in_order() {
    let (mut g, _) = setup(20);
    let first = open_proposal(&mut g);
    let second = open_proposal(&mut g);
    assert_eq!(first.proposal_id, 1);
    assert_eq!(second.proposal_id, 2);
    assert_eq!(g.proposal_count, 2);
    assert_eq!(first.created_at, T0);
    assert_eq!(first.voting_ends_at, T0 + PERIOD);
    assert_eq!(first.status, ProposalStatus::Active);
    assert_eq!(first.title, "Fund the grants round");
    assert_eq!(first.execution_payload, vec![1, 2, 3]);
    assert_eq!(tallies(&first), (0, 0));
}

#[test]
fn proposal_needs_min_tokens() {
    let (mut g, _) = setup(20);
    let before = g;
    let r = create_proposal(
        &mut g,
        proposer(),
        49,
        String::new(),
        String::new(),
        ProposalType::Other,
        Vec::new(),
        T0,
    );
    assert_eq!(r.err(), Some(GovernanceError::InsufficientTokens));
    assert_eq!(g, before);
}

#[test]
fn vote_adds_registered_power() {
    let (mut g, mut r) = setup(20);
    register_voting_power(&mut r, addr(10), 7).unwrap();
    register_voting_power(&mut r, addr(11), 5).unwrap();
    register_voting_power(&mut r, addr(12), 9).unwrap();
    let mut p = open_proposal(&mut g);
    cast_vote(&mut p, &r, addr(10), Vote::Yes, T0 + 1).unwrap();
    cast_vote(&mut p, &r, addr(11), Vote::No, T0 + 1).unwrap();
    cast_vote(&mut p, &r, addr(12), Vote::Abstain, T0 + 1).unwrap();
    assert_eq!(tallies(&p), (7, 5));
    assert_eq!(p.votes.len(), 3);
    assert_eq!(p.yes_votes + p.no_votes, counted(&p));
}

#[test]
fn revote_moves_power_between_tallies() {
    let (mut g, mut r) = setup(20);
    register_voting_power(&mut r, addr(10), 10).unwrap();
    let mut p = open_proposal(&mut g);
    cast_vote(&mut p, &r, addr(10), Vote::Yes, T0 + 1).unwrap();
    assert_eq!(tallies(&p), (10, 0));
    cast_vote(&mut p, &r, addr(10), Vote::No, T0 + 2).unwrap();
    assert_eq!(tallies(&p), (0, 10));
    assert_eq!(p.votes.len(), 1);
    assert_eq!(p.votes[0].vote, Vote::No);
    assert_eq!(p.yes_votes + p.no_votes, counted(&p));
}

#[test]
fn revote_rereads_current_power() {
    let (mut g, mut r) = setup(20);
    register_voting_power(&mut r, addr(10), 10).unwrap();
    let mut p = open_proposal(&mut g);
    cast_vote(&mut p, &r, addr(10), Vote::Yes, T0 + 1).unwrap();
    register_voting_power(&mut r, addr(10), 25).unwrap();
    cast_vote(&mut p, &r, addr(10), Vote::Yes, T0 + 2).unwrap();
    assert_eq!(tallies(&p), (25, 0));
    cast_vote(&mut p, &r, addr(10), Vote::Abstain, T0 + 3).unwrap();
    assert_eq!(tallies(&p), (0, 0));
    assert_eq!(p.votes.len(), 1);
    cast_vote(&mut p, &r, addr(10), Vote::No, T0 + 4).unwrap();
    assert_eq!(tallies(&p), (0, 25));
}

#[test]
fn vote_preconditions_are_checked() {
    let (mut g, mut r) = setup(20);
    register_voting_power(&mut r, addr(10), 10).unwrap();
    let mut p = open_proposal(&mut g);
    assert_eq!(
        cast_vote(&mut p, &r, addr(10), Vote::Yes, T0 + PERIOD),
        Err(GovernanceError::VotingClosed)
    );
    assert_eq!(
        cast_vote(&mut p, &r, addr(11), Vote::Yes, T0 + 1),
        Err(GovernanceError::NoVotingPower)
    );
    let mut cancelled = p.clone();
    cancel_proposal(&g, &mut cancelled, proposer()).unwrap();
    assert_eq!(
        cast_vote(&mut cancelled, &r, addr(10), Vote::Yes, T0 + 1),
        Err(GovernanceError::ProposalCancelled)
    );
    let mut executed = p.clone();
    executed.status = ProposalStatus::Executed;
    assert_eq!(
        cast_vote(&mut executed, &r, addr(10), Vote::Yes, T0 + 1),
        Err(GovernanceError::ProposalAlreadyExecuted)
    );
    assert_eq!(tallies(&p), (0, 0));
    assert!(p.votes.is_empty());
}

#[test]
fn tally_overflow_is_rejected() {
    let (mut g, mut r) = setup(20);
    register_voting_power(&mut r, addr(10), u64::MAX).unwrap();
    let mut p = open_proposal(&mut g);
    cast_vote(&mut p, &r, addr(10), Vote::Yes, T0 + 1).unwrap();
    let mut other = VotingPowerRegistry::new();
    register_voting_power(&mut other, addr(11), 1).unwrap();
    assert_eq!(
        cast_vote(&mut p, &other, addr(11), Vote::Yes, T0 + 1),
        Err(GovernanceError::ArithmeticOverflow)
    );
    assert_eq!(tallies(&p), (u64::MAX, 0));
    assert_eq!(p.votes.len(), 1);
}

fn passed_proposal(total: u64, quorum: u8, yes: u64, no: u64) -> (Governance, VotingPowerRegistry, Proposal) {
    let (mut g, mut r) = setup(quorum);
    register_voting_power(&mut r, addr(10), yes).unwrap();
    register_voting_power(&mut r, addr(11), no).unwrap();
    register_voting_power(&mut r, addr(12), total - yes - no).unwrap();
    let mut p = open_proposal(&mut g);
    cast_vote(&mut p, &r, addr(10), Vote::Yes, T0 + 1).unwrap();
    if no > 0 {
        cast_vote(&mut p, &r, addr(11), Vote::No, T0 + 1).unwrap();
    }
    (g, r, p)
}

#[test]
fn quorum_and_majority_pass() {
    let (g, r, mut p) = passed_proposal(1000, 20, 150, 60);
    assert_eq!(r.total_voting_power, 1000);
    assert_eq!(quorum_threshold(1000, 20), 200);
    assert_eq!(
        execute_proposal(&g, &mut p, &r, T0 + PERIOD + DELAY - 1),
        Err(GovernanceError::ExecutionDelayNotPassed)
    );
    assert_eq!(p.status, ProposalStatus::Active);
    execute_proposal(&g, &mut p, &r, T0 + PERIOD + DELAY).unwrap();
    assert_eq!(p.status, ProposalStatus::Executed);
    assert_eq!(
        execute_proposal(&g, &mut p, &r, T0 + PERIOD + DELAY + 1),
        Err(GovernanceError::ProposalAlreadyExecuted)
    );
}

#[test]
fn execute_before_voting_ends_is_rejected() {
    let (g, r, mut p) = passed_proposal(1000, 20, 150, 60);
    assert_eq!(
        execute_proposal(&g, &mut p, &r, T0 + PERIOD - 1),
        Err(GovernanceError::VotingStillOpen)
    );
    assert_eq!(p.status, ProposalStatus::Active);
}

#[test]
fn quorum_not_reached_is_rejected() {
    let (g, r, mut p) = passed_proposal(1000, 20, 150, 49);
    assert_eq!(
        execute_proposal(&g, &mut p, &r, T0 + PERIOD + DELAY),
        Err(GovernanceError::QuorumNotReached)
    );
    assert_eq!(p.status, ProposalStatus::Active);
}

#[test]
fn tie_is_not_passed() {
    let (g, r, mut p) = passed_proposal(1000, 20, 100, 100);
    assert_eq!(
        execute_proposal(&g, &mut p, &r, T0 + PERIOD + DELAY),
        Err(GovernanceError::ProposalNotPassed)
    );
}

#[test]
fn full_quorum_needs_every_vote() {
    assert_eq!(quorum_threshold(1000, 100), 1000);
    let (g, r, mut p) = passed_proposal(1000, 100, 600, 399);
    assert_eq!(
        execute_proposal(&g, &mut p, &r, T0 + PERIOD + DELAY),
        Err(GovernanceError::QuorumNotReached)
    );
    let (g, r, mut p) = passed_proposal(1000, 100, 600, 400);
    execute_proposal(&g, &mut p, &r, T0 + PERIOD + DELAY).unwrap();
    assert_eq!(p.status, ProposalStatus::Executed);
}

#[test]
fn quorum_threshold_truncates() {
    assert_eq!(quorum_threshold(999, 20), 199);
    assert_eq!(quorum_threshold(0, 100), 0);
    assert_eq!(quorum_threshold(u64::MAX, 100), u64::MAX as u128);
    assert_eq!(quorum_threshold(u64::MAX, 255), (u64::MAX as u128) * 255 / 100);
}

#[test]
fn third_party_cannot_cancel() {
    let (mut g, _) = setup(20);
    let mut p = open_proposal(&mut g);
    let before = p.clone();
    assert_eq!(
        cancel_proposal(&g, &mut p, addr(77)),
        Err(GovernanceError::UnauthorizedCancellation)
    );
    assert_eq!(p.status, before.status);
    assert_eq!(tallies(&p), tallies(&before));
    assert_eq!(p.proposal_id, before.proposal_id);
}

#[test]
fn proposer_or_authority_can_cancel() {
    let (mut g, _) = setup(20);
    let mut p = open_proposal(&mut g);
    let mut q = p.clone();
    cancel_proposal(&g, &mut p, proposer()).unwrap();
    assert_eq!(p.status, ProposalStatus::Cancelled);
    cancel_proposal(&g, &mut q, authority()).unwrap();
    assert_eq!(q.status, ProposalStatus::Cancelled);
    assert_eq!(
        cancel_proposal(&g, &mut p, proposer()),
        Err(GovernanceError::ProposalCancelled)
    );
}

#[test]
fn executed_proposal_cannot_be_cancelled() {
    let (g, r, mut p) = passed_proposal(1000, 20, 150, 60);
    execute_proposal(&g, &mut p, &r, T0 + PERIOD + DELAY).unwrap();
    assert_eq!(
        cancel_proposal(&g, &mut p, authority()),
        Err(GovernanceError::ProposalAlreadyExecuted)
    );
    assert_eq!(p.status, ProposalStatus::Executed);
}

#[test]
fn cancelled_proposal_cannot_be_executed() {
    let (g, r, mut p) = passed_proposal(1000, 20, 150, 60);
    cancel_proposal(&g, &mut p, authority()).unwrap();
    assert_eq!(
        execute_proposal(&g, &mut p, &r, T0 + PERIOD + DELAY),
        Err(GovernanceError::ProposalCancelled)
    );
}

#[test]
fn update_governance_applies_given_fields() {
    let (mut g, _) = setup(20);
    let before = g;
    assert_eq!(
        update_governance(&mut g, addr(77), Some(1), None, None, None),
        Err(GovernanceError::Unauthorized)
    );
    assert_eq!(
        update_governance(&mut g, authority(), Some(1), Some(0), None, None),
        Err(GovernanceError::InvalidVotingPeriod)
    );
    assert_eq!(
        update_governance(&mut g, authority(), None, None, Some(-5), None),
        Err(GovernanceError::InvalidExecutionDelay)
    );
    assert_eq!(
        update_governance(&mut g, authority(), None, None, None, Some(0)),
        Err(GovernanceError::InvalidQuorumPercentage)
    );
    assert_eq!(g, before);
    update_governance(&mut g, authority(), Some(1), None, Some(0), Some(100)).unwrap();
    assert_eq!(g.min_proposal_tokens, 1);
    assert_eq!(g.voting_period, PERIOD);
    assert_eq!(g.execution_delay, 0);
    assert_eq!(g.quorum_percentage, 100);
}

#[test]
fn proposal_consistency_check() {
    let (mut g, mut r) = setup(20);
    register_voting_power(&mut r, addr(10), 10).unwrap();
    register_voting_power(&mut r, addr(11), 4).unwrap();
    let mut p = open_proposal(&mut g);
    assert!(p.is_well_formed());
    cast_vote(&mut p, &r, addr(10), Vote::Yes, T0 + 1).unwrap();
    cast_vote(&mut p, &r, addr(11), Vote::Abstain, T0 + 1).unwrap();
    assert!(p.is_well_formed());
    let mut skewed = p.clone();
    skewed.no_votes = 1;
    assert!(!skewed.is_well_formed());
    let mut doubled = p.clone();
    doubled.votes.push(doubled.votes[0]);
    doubled.yes_votes = 20;
    assert!(!doubled.is_well_formed());
}
