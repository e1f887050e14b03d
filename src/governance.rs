use vstd::prelude::*;

use crate::address::Address;
use crate::registry::{power_of, VotingPowerRegistry};

verus! {

/// Why a governance operation was rejected. A rejected operation changes nothing.
#[derive(Clone, Copy, Debug, PartialEq, Eq, Structural)]
pub enum GovernanceError {
    InvalidQuorumPercentage,
    InvalidVotingPeriod,
    InvalidExecutionDelay,
    InsufficientTokens,
    VotingClosed,
    VotingStillOpen,
    ProposalAlreadyExecuted,
    ProposalCancelled,
    ExecutionDelayNotPassed,
    QuorumNotReached,
    ProposalNotPassed,
    NoVotingPower,
    UnauthorizedCancellation,
    Unauthorized,
    ArithmeticOverflow,
}

/// What a proposal does once executed; the effect itself is dispatched outside the ledger.
#[derive(Clone, Copy, Debug, PartialEq, Eq, Structural)]
pub enum ProposalType {
    TreasuryWithdrawal,
    ParameterChange,
    Other,
}

/// A voter's choice on a proposal.
#[derive(Clone, Copy, Debug, PartialEq, Eq, Structural)]
pub enum Vote {
    Yes,
    No,
    Abstain,
}

/// The latch of a proposal: it leaves `Active` once, for one of the two terminal states.
#[derive(Clone, Copy, Debug, PartialEq, Eq, Structural)]
pub enum ProposalStatus {
    Active,
    Executed,
    Cancelled,
}

/// The per-token governance configuration.
#[derive(Clone, Copy, Debug, PartialEq, Eq, Structural)]
pub struct Governance {
    pub authority: Address,
    pub token_mint: Address,
    pub treasury: Address,
    pub min_proposal_tokens: u64,
    pub voting_period: i64,
    pub execution_delay: i64,
    pub quorum_percentage: u8,
    pub proposal_count: u64,
}

impl Governance {
    /// The parameter ranges that creation and updates enforce.
    pub open spec fn wf(&self) -> bool {
        &&& 1 <= self.quorum_percentage <= 100
        &&& self.voting_period > 0
        &&& self.execution_delay >= 0
    }
}

/// One voter's ballot on a proposal: the choice and the power it was cast with.
#[derive(Clone, Copy, Debug, PartialEq, Eq, Structural)]
pub struct VoterVote {
    pub voter: Address,
    pub vote: Vote,
    pub voting_power: u64,
}

/// A proposal with its tallies and the ballots cast on it, one per voter.
#[derive(Clone, Debug)]
pub struct Proposal {
    pub proposer: Address,
    pub proposal_id: u64,
    pub title: String,
    pub description: String,
    pub proposal_type: ProposalType,
    pub execution_payload: Vec<u8>,
    pub created_at: i64,
    pub voting_ends_at: i64,
    pub yes_votes: u64,
    pub no_votes: u64,
    pub status: ProposalStatus,
    pub votes: Vec<VoterVote>,
}

/// What a ballot adds to the tally of choice `k`.
pub open spec fn weight(b: VoterVote, k: Vote) -> nat {
    if b.vote == k {
        b.voting_power as nat
    } else {
        0
    }
}

/// The sum of the ballots cast for choice `k`.
pub open spec fn tally(s: Seq<VoterVote>, k: Vote) -> nat
    decreases s.len(),
{
    if s.len() == 0 {
        0
    } else {
        tally(s.drop_last(), k) + weight(s.last(), k)
    }
}

/// The power of all ballots that are not abstentions.
pub open spec fn counted_power(s: Seq<VoterVote>) -> nat
    decreases s.len(),
{
    if s.len() == 0 {
        0
    } else if s.last().vote == Vote::Abstain {
        counted_power(s.drop_last())
    } else {
        counted_power(s.drop_last()) + s.last().voting_power as nat
    }
}

/// No voter has two ballots.
pub open spec fn ballots_unique(s: Seq<VoterVote>) -> bool {
    forall|i: int, j: int| 0 <= i < j < s.len() ==> s[i].voter != s[j].voter
}

/// The ballot of voter `v`, if it voted.
pub open spec fn ballot_of(s: Seq<VoterVote>, v: Address) -> Option<VoterVote>
    decreases s.len(),
{
    if s.len() == 0 {
        None
    } else if s.last().voter == v {
        Some(s.last())
    } else {
        ballot_of(s.drop_last(), v)
    }
}

/// What voter `v`'s current ballot adds to the tally of choice `k`.
pub open spec fn prior_weight(s: Seq<VoterVote>, v: Address, k: Vote) -> nat {
    match ballot_of(s, v) {
        Some(b) => weight(b, k),
        None => 0,
    }
}

impl Proposal {
    /// Ballots are unique per voter and each tally is the sum of the ballots for it.
    pub open spec fn wf(&self) -> bool {
        &&& ballots_unique(self.votes@)
        &&& self.yes_votes == tally(self.votes@, Vote::Yes)
        &&& self.no_votes == tally(self.votes@, Vote::No)
    }
}

impl Proposal {
    /// Whether a proposal loaded from storage satisfies `wf`: one ballot per voter,
    /// and tallies equal to the sums of the ballots.
    pub fn is_well_formed(&self) -> (r: bool)
        ensures
            r == self.wf(),
    {
        let ghost s = self.votes@;
        let n = self.votes.len();
        let mut i: usize = 0;
        let mut yes: u128 = 0;
        let mut no: u128 = 0;
        while i < n
            invariant
                n == s.len(),
                s == self.votes@,
                i <= n,
                ballots_unique(s.take(i as int)),
                yes == tally(s.take(i as int), Vote::Yes),
                no == tally(s.take(i as int), Vote::No),
                yes <= i * 0xffff_ffff_ffff_ffffu128,
                no <= i * 0xffff_ffff_ffff_ffffu128,
            decreases n - i,
        {
            let v = self.votes[i].voter;
            let mut j: usize = 0;
            while j < i
                invariant
                    n == s.len(),
                    s == self.votes@,
                    i < n,
                    j <= i,
                    v == s[i as int].voter,
                    forall|k: int| 0 <= k < j ==> s[k].voter != v,
                decreases i - j,
            {
                if self.votes[j].voter == v {
                    proof {
                        assert(s[j as int].voter == s[i as int].voter);
                    }
                    return false;
                }
                j = j + 1;
            }
            proof {
                let t = s.take(i as int + 1);
                assert(t.drop_last() =~= s.take(i as int));
                assert forall|a: int, b: int| 0 <= a < b < t.len() implies t[a].voter != t[b].voter by {
                    if b < i {
                        assert(s.take(i as int)[a] == t[a] && s.take(i as int)[b] == t[b]);
                    }
                }
            }
            let b = self.votes[i];
            yes = yes + weight_of(b, Vote::Yes) as u128;
            no = no + weight_of(b, Vote::No) as u128;
            i = i + 1;
        }
        proof {
            assert(s.take(n as int) =~= s);
        }
        yes == self.yes_votes as u128 && no == self.no_votes as u128
    }
}

/// Everything but the tallies and the ballots is the same in `a` and `b`.
pub open spec fn same_terms(a: Proposal, b: Proposal) -> bool {
    &&& a.proposer == b.proposer
    &&& a.proposal_id == b.proposal_id
    &&& a.title == b.title
    &&& a.description == b.description
    &&& a.proposal_type == b.proposal_type
    &&& a.execution_payload == b.execution_payload
    &&& a.created_at == b.created_at
    &&& a.voting_ends_at == b.voting_ends_at
    &&& a.status == b.status
}

/// The tally of choice `k` once `voter`'s prior ballot is withdrawn and `b` is counted.
pub open spec fn recast_tally(p: Proposal, b: VoterVote, k: Vote) -> int {
    let current = if k == Vote::Yes {
        p.yes_votes
    } else {
        p.no_votes
    };
    current - prior_weight(p.votes@, b.voter, k) + weight(b, k)
}

/// Why casting `vote` with `power` on `p` at time `now` is rejected, if it is.
pub open spec fn vote_rejection(
    p: Proposal,
    voter: Address,
    vote: Vote,
    power: u64,
    now: i64,
) -> Option<GovernanceError> {
    let b = VoterVote { voter, vote, voting_power: power };
    if now >= p.voting_ends_at {
        Some(GovernanceError::VotingClosed)
    } else if p.status == ProposalStatus::Cancelled {
        Some(GovernanceError::ProposalCancelled)
    } else if p.status == ProposalStatus::Executed {
        Some(GovernanceError::ProposalAlreadyExecuted)
    } else if power == 0 {
        Some(GovernanceError::NoVotingPower)
    } else if recast_tally(p, b, Vote::Yes) > u64::MAX || recast_tally(p, b, Vote::No) > u64::MAX {
        Some(GovernanceError::ArithmeticOverflow)
    } else {
        None
    }
}

/// `post` is `pre` after `voter` cast `vote` with `power`: its ballot is replaced (or
/// created), the other ballots are kept, and each tally moved from the prior choice
/// to the new one.
pub open spec fn casts(pre: Proposal, post: Proposal, voter: Address, vote: Vote, power: u64) -> bool {
    let b = VoterVote { voter, vote, voting_power: power };
    &&& post.wf()
    &&& same_terms(pre, post)
    &&& post.yes_votes == recast_tally(pre, b, Vote::Yes)
    &&& post.no_votes == recast_tally(pre, b, Vote::No)
    &&& ballot_of(post.votes@, voter) == Some(b)
    &&& forall|w: Address| w != voter ==> ballot_of(post.votes@, w) == ballot_of(pre.votes@, w)
}

/// What a ballot adds to the tally of choice `k`.
fn weight_of(b: VoterVote, k: Vote) -> (r: u64)
    ensures
        r == weight(b, k),
{
    if b.vote == k {
        b.voting_power
    } else {
        0
    }
}

/// Where `voter`'s ballot stands, if it voted.
fn find_ballot(votes: &Vec<VoterVote>, voter: Address) -> (r: Option<usize>)
    ensures
        match r {
            Some(i) => i < votes@.len() && votes@[i as int].voter == voter,
            None => forall|j: int| 0 <= j < votes@.len() ==> votes@[j].voter != voter,
        },
{
    let n = votes.len();
    let mut i: usize = 0;
    while i < n
        invariant
            n == votes@.len(),
            i <= n,
            forall|j: int| 0 <= j < i ==> votes@[j].voter != voter,
        decreases n - i,
    {
        if votes[i].voter == voter {
            return Some(i);
        }
        i = i + 1;
    }
    None
}

/// Casts or recasts `voter`'s ballot with the power the registry holds for it now.
/// A prior ballot is withdrawn from the tally it counted toward (checked: it cannot
/// underflow while the tallies are the sums of the ballots) before the new one is
/// counted (checked: it fails on overflow). Abstentions touch neither tally.
pub fn cast_vote(
    proposal: &mut Proposal,
    registry: &VotingPowerRegistry,
    voter: Address,
    vote: Vote,
    now: i64,
) -> (r: Result<(), GovernanceError>)
    requires
        old(proposal).wf(),
        registry.wf(),
    ensures
        final(proposal).wf(),
        final(proposal).yes_votes + final(proposal).no_votes == counted_power(
            final(proposal).votes@,
        ),
        match r {
            Ok(()) => vote_rejection(*old(proposal), voter, vote, power_of(registry.voters@, voter), now) is None
                && casts(*old(proposal), *final(proposal), voter, vote, power_of(registry.voters@, voter)),
            Err(e) => vote_rejection(*old(proposal), voter, vote, power_of(registry.voters@, voter), now)
                == Some(e) && *final(proposal) == *old(proposal),
        },
{
    proof {
        lemma_tallies_match_ballots(*proposal);
    }
    if now >= proposal.voting_ends_at {
        return Err(GovernanceError::VotingClosed);
    }
    match proposal.status {
        ProposalStatus::Cancelled => {
            return Err(GovernanceError::ProposalCancelled);
        },
        ProposalStatus::Executed => {
            return Err(GovernanceError::ProposalAlreadyExecuted);
        },
        ProposalStatus::Active => {},
    }
    let power = registry.voter_power(voter);
    if power == 0 {
        return Err(GovernanceError::NoVotingPower);
    }
    let ballot = VoterVote { voter, vote, voting_power: power };
    let ghost s = proposal.votes@;
    let yes_add = weight_of(ballot, Vote::Yes);
    let no_add = weight_of(ballot, Vote::No);
    match find_ballot(&proposal.votes, voter) {
        Some(i) => {
            let prior = proposal.votes[i];
            proof {
                lemma_ballot_at(s, i as int);
                lemma_weight_within_tally(s, i as int, Vote::Yes);
                lemma_weight_within_tally(s, i as int, Vote::No);
            }
            let yes_base = proposal.yes_votes - weight_of(prior, Vote::Yes);
            let no_base = proposal.no_votes - weight_of(prior, Vote::No);
            if yes_base > u64::MAX - yes_add || no_base > u64::MAX - no_add {
                return Err(GovernanceError::ArithmeticOverflow);
            }
            proof {
                lemma_ballot_update(s, i as int, ballot);
                lemma_tally_update(s, i as int, ballot, Vote::Yes);
                lemma_tally_update(s, i as int, ballot, Vote::No);
            }
            proposal.votes.set(i, ballot);
            proposal.yes_votes = yes_base + yes_add;
            proposal.no_votes = no_base + no_add;
        },
        None => {
            proof {
                lemma_ballot_absent(s, voter);
            }
            if proposal.yes_votes > u64::MAX - yes_add || proposal.no_votes > u64::MAX - no_add {
                return Err(GovernanceError::ArithmeticOverflow);
            }
            proof {
                lemma_ballot_push(s, ballot);
            }
            proposal.votes.push(ballot);
            proposal.yes_votes = proposal.yes_votes + yes_add;
            proposal.no_votes = proposal.no_votes + no_add;
        },
    }
    proof {
        lemma_tallies_match_ballots(*proposal);
    }
    Ok(())
}

/// The smallest number of yes-plus-no votes that meets quorum:
/// `floor(total * percentage / 100)`.
pub open spec fn quorum_threshold_of(total: u64, percentage: u8) -> int {
    (total * percentage) / 100
}

/// Quorum counts yes and no votes only; abstentions do not count toward it.
pub open spec fn quorum_reached(yes: u64, no: u64, total: u64, percentage: u8) -> bool {
    yes + no >= quorum_threshold_of(total, percentage)
}

/// `floor(total * percentage / 100)`, computed in 128 bits.
pub fn quorum_threshold(total: u64, percentage: u8) -> (r: u128)
    ensures
        r == quorum_threshold_of(total, percentage),
{
    proof {
        assert(total * percentage <= 0xffff_ffff_ffff_ffffu64 * 255) by (nonlinear_arith)
            requires
                total <= 0xffff_ffff_ffff_ffffu64,
                percentage <= 255,
        ;
    }
    (total as u128) * (percentage as u128) / 100
}

/// With a quorum of one hundred percent, and no more yes-plus-no votes than there is
/// registered power, quorum is met exactly when every unit of power voted yes or no.
pub proof fn lemma_full_quorum(yes: u64, no: u64, total: u64)
    requires
        yes + no <= total,
    ensures
        quorum_reached(yes, no, total, 100) <==> yes + no == total,
{
    assert(total * 100 / 100 == total) by (nonlinear_arith);
}

/// Why a governance configuration with these parameters is refused, if it is.
pub open spec fn parameter_rejection(voting_period: i64, execution_delay: i64, quorum_percentage: u8) -> Option<GovernanceError> {
    if !(1 <= quorum_percentage <= 100) {
        Some(GovernanceError::InvalidQuorumPercentage)
    } else if voting_period <= 0 {
        Some(GovernanceError::InvalidVotingPeriod)
    } else if execution_delay < 0 {
        Some(GovernanceError::InvalidExecutionDelay)
    } else {
        None
    }
}

/// Creates the governance configuration and its empty voting-power registry.
pub fn initialize(
    authority: Address,
    token_mint: Address,
    treasury: Address,
    min_proposal_tokens: u64,
    voting_period: i64,
    execution_delay: i64,
    quorum_percentage: u8,
) -> (r: Result<(Governance, VotingPowerRegistry), GovernanceError>)
    ensures
        match r {
            Ok((g, reg)) => {
                &&& parameter_rejection(voting_period, execution_delay, quorum_percentage) is None
                &&& g == Governance {
                    authority,
                    token_mint,
                    treasury,
                    min_proposal_tokens,
                    voting_period,
                    execution_delay,
                    quorum_percentage,
                    proposal_count: 0,
                }
                &&& g.wf()
                &&& reg.wf()
                &&& reg.voters@.len() == 0
                &&& reg.total_voting_power == 0
            },
            Err(e) => parameter_rejection(voting_period, execution_delay, quorum_percentage) == Some(e),
        },
{
    if !(quorum_percentage > 0 && quorum_percentage <= 100) {
        return Err(GovernanceError::InvalidQuorumPercentage);
    }
    if voting_period <= 0 {
        return Err(GovernanceError::InvalidVotingPeriod);
    }
    if execution_delay < 0 {
        return Err(GovernanceError::InvalidExecutionDelay);
    }
    let g = Governance {
        authority,
        token_mint,
        treasury,
        min_proposal_tokens,
        voting_period,
        execution_delay,
        quorum_percentage,
        proposal_count: 0,
    };
    Ok((g, VotingPowerRegistry::new()))
}

/// Why `proposer`, holding `balance` tokens, cannot open a proposal at `now`, if it cannot.
pub open spec fn proposal_rejection(g: Governance, balance: u64, now: i64) -> Option<GovernanceError> {
    if balance < g.min_proposal_tokens {
        Some(GovernanceError::InsufficientTokens)
    } else if g.proposal_count + 1 > u64::MAX {
        Some(GovernanceError::ArithmeticOverflow)
    } else if now + g.voting_period > i64::MAX || now + g.voting_period < i64::MIN {
        Some(GovernanceError::ArithmeticOverflow)
    } else {
        None
    }
}

/// Opens proposal number `proposal_count + 1`, voting on it until
/// `now + voting_period`, and counts it on the configuration.
pub fn create_proposal(
    governance: &mut Governance,
    proposer: Address,
    proposer_balance: u64,
    title: String,
    description: String,
    proposal_type: ProposalType,
    execution_payload: Vec<u8>,
    now: i64,
) -> (r: Result<Proposal, GovernanceError>)
    ensures
        match r {
            Ok(p) => {
                &&& proposal_rejection(*old(governance), proposer_balance, now) is None
                &&& *final(governance) == Governance {
                    proposal_count: (old(governance).proposal_count + 1) as u64,
                    ..*old(governance)
                }
                &&& p.wf()
                &&& p.proposer == proposer
                &&& p.proposal_id == old(governance).proposal_count + 1
                &&& p.title == title
                &&& p.description == description
                &&& p.proposal_type == proposal_type
                &&& p.execution_payload == execution_payload
                &&& p.created_at == now
                &&& p.voting_ends_at == now + old(governance).voting_period
                &&& p.yes_votes == 0
                &&& p.no_votes == 0
                &&& p.status == ProposalStatus::Active
                &&& p.votes@.len() == 0
            },
            Err(e) => proposal_rejection(*old(governance), proposer_balance, now) == Some(e)
                && *final(governance) == *old(governance),
        },
{
    if proposer_balance < governance.min_proposal_tokens {
        return Err(GovernanceError::InsufficientTokens);
    }
    if governance.proposal_count == u64::MAX {
        return Err(GovernanceError::ArithmeticOverflow);
    }
    let ends = now as i128 + governance.voting_period as i128;
    if ends > i64::MAX as i128 || ends < i64::MIN as i128 {
        return Err(GovernanceError::ArithmeticOverflow);
    }
    let proposal_id = governance.proposal_count + 1;
    let p = Proposal {
        proposer,
        proposal_id,
        title,
        description,
        proposal_type,
        execution_payload,
        created_at: now,
        voting_ends_at: ends as i64,
        yes_votes: 0,
        no_votes: 0,
        status: ProposalStatus::Active,
        votes: Vec::new(),
    };
    governance.proposal_count = proposal_id;
    Ok(p)
}

/// Why `p` cannot be executed at `now` against `total` registered power, if it cannot.
pub open spec fn execution_rejection(g: Governance, p: Proposal, total: u64, now: i64) -> Option<GovernanceError> {
    if now < p.voting_ends_at {
        Some(GovernanceError::VotingStillOpen)
    } else if p.status == ProposalStatus::Executed {
        Some(GovernanceError::ProposalAlreadyExecuted)
    } else if p.status == ProposalStatus::Cancelled {
        Some(GovernanceError::ProposalCancelled)
    } else if now < p.voting_ends_at + g.execution_delay {
        Some(GovernanceError::ExecutionDelayNotPassed)
    } else if !quorum_reached(p.yes_votes, p.no_votes, total, g.quorum_percentage) {
        Some(GovernanceError::QuorumNotReached)
    } else if p.yes_votes <= p.no_votes {
        Some(GovernanceError::ProposalNotPassed)
    } else {
        None
    }
}

/// Latches the proposal as executed once voting and the execution delay are over,
/// quorum is met and yes strictly outnumbers no. Dispatching its effect by
/// `proposal_type` is the caller's, and happens at most once since the latch holds.
pub fn execute_proposal(
    governance: &Governance,
    proposal: &mut Proposal,
    registry: &VotingPowerRegistry,
    now: i64,
) -> (r: Result<(), GovernanceError>)
    ensures
        match r {
            Ok(()) => execution_rejection(*governance, *old(proposal), registry.total_voting_power, now) is None
                && *final(proposal) == (Proposal { status: ProposalStatus::Executed, ..*old(proposal) }),
            Err(e) => execution_rejection(*governance, *old(proposal), registry.total_voting_power, now)
                == Some(e) && *final(proposal) == *old(proposal),
        },
{
    if now < proposal.voting_ends_at {
        return Err(GovernanceError::VotingStillOpen);
    }
    match proposal.status {
        ProposalStatus::Executed => {
            return Err(GovernanceError::ProposalAlreadyExecuted);
        },
        ProposalStatus::Cancelled => {
            return Err(GovernanceError::ProposalCancelled);
        },
        ProposalStatus::Active => {},
    }
    if (now as i128) < proposal.voting_ends_at as i128 + governance.execution_delay as i128 {
        return Err(GovernanceError::ExecutionDelayNotPassed);
    }
    let total_votes = proposal.yes_votes as u128 + proposal.no_votes as u128;
    if total_votes < quorum_threshold(registry.total_voting_power, governance.quorum_percentage) {
        return Err(GovernanceError::QuorumNotReached);
    }
    if proposal.yes_votes <= proposal.no_votes {
        return Err(GovernanceError::ProposalNotPassed);
    }
    proposal.status = ProposalStatus::Executed;
    Ok(())
}

/// Why `actor` cannot cancel `p`, if it cannot.
pub open spec fn cancellation_rejection(g: Governance, p: Proposal, actor: Address) -> Option<GovernanceError> {
    if p.status == ProposalStatus::Executed {
        Some(GovernanceError::ProposalAlreadyExecuted)
    } else if p.status == ProposalStatus::Cancelled {
        Some(GovernanceError::ProposalCancelled)
    } else if actor != p.proposer && actor != g.authority {
        Some(GovernanceError::UnauthorizedCancellation)
    } else {
        None
    }
}

/// Latches a live proposal as cancelled; only its proposer or the governance
/// authority may do so.
pub fn cancel_proposal(governance: &Governance, proposal: &mut Proposal, actor: Address) -> (r: Result<(), GovernanceError>)
    ensures
        match r {
            Ok(()) => cancellation_rejection(*governance, *old(proposal), actor) is None
                && *final(proposal) == (Proposal { status: ProposalStatus::Cancelled, ..*old(proposal) }),
            Err(e) => cancellation_rejection(*governance, *old(proposal), actor) == Some(e)
                && *final(proposal) == *old(proposal),
        },
{
    match proposal.status {
        ProposalStatus::Executed => {
            return Err(GovernanceError::ProposalAlreadyExecuted);
        },
        ProposalStatus::Cancelled => {
            return Err(GovernanceError::ProposalCancelled);
        },
        ProposalStatus::Active => {},
    }
    if actor != proposal.proposer && actor != governance.authority {
        return Err(GovernanceError::UnauthorizedCancellation);
    }
    proposal.status = ProposalStatus::Cancelled;
    Ok(())
}

/// The value given, or `current` when none is.
pub open spec fn given_or<T>(given: Option<T>, current: T) -> T {
    match given {
        Some(v) => v,
        None => current,
    }
}

/// Why `actor` cannot apply these parameter updates, if it cannot.
pub open spec fn update_rejection(
    g: Governance,
    actor: Address,
    voting_period: Option<i64>,
    execution_delay: Option<i64>,
    quorum_percentage: Option<u8>,
) -> Option<GovernanceError> {
    if actor != g.authority {
        Some(GovernanceError::Unauthorized)
    } else if voting_period is Some && voting_period->0 <= 0 {
        Some(GovernanceError::InvalidVotingPeriod)
    } else if execution_delay is Some && execution_delay->0 < 0 {
        Some(GovernanceError::InvalidExecutionDelay)
    } else if quorum_percentage is Some && !(1 <= quorum_percentage->0 <= 100) {
        Some(GovernanceError::InvalidQuorumPercentage)
    } else {
        None
    }
}

/// Applies each given parameter, after all of them were validated; parameters not
/// given are left as they are. Only the governance authority may update.
pub fn update_governance(
    governance: &mut Governance,
    actor: Address,
    min_proposal_tokens: Option<u64>,
    voting_period: Option<i64>,
    execution_delay: Option<i64>,
    quorum_percentage: Option<u8>,
) -> (r: Result<(), GovernanceError>)
    ensures
        old(governance).wf() ==> final(governance).wf(),
        match r {
            Ok(()) => {
                &&& update_rejection(*old(governance), actor, voting_period, execution_delay, quorum_percentage) is None
                &&& *final(governance) == Governance {
                    min_proposal_tokens: given_or(min_proposal_tokens, old(governance).min_proposal_tokens),
                    voting_period: given_or(voting_period, old(governance).voting_period),
                    execution_delay: given_or(execution_delay, old(governance).execution_delay),
                    quorum_percentage: given_or(quorum_percentage, old(governance).quorum_percentage),
                    ..*old(governance)
                }
            },
            Err(e) => update_rejection(*old(governance), actor, voting_period, execution_delay, quorum_percentage)
                == Some(e) && *final(governance) == *old(governance),
        },
{
    if actor != governance.authority {
        return Err(GovernanceError::Unauthorized);
    }
    if let Some(v) = voting_period {
        if v <= 0 {
            return Err(GovernanceError::InvalidVotingPeriod);
        }
    }
    if let Some(d) = execution_delay {
        if d < 0 {
            return Err(GovernanceError::InvalidExecutionDelay);
        }
    }
    if let Some(q) = quorum_percentage {
        if !(q > 0 && q <= 100) {
            return Err(GovernanceError::InvalidQuorumPercentage);
        }
    }
    if let Some(m) = min_proposal_tokens {
        governance.min_proposal_tokens = m;
    }
    if let Some(v) = voting_period {
        governance.voting_period = v;
    }
    if let Some(d) = execution_delay {
        governance.execution_delay = d;
    }
    if let Some(q) = quorum_percentage {
        governance.quorum_percentage = q;
    }
    Ok(())
}

/// On every well-formed proposal, however often its voters recast, the yes and no
/// tallies together are exactly the power of the ballots that are not abstentions:
/// no ballot is counted twice.
pub proof fn lemma_tallies_match_ballots(p: Proposal)
    requires
        p.wf(),
    ensures
        p.yes_votes + p.no_votes == counted_power(p.votes@),
{
    lemma_tallies_sum(p.votes@);
}

/// The yes and no tallies of any ballot list add up to its counted power.
pub proof fn lemma_tallies_sum(s: Seq<VoterVote>)
    ensures
        tally(s, Vote::Yes) + tally(s, Vote::No) == counted_power(s),
    decreases s.len(),
{
    if s.len() > 0 {
        lemma_tallies_sum(s.drop_last());
    }
}

/// A voter's ballot is found where it stands.
pub proof fn lemma_ballot_at(s: Seq<VoterVote>, i: int)
    requires
        ballots_unique(s),
        0 <= i < s.len(),
    ensures
        ballot_of(s, s[i].voter) == Some(s[i]),
    decreases s.len(),
{
    if i < s.len() - 1 {
        assert(s.drop_last()[i] == s[i]);
        lemma_ballot_at(s.drop_last(), i);
    }
}

/// A voter without a ballot has none to find.
pub proof fn lemma_ballot_absent(s: Seq<VoterVote>, v: Address)
    requires
        forall|j: int| 0 <= j < s.len() ==> s[j].voter != v,
    ensures
        ballot_of(s, v) is None,
    decreases s.len(),
{
    if s.len() > 0 {
        lemma_ballot_absent(s.drop_last(), v);
    }
}

/// No single ballot outweighs the tally it counts toward.
pub proof fn lemma_weight_within_tally(s: Seq<VoterVote>, i: int, k: Vote)
    requires
        0 <= i < s.len(),
    ensures
        weight(s[i], k) <= tally(s, k),
    decreases s.len(),
{
    if i < s.len() - 1 {
        assert(s.drop_last()[i] == s[i]);
        lemma_weight_within_tally(s.drop_last(), i, k);
    }
}

/// Replacing a voter's ballot changes what is found for that voter alone, and keeps
/// the ballots unique.
pub proof fn lemma_ballot_update(s: Seq<VoterVote>, i: int, x: VoterVote)
    requires
        ballots_unique(s),
        0 <= i < s.len(),
        s[i].voter == x.voter,
    ensures
        ballots_unique(s.update(i, x)),
        forall|w: Address|
            #[trigger] ballot_of(s.update(i, x), w) == if w == x.voter {
                Some(x)
            } else {
                ballot_of(s, w)
            },
    decreases s.len(),
{
    let t = s.update(i, x);
    assert forall|a: int, b: int| 0 <= a < b < t.len() implies t[a].voter != t[b].voter by {
        assert(s[a].voter != s[b].voter);
    }
    if i == s.len() - 1 {
        assert(t.drop_last() =~= s.drop_last());
    } else {
        assert(t.drop_last() =~= s.drop_last().update(i, x));
        lemma_ballot_update(s.drop_last(), i, x);
        assert(s.last().voter != x.voter) by {
            assert(s[i].voter != s[s.len() - 1].voter);
        }
    }
    assert forall|w: Address|
        #[trigger] ballot_of(t, w) == if w == x.voter {
            Some(x)
        } else {
            ballot_of(s, w)
        } by {
        if i < s.len() - 1 {
            assert(ballot_of(t.drop_last(), w) == ballot_of(s.drop_last().update(i, x), w));
        }
    }
}

/// Replacing a ballot moves each tally by the difference of the two weights.
pub proof fn lemma_tally_update(s: Seq<VoterVote>, i: int, x: VoterVote, k: Vote)
    requires
        0 <= i < s.len(),
    ensures
        tally(s.update(i, x), k) == tally(s, k) - weight(s[i], k) + weight(x, k),
    decreases s.len(),
{
    let t = s.update(i, x);
    if i == s.len() - 1 {
        assert(t.drop_last() =~= s.drop_last());
    } else {
        assert(t.drop_last() =~= s.drop_last().update(i, x));
        lemma_tally_update(s.drop_last(), i, x, k);
    }
}

/// Appending the ballot of a new voter makes it findable and adds its weights.
pub proof fn lemma_ballot_push(s: Seq<VoterVote>, x: VoterVote)
    requires
        ballots_unique(s),
        ballot_of(s, x.voter) is None,
    ensures
        ballots_unique(s.push(x)),
        tally(s.push(x), Vote::Yes) == tally(s, Vote::Yes) + weight(x, Vote::Yes),
        tally(s.push(x), Vote::No) == tally(s, Vote::No) + weight(x, Vote::No),
        forall|w: Address|
            #[trigger] ballot_of(s.push(x), w) == if w == x.voter {
                Some(x)
            } else {
                ballot_of(s, w)
            },
{
    let t = s.push(x);
    assert(t.drop_last() =~= s);
    assert forall|a: int, b: int| 0 <= a < b < t.len() implies t[a].voter != t[b].voter by {
        if b == s.len() {
            if s[a].voter == x.voter {
                lemma_ballot_at(s, a);
            }
        }
    }
}

} // verus!
