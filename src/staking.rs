use vstd::prelude::*;

use vstd::arithmetic::div_mod::{lemma_div_is_ordered, lemma_div_is_ordered_by_denominator};

use crate::address::Address;

verus! {

pub const SECONDS_PER_DAY: i64 = 86_400;

/// Lock-duration tier breakpoints, in seconds.
pub const ONE_MONTH: i64 = 30 * SECONDS_PER_DAY;
pub const THREE_MONTHS: i64 = 90 * SECONDS_PER_DAY;
pub const SIX_MONTHS: i64 = 180 * SECONDS_PER_DAY;
pub const ONE_YEAR: i64 = 365 * SECONDS_PER_DAY;

/// Base units per whole token (nine decimals); voting power counts whole tokens.
pub const TOKEN_UNIT: u128 = 1_000_000_000;

/// Seconds in a year times basis points in one: the reward rate is in basis points
/// per day, pro-rated by the second over a 365-day year.
pub const REWARD_DENOMINATOR: u128 = 315_360_000_000;

/// Parameters a new pool starts with: ten basis points a day, locks of 30 to 365 days.
pub const DEFAULT_REWARD_RATE: u64 = 10;
pub const DEFAULT_MIN_STAKE_DURATION: i64 = ONE_MONTH;
pub const DEFAULT_MAX_STAKE_DURATION: i64 = ONE_YEAR;

/// Why a staking operation was rejected. A rejected operation changes nothing.
#[derive(Clone, Copy, Debug, PartialEq, Eq, Structural)]
pub enum StakingError {
    InvalidStakeDuration,
    StakeLockNotExpired,
    StakeAlreadyWithdrawn,
    NoRewardsYet,
    Unauthorized,
    ArithmeticOverflow,
}

/// The per-token staking pool.
#[derive(Clone, Copy, Debug, PartialEq, Eq, Structural)]
pub struct StakingPool {
    pub authority: Address,
    pub token_mint: Address,
    pub treasury_token_account: Address,
    pub total_staked: u64,
    pub staker_count: u64,
    /// Basis points per day.
    pub reward_rate: u64,
    pub min_stake_duration: i64,
    pub max_stake_duration: i64,
}

/// One owner's stake in a pool. Once `withdrawn`, it is a historical record only.
#[derive(Clone, Copy, Debug, PartialEq, Eq, Structural)]
pub struct UserStake {
    pub owner: Address,
    pub stake_amount: u64,
    pub start_timestamp: i64,
    pub end_timestamp: i64,
    pub claimed_reward: u64,
    pub last_claim_timestamp: i64,
    /// Percent, by lock-duration tier; informational.
    pub reputation_boost: u64,
    pub voting_power: u64,
    pub withdrawn: bool,
}

/// What closing a stake pays out: the final reward and the principal.
#[derive(Clone, Copy, Debug, PartialEq, Eq, Structural)]
pub struct Settlement {
    pub reward: u64,
    pub principal: u64,
}

/// The reputation boost, in percent, of a lock of `duration` seconds.
pub open spec fn reputation_boost_for(duration: i64) -> u64 {
    if duration >= ONE_YEAR {
        50
    } else if duration >= SIX_MONTHS {
        30
    } else if duration >= THREE_MONTHS {
        20
    } else {
        10
    }
}

/// The voting-power multiplier of a lock of `duration` seconds, as numerator and
/// denominator: 3, 2, 3/2 or 1.
pub open spec fn multiplier_for(duration: i64) -> (u128, u128) {
    if duration >= ONE_YEAR {
        (3, 1)
    } else if duration >= SIX_MONTHS {
        (2, 1)
    } else if duration >= THREE_MONTHS {
        (3, 2)
    } else {
        (1, 1)
    }
}

/// `floor(amount * numerator / (TOKEN_UNIT * denominator))`.
pub open spec fn voting_power_for(amount: u64, duration: i64) -> int {
    let (num, den) = multiplier_for(duration);
    (amount * num) / (TOKEN_UNIT * den)
}

/// The raw reward product `amount * rate * elapsed`.
pub open spec fn reward_product(amount: u64, rate: u64, elapsed: int) -> int {
    amount * rate * elapsed
}

/// `floor(amount * rate * elapsed / (365 * 86400 * 10000))`.
pub open spec fn reward_for(amount: u64, rate: u64, elapsed: int) -> int {
    reward_product(amount, rate, elapsed) / REWARD_DENOMINATOR as int
}

/// The reward cannot be computed in 128 bits, or does not fit in 64.
pub open spec fn reward_overflows(amount: u64, rate: u64, elapsed: int) -> bool {
    reward_product(amount, rate, elapsed) > u128::MAX || reward_for(amount, rate, elapsed) > u64::MAX
}

/// The reputation boost, in percent, of a lock of `duration` seconds.
pub fn reputation_boost(duration: i64) -> (r: u64)
    ensures
        r == reputation_boost_for(duration),
{
    if duration >= ONE_YEAR {
        50
    } else if duration >= SIX_MONTHS {
        30
    } else if duration >= THREE_MONTHS {
        20
    } else {
        10
    }
}

/// The voting-power multiplier of a lock of `duration` seconds.
pub fn duration_multiplier(duration: i64) -> (r: (u128, u128))
    ensures
        r == multiplier_for(duration),
{
    if duration >= ONE_YEAR {
        (3, 1)
    } else if duration >= SIX_MONTHS {
        (2, 1)
    } else if duration >= THREE_MONTHS {
        (3, 2)
    } else {
        (1, 1)
    }
}

/// Voting power of `amount` base units locked for `duration` seconds, in exact
/// rational arithmetic.
pub fn voting_power(amount: u64, duration: i64) -> (r: u64)
    ensures
        r == voting_power_for(amount, duration),
{
    let (num, den) = duration_multiplier(duration);
    let a = amount as u128;
    proof {
        assert(a * num <= 0xffff_ffff_ffff_ffffu128 * 3) by (nonlinear_arith)
            requires
                a <= 0xffff_ffff_ffff_ffffu128,
                num <= 3,
        ;
        lemma_div_is_ordered_by_denominator((a * num) as int, TOKEN_UNIT as int, (TOKEN_UNIT * den) as int);
        lemma_div_is_ordered((a * num) as int, 0xffff_ffff_ffff_ffffu128 * 3, TOKEN_UNIT as int);
    }
    (a * num / (TOKEN_UNIT * den)) as u64
}

/// The reward on `amount` at `rate` basis points a day over `elapsed` seconds,
/// truncated; `None` where it overflows.
pub fn compute_reward(amount: u64, rate: u64, elapsed: u64) -> (r: Option<u64>)
    ensures
        match r {
            Some(v) => !reward_overflows(amount, rate, elapsed as int) && v == reward_for(
                amount,
                rate,
                elapsed as int,
            ),
            None => reward_overflows(amount, rate, elapsed as int),
        },
{
    let a = amount as u128;
    let b = rate as u128;
    proof {
        assert(a * b <= 0xffff_ffff_ffff_ffffu128 * 0xffff_ffff_ffff_ffffu128) by (nonlinear_arith)
            requires
                a <= 0xffff_ffff_ffff_ffffu128,
                b <= 0xffff_ffff_ffff_ffffu128,
        ;
    }
    let ab = a * b;
    match ab.checked_mul(elapsed as u128) {
        Some(product) => {
            let reward = product / REWARD_DENOMINATOR;
            if reward > u64::MAX as u128 {
                None
            } else {
                Some(reward as u64)
            }
        },
        None => None,
    }
}

/// A new pool with the default parameters and nothing staked.
pub fn initialize(authority: Address, token_mint: Address, treasury_token_account: Address) -> (r: StakingPool)
    ensures
        r == (StakingPool {
            authority,
            token_mint,
            treasury_token_account,
            total_staked: 0,
            staker_count: 0,
            reward_rate: DEFAULT_REWARD_RATE,
            min_stake_duration: DEFAULT_MIN_STAKE_DURATION,
            max_stake_duration: DEFAULT_MAX_STAKE_DURATION,
        }),
{
    StakingPool {
        authority,
        token_mint,
        treasury_token_account,
        total_staked: 0,
        staker_count: 0,
        reward_rate: DEFAULT_REWARD_RATE,
        min_stake_duration: DEFAULT_MIN_STAKE_DURATION,
        max_stake_duration: DEFAULT_MAX_STAKE_DURATION,
    }
}

/// Why staking `amount` for `duration` seconds at `now` is rejected, if it is.
pub open spec fn stake_rejection(pool: StakingPool, amount: u64, duration: i64, now: i64) -> Option<StakingError> {
    if duration < pool.min_stake_duration || duration > pool.max_stake_duration {
        Some(StakingError::InvalidStakeDuration)
    } else if now + duration > i64::MAX || now + duration < i64::MIN {
        Some(StakingError::ArithmeticOverflow)
    } else if pool.total_staked + amount > u64::MAX || pool.staker_count + 1 > u64::MAX {
        Some(StakingError::ArithmeticOverflow)
    } else {
        None
    }
}

/// The stake that `stake` opens.
pub open spec fn new_stake(owner: Address, amount: u64, duration: i64, now: i64) -> UserStake {
    UserStake {
        owner,
        stake_amount: amount,
        start_timestamp: now,
        end_timestamp: (now + duration) as i64,
        claimed_reward: 0,
        last_claim_timestamp: now,
        reputation_boost: reputation_boost_for(duration),
        voting_power: voting_power_for(amount, duration) as u64,
        withdrawn: false,
    }
}

/// The pool once `amount` more is staked by one more staker.
pub open spec fn staked_pool(pool: StakingPool, amount: u64) -> StakingPool {
    StakingPool {
        total_staked: (pool.total_staked + amount) as u64,
        staker_count: (pool.staker_count + 1) as u64,
        ..pool
    }
}

/// Locks `amount` for `duration` seconds from `now`. Moving the tokens into custody
/// is the caller's.
pub fn stake(pool: &mut StakingPool, owner: Address, amount: u64, duration: i64, now: i64) -> (r: Result<
    UserStake,
    StakingError,
>)
    ensures
        match r {
            Ok(s) => stake_rejection(*old(pool), amount, duration, now) is None
                && s == new_stake(owner, amount, duration, now)
                && *final(pool) == staked_pool(*old(pool), amount),
            Err(e) => stake_rejection(*old(pool), amount, duration, now) == Some(e)
                && *final(pool) == *old(pool),
        },
{
    if duration < pool.min_stake_duration || duration > pool.max_stake_duration {
        return Err(StakingError::InvalidStakeDuration);
    }
    let end = now as i128 + duration as i128;
    if end > i64::MAX as i128 || end < i64::MIN as i128 {
        return Err(StakingError::ArithmeticOverflow);
    }
    if pool.total_staked > u64::MAX - amount || pool.staker_count == u64::MAX {
        return Err(StakingError::ArithmeticOverflow);
    }
    let s = UserStake {
        owner,
        stake_amount: amount,
        start_timestamp: now,
        end_timestamp: end as i64,
        claimed_reward: 0,
        last_claim_timestamp: now,
        reputation_boost: reputation_boost(duration),
        voting_power: voting_power(amount, duration),
        withdrawn: false,
    };
    pool.total_staked = pool.total_staked + amount;
    pool.staker_count = pool.staker_count + 1;
    Ok(s)
}

/// Why claiming on `s` at `now` is rejected, if it is.
pub open spec fn claim_rejection(pool: StakingPool, s: UserStake, now: i64) -> Option<StakingError> {
    let elapsed = now - s.last_claim_timestamp;
    if s.withdrawn {
        Some(StakingError::StakeAlreadyWithdrawn)
    } else if elapsed <= 0 {
        Some(StakingError::NoRewardsYet)
    } else if reward_overflows(s.stake_amount, pool.reward_rate, elapsed) || s.claimed_reward
        + reward_for(s.stake_amount, pool.reward_rate, elapsed) > u64::MAX {
        Some(StakingError::ArithmeticOverflow)
    } else {
        None
    }
}

/// Computes the reward accrued since the last claim and moves the claim baseline to
/// `now`; the truncated remainder is not lost, it is never separated from the time
/// still to be claimed. Paying the reward out is the caller's.
pub fn claim_reward(pool: &StakingPool, user_stake: &mut UserStake, now: i64) -> (r: Result<u64, StakingError>)
    ensures
        match r {
            Ok(reward) => claim_rejection(*pool, *old(user_stake), now) is None
                && reward == reward_for(
                    old(user_stake).stake_amount,
                    pool.reward_rate,
                    now - old(user_stake).last_claim_timestamp,
                ) && *final(user_stake) == (UserStake {
                    claimed_reward: (old(user_stake).claimed_reward + reward) as u64,
                    last_claim_timestamp: now,
                    ..*old(user_stake)
                }),
            Err(e) => claim_rejection(*pool, *old(user_stake), now) == Some(e)
                && *final(user_stake) == *old(user_stake),
        },
{
    if user_stake.withdrawn {
        return Err(StakingError::StakeAlreadyWithdrawn);
    }
    let elapsed = now as i128 - user_stake.last_claim_timestamp as i128;
    if elapsed <= 0 {
        return Err(StakingError::NoRewardsYet);
    }
    let reward = match compute_reward(user_stake.stake_amount, pool.reward_rate, elapsed as u64) {
        Some(v) => v,
        None => {
            return Err(StakingError::ArithmeticOverflow);
        },
    };
    if user_stake.claimed_reward > u64::MAX - reward {
        return Err(StakingError::ArithmeticOverflow);
    }
    user_stake.claimed_reward = user_stake.claimed_reward + reward;
    user_stake.last_claim_timestamp = now;
    Ok(reward)
}

/// The reward settled when `s` is closed at `now`: whatever accrued since the last
/// claim, by the same formula as a claim.
pub open spec fn settlement_reward(rate: u64, s: UserStake, now: i64) -> int {
    if now > s.last_claim_timestamp {
        reward_for(s.stake_amount, rate, now - s.last_claim_timestamp)
    } else {
        0
    }
}

/// Why closing `s` at `now` is rejected, if it is.
pub open spec fn unstake_rejection(pool: StakingPool, s: UserStake, now: i64) -> Option<StakingError> {
    if s.withdrawn {
        Some(StakingError::StakeAlreadyWithdrawn)
    } else if now < s.end_timestamp {
        Some(StakingError::StakeLockNotExpired)
    } else if now > s.last_claim_timestamp && (reward_overflows(
        s.stake_amount,
        pool.reward_rate,
        now - s.last_claim_timestamp,
    ) || s.claimed_reward + settlement_reward(pool.reward_rate, s, now) > u64::MAX) {
        Some(StakingError::ArithmeticOverflow)
    } else if pool.total_staked < s.stake_amount || pool.staker_count == 0 {
        Some(StakingError::ArithmeticOverflow)
    } else {
        None
    }
}

/// Closes an expired stake: settles the reward accrued since the last claim, then
/// releases the principal, and latches the stake as withdrawn. Paying both out, the
/// reward first, is the caller's.
pub fn unstake(pool: &mut StakingPool, user_stake: &mut UserStake, now: i64) -> (r: Result<
    Settlement,
    StakingError,
>)
    ensures
        match r {
            Ok(paid) => {
                &&& unstake_rejection(*old(pool), *old(user_stake), now) is None
                &&& paid.reward == settlement_reward(old(pool).reward_rate, *old(user_stake), now)
                &&& paid.principal == old(user_stake).stake_amount
                &&& *final(user_stake) == UserStake {
                    claimed_reward: (old(user_stake).claimed_reward + paid.reward) as u64,
                    withdrawn: true,
                    ..*old(user_stake)
                }
                &&& *final(pool) == StakingPool {
                    total_staked: (old(pool).total_staked - old(user_stake).stake_amount) as u64,
                    staker_count: (old(pool).staker_count - 1) as u64,
                    ..*old(pool)
                }
            },
            Err(e) => unstake_rejection(*old(pool), *old(user_stake), now) == Some(e)
                && *final(pool) == *old(pool) && *final(user_stake) == *old(user_stake),
        },
{
    if user_stake.withdrawn {
        return Err(StakingError::StakeAlreadyWithdrawn);
    }
    if now < user_stake.end_timestamp {
        return Err(StakingError::StakeLockNotExpired);
    }
    let mut reward: u64 = 0;
    if now > user_stake.last_claim_timestamp {
        let elapsed = now as i128 - user_stake.last_claim_timestamp as i128;
        reward = match compute_reward(user_stake.stake_amount, pool.reward_rate, elapsed as u64) {
            Some(v) => v,
            None => {
                return Err(StakingError::ArithmeticOverflow);
            },
        };
        if user_stake.claimed_reward > u64::MAX - reward {
            return Err(StakingError::ArithmeticOverflow);
        }
    }
    let principal = user_stake.stake_amount;
    if pool.total_staked < principal || pool.staker_count == 0 {
        return Err(StakingError::ArithmeticOverflow);
    }
    user_stake.claimed_reward = user_stake.claimed_reward + reward;
    user_stake.withdrawn = true;
    pool.total_staked = pool.total_staked - principal;
    pool.staker_count = pool.staker_count - 1;
    Ok(Settlement { reward, principal })
}

/// Sets the reward rate and the lock bounds; they apply to every accrual window
/// computed from now on. Only the pool authority may do so.
pub fn update_reward_params(
    pool: &mut StakingPool,
    actor: Address,
    new_reward_rate: u64,
    new_min_duration: i64,
    new_max_duration: i64,
) -> (r: Result<(), StakingError>)
    ensures
        match r {
            Ok(()) => actor == old(pool).authority && *final(pool) == (StakingPool {
                reward_rate: new_reward_rate,
                min_stake_duration: new_min_duration,
                max_stake_duration: new_max_duration,
                ..*old(pool)
            }),
            Err(e) => actor != old(pool).authority && e == StakingError::Unauthorized
                && *final(pool) == *old(pool),
        },
{
    if actor != pool.authority {
        return Err(StakingError::Unauthorized);
    }
    pool.reward_rate = new_reward_rate;
    pool.min_stake_duration = new_min_duration;
    pool.max_stake_duration = new_max_duration;
    Ok(())
}

/// Staking and then closing the stake right at its lock expiry, with no claim in
/// between: the close is refused for no reason but overflow, pays back exactly the
/// amount staked, and settles one reward over the whole lock duration.
pub proof fn lemma_stake_then_unstake(pool: StakingPool, owner: Address, amount: u64, duration: i64, now: i64)
    requires
        stake_rejection(pool, amount, duration, now) is None,
        duration >= 0,
    ensures
        ({
            let s = new_stake(owner, amount, duration, now);
            let staked = staked_pool(pool, amount);
            &&& s.stake_amount == amount
            &&& unstake_rejection(staked, s, s.end_timestamp) is None || unstake_rejection(
                staked,
                s,
                s.end_timestamp,
            ) == Some(StakingError::ArithmeticOverflow)
            &&& settlement_reward(staked.reward_rate, s, s.end_timestamp) == reward_for(
                amount,
                pool.reward_rate,
                duration as int,
            )
        }),
{
    if duration == 0 {
        assert(reward_product(amount, pool.reward_rate, 0) == 0) by (nonlinear_arith);
    }
}

} // verus!
