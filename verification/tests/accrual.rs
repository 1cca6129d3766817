use anchor_lang::prelude::Pubkey;
use staking_factory::claimer::{Claimer, Direct, PercentPool, PercentUserStake};
use staking_factory::error::MyError;
use staking_factory::history::History;
use staking_factory::params::{Params, RewardPolicy};
use staking_factory::reward::{direct_claim, elapsed_periods, percent_claim, pool_claim};

const DAY: i64 = 86400;

fn params(period: i64, units_per_token: u64, rewards_per_unit: u64) -> Params {
    Params { reward_mint: Pubkey::new_from_array([7u8; 32]), period, units_per_token, rewards_per_unit }
}

fn ledger(entries: &[(i64, u64)]) -> History {
    let mut h = History::new();
    for (epoch, total) in entries {
        assert_eq!(h.record_snapshot(*epoch, *total), Ok(()));
    }
    h
}

#[test]
fn direct_pays_nothing_over_an_empty_interval() {
    assert_eq!(direct_claim(DAY, 10, 500, 500, 1000), Ok(0));
    assert_eq!(direct_claim(DAY, u64::MAX, 500, 500, u64::MAX), Ok(0));
}

#[test]
fn direct_pays_nothing_for_a_partial_period() {
    assert_eq!(direct_claim(DAY, 10, 500, 500 + DAY - 1, 1000), Ok(0));
    assert_eq!(direct_claim(DAY, 10, 500, 500 + 2 * DAY - 1, 1000), Ok(10_000));
}

#[test]
fn direct_pays_rate_times_stake_times_periods() {
    for k in 0..6i64 {
        assert_eq!(direct_claim(DAY, 10, 42, 42 + k * DAY, 1000), Ok(1000 * 10 * (k as u64)));
    }
}

#[test]
fn direct_three_days_at_ten_units() {
    let d = Direct::from(params(DAY, 10, 0));
    assert_eq!(d.claim(0, 259200, 1000), Ok(30000));
    let p = params(DAY, 10, 0);
    let h = History::new();
    assert_eq!(RewardPolicy::DirectSameToken.claim(&p, &h, 0, 259200, 1000), Ok(30000));
    assert_eq!(RewardPolicy::DirectAnotherToken.claim(&p, &h, 0, 259200, 1000), Ok(30000));
}

#[test]
fn direct_overflow_is_an_error() {
    assert_eq!(direct_claim(1, 2, 0, 1, u64::MAX), Err(MyError::ArithmeticOverflow));
    assert_eq!(direct_claim(1, 1 << 32, 0, 1, 1 << 32), Err(MyError::ArithmeticOverflow));
    assert_eq!(direct_claim(1, 1 << 31, 0, 4, 1 << 31), Err(MyError::ArithmeticOverflow));
    assert_eq!(direct_claim(1, 1 << 31, 0, 3, 1 << 31), Ok(3 << 62));
    assert_eq!(direct_claim(1, 1, 0, 1, u64::MAX), Ok(u64::MAX));
}

#[test]
fn interval_is_validated() {
    assert_eq!(direct_claim(0, 10, 0, 10, 1), Err(MyError::InvalidConfig));
    assert_eq!(direct_claim(-5, 10, 0, 10, 1), Err(MyError::InvalidConfig));
    assert_eq!(direct_claim(0, 10, 10, 0, 1), Err(MyError::InvalidConfig));
    assert_eq!(direct_claim(5, 10, 10, 9, 1), Err(MyError::InvalidInterval));
    assert_eq!(percent_claim(0, 10, 0, 10, 1), Err(MyError::InvalidConfig));
    assert_eq!(percent_claim(5, 10, 10, 9, 1), Err(MyError::InvalidInterval));
    let h = ledger(&[(0, 100)]);
    assert_eq!(pool_claim(&h, 0, 1, 0, 10, 1), Err(MyError::InvalidConfig));
    assert_eq!(pool_claim(&h, 5, 1, 10, 9, 1), Err(MyError::InvalidInterval));
    assert_eq!(pool_claim(&h, 5, 1, 10, 9, 0), Err(MyError::InvalidInterval));
}

#[test]
fn elapsed_periods_over_the_widest_interval() {
    assert_eq!(elapsed_periods(1, i64::MIN, i64::MAX), Ok(u64::MAX));
    assert_eq!(elapsed_periods(i64::MAX, i64::MIN, i64::MAX), Ok(2));
    assert_eq!(elapsed_periods(10, -25, 4), Ok(2));
    assert_eq!(elapsed_periods(10, -25, 5), Ok(3));
    assert_eq!(direct_claim(i64::MAX, 3, i64::MIN, i64::MAX, 5), Ok(30));
}

#[test]
fn percent_zero_rate_earns_nothing() {
    assert_eq!(percent_claim(10, 0, 0, 0, 1000), Ok(0));
    assert_eq!(percent_claim(10, 0, 0, 1000, 1000), Ok(0));
    assert_eq!(percent_claim(10, 0, 0, 1000, u64::MAX), Ok(0));
}

#[test]
fn percent_full_rate_doubles_at_each_boundary() {
    // Boundaries at the start and one period later: 5 -> 10 -> 20.
    assert_eq!(percent_claim(DAY, 100, 0, DAY, 5), Ok(15));
    assert_eq!(percent_claim(DAY, 100, 0, DAY, 0), Ok(0));
    // Only the boundary at the start: 5 -> 10.
    assert_eq!(percent_claim(DAY, 100, 0, DAY - 1, 5), Ok(5));
}

#[test]
fn percent_rounds_down_at_each_step() {
    // 150 -> 199 -> 264 -> 351
    assert_eq!(percent_claim(10, 33, 0, 25, 150), Ok(201));
    assert_eq!(percent_claim(10, 33, 0, 0, 150), Ok(49));
    assert_eq!(percent_claim(10, 33, 0, 10, 150), Ok(114));
    // A balance too small to earn a whole token never grows.
    assert_eq!(percent_claim(1, 33, 0, 1000, 3), Ok(0));
}

#[test]
fn percent_over_the_widest_interval() {
    assert_eq!(percent_claim(1, 0, i64::MIN, i64::MAX, 5), Ok(0));
    assert_eq!(percent_claim(1, 10, i64::MIN, i64::MAX, 9), Ok(0));
    assert_eq!(percent_claim(1, 50, i64::MIN, i64::MAX, 2), Err(MyError::ArithmeticOverflow));
}

#[test]
fn percent_overflow_is_an_error() {
    assert_eq!(percent_claim(10, 100, 0, 0, u64::MAX / 50), Err(MyError::ArithmeticOverflow));
    assert_eq!(percent_claim(10, 1, 0, 0, u64::MAX), Err(MyError::ArithmeticOverflow));
    // The first step fits, the second step's product does not.
    let q = u64::MAX / 150;
    assert_eq!(percent_claim(10, 100, 0, 0, q), Ok(q));
    assert_eq!(percent_claim(10, 100, 0, 10, q), Err(MyError::ArithmeticOverflow));
    assert_eq!(percent_claim(10, 100, 0, 1_000_000, q), Err(MyError::ArithmeticOverflow));
}

#[test]
fn percent_strategy_reads_the_low_byte_of_the_rate() {
    let s = PercentUserStake::from(params(10, 0, 100));
    assert_eq!(s.percent, 100);
    assert_eq!(s.period, 10);
    assert_eq!(s.claim(0, 10, 5), Ok(15));
    let t = PercentUserStake::from(params(10, 0, 300));
    assert_eq!(t.percent, 44);
    let p = params(10, 0, 33);
    let h = History::new();
    assert_eq!(RewardPolicy::PercentUserStake.claim(&p, &h, 0, 25, 150), Ok(201));
}

#[test]
fn direct_strategy_copies_the_parameters() {
    let d = Direct::from(params(10, 3, 9));
    assert_eq!(d.period, 10);
    assert_eq!(d.units_per_token, 3);
    assert_eq!(d.rewards_per_unit, 9);
    assert_eq!(d.claim(0, 20, 7), Ok(42));
}

#[test]
fn pool_share_compounds_against_recorded_supply() {
    let h = ledger(&[(0, 1000)]);
    // 100 + (100*100/1000)*2 = 120; 120 + (120*120/1000)*2 = 148
    assert_eq!(pool_claim(&h, 10, 2, 0, 10, 100), Ok(48));
    assert_eq!(pool_claim(&h, 10, 2, 0, 9, 100), Ok(20));
    let h2 = ledger(&[(0, 1000), (10, 100)]);
    // second boundary reads a supply of 100: 120 + (14400/100)*2 = 408
    assert_eq!(pool_claim(&h2, 10, 2, 0, 10, 100), Ok(308));
    let s = PercentPool::new(params(10, 0, 2), h2);
    assert_eq!(s.period, 10);
    assert_eq!(s.reward_for_period, 2);
    assert_eq!(s.claim(0, 10, 100), Ok(308));
    let p = params(10, 0, 2);
    assert_eq!(RewardPolicy::PercentPool.claim(&p, &s.history, 0, 10, 100), Ok(308));
}

#[test]
fn pool_share_needs_history_and_supply() {
    let empty = History::new();
    assert_eq!(pool_claim(&empty, 10, 2, 0, 10, 100), Err(MyError::NoHistory));
    let late = ledger(&[(5, 1000)]);
    assert_eq!(pool_claim(&late, 10, 2, 0, 10, 100), Err(MyError::NoHistory));
    assert_eq!(pool_claim(&late, 10, 2, 5, 15, 100), Ok(48));
    // a third boundary: 148 + (148*148/1000)*2 = 190
    assert_eq!(pool_claim(&late, 10, 2, 5, 25, 100), Ok(90));
    let drained = ledger(&[(0, 1000), (10, 0)]);
    assert_eq!(pool_claim(&drained, 10, 2, 0, 9, 100), Ok(20));
    assert_eq!(pool_claim(&drained, 10, 2, 0, 10, 100), Err(MyError::DivisionByZero));
    assert_eq!(pool_claim(&drained, 10, 2, 0, 50, 100), Err(MyError::DivisionByZero));
}

#[test]
fn pool_share_overflow_is_an_error() {
    let h = ledger(&[(0, u64::MAX)]);
    assert_eq!(pool_claim(&h, 10, 2, 0, 0, 1 << 32), Err(MyError::ArithmeticOverflow));
    let one = ledger(&[(0, 1)]);
    assert_eq!(pool_claim(&one, 10, u64::MAX, 0, 0, 2), Err(MyError::ArithmeticOverflow));
    assert_eq!(pool_claim(&one, 10, 1, 0, 0, 1 << 31), Ok(1 << 62));
    // The square and the product fit, the sum does not.
    let b: u64 = (1 << 32) - 1;
    let square = ledger(&[(0, b * b)]);
    assert_eq!(pool_claim(&square, 10, u64::MAX - 10, 0, 0, b), Err(MyError::ArithmeticOverflow));
    assert_eq!(pool_claim(&square, 10, u64::MAX - b, 0, 0, b), Ok(u64::MAX - b));
    assert_eq!(pool_claim(&one, 10, 1, 0, 0, b), Ok(b * b));
}

#[test]
fn zero_stake_earns_nothing_under_every_policy() {
    let p = params(10, 5, 50);
    let empty = History::new();
    for d in 0u8..4 {
        let policy = RewardPolicy::from_discriminant(d).unwrap();
        assert_eq!(policy.claim(&p, &empty, 0, 1000, 0), Ok(0));
    }
}

#[test]
fn reward_never_falls_as_time_advances() {
    let p = params(7, 3, 10);
    let h = ledger(&[(0, 1_000_000), (20, 500_000), (45, 2_000_000)]);
    for d in 0u8..4 {
        let policy = RewardPolicy::from_discriminant(d).unwrap();
        let mut last = 0u64;
        for now in 0..60i64 {
            let r = policy.claim(&p, &h, 0, now, 1000).unwrap();
            assert!(r >= last);
            last = r;
        }
        assert!(last > 0);
    }
}
