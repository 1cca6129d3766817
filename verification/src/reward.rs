use vstd::prelude::*;
use anchor_lang::solana_program::clock::UnixTimestamp;
use crate::error::MyError;
use crate::history::{supply_at, History, Snapshot};

verus! {

/// Why an interval cannot be accrued over, if it cannot: a period that is
/// not positive comes first, then a query time before the start.
pub open spec fn interval_fault(period: i64, start_at: i64, time: i64) -> Option<MyError> {
    if period <= 0 {
        Some(MyError::InvalidConfig)
    } else if time < start_at {
        Some(MyError::InvalidInterval)
    } else {
        None
    }
}

/// Whole periods completed in `[start_at, time]`; a started period that is
/// not complete counts for nothing.
pub open spec fn periods_between(period: i64, start_at: i64, time: i64) -> int {
    (time - start_at) / (period as int)
}

/// Period boundaries in `[start_at, time]`, the one at `start_at` included.
pub open spec fn boundaries_between(period: i64, start_at: i64, time: i64) -> nat {
    (periods_between(period, start_at, time) + 1) as nat
}

/// An amount as a result: itself when it fits in 64 unsigned bits.
pub open spec fn fit(amount: int) -> Result<u64, MyError> {
    if 0 <= amount <= u64::MAX {
        Ok(amount as u64)
    } else {
        Err(MyError::ArithmeticOverflow)
    }
}

/// The completed periods of a valid interval fit in 64 unsigned bits, their
/// boundaries lie in the interval, and a later query time completes at least
/// as many.
pub proof fn lemma_periods_between(period: i64, start_at: i64, time: i64, later: i64)
    requires
        period > 0,
        start_at <= time <= later,
    ensures
        0 <= periods_between(period, start_at, time) <= u64::MAX,
        periods_between(period, start_at, time) * period <= time - start_at,
        time - start_at < (periods_between(period, start_at, time) + 1) * period,
        periods_between(period, start_at, time) <= periods_between(period, start_at, later),
{
    let p = period as int;
    let a = time - start_at;
    let b = later - start_at;
    assert(0 <= a / p <= a && a / p * p <= a && a < (a / p + 1) * p && a / p <= b / p)
        by (nonlinear_arith)
        requires
            p > 0,
            0 <= a <= b,
    ;
}

/// Counts the completed periods of an interval, after checking it.
pub fn elapsed_periods(period: UnixTimestamp, start_at: UnixTimestamp, time: UnixTimestamp) -> (r:
    Result<u64, MyError>)
    ensures
        r == (match interval_fault(period, start_at, time) {
            Some(e) => Err::<u64, MyError>(e),
            None => Ok(periods_between(period, start_at, time) as u64),
        }),
        r is Ok ==> r.unwrap() == periods_between(period, start_at, time),
{
    if period <= 0 {
        return Err(MyError::InvalidConfig);
    }
    if time < start_at {
        return Err(MyError::InvalidInterval);
    }
    proof {
        lemma_periods_between(period, start_at, time, time);
    }
    let span: u64 = (time as i128 - start_at as i128) as u64;
    let step: u64 = period as u64;
    Ok(span / step)
}

/// Reward of the direct-rate policies: the stake times the rate times the
/// completed periods, when that product fits in 64 unsigned bits.
pub open spec fn direct_claim_spec(
    period: i64,
    units_per_token: u64,
    start_at: i64,
    time: i64,
    count: u64,
) -> Result<u64, MyError> {
    match interval_fault(period, start_at, time) {
        Some(e) => Err(e),
        None => fit(count * units_per_token * periods_between(period, start_at, time)),
    }
}

/// Accrues at a fixed rate per staked token and completed period.
pub fn direct_claim(
    period: UnixTimestamp,
    units_per_token: u64,
    start_at: UnixTimestamp,
    time: UnixTimestamp,
    count: u64,
) -> (r: Result<u64, MyError>)
    ensures
        r == direct_claim_spec(period, units_per_token, start_at, time, count),
{
    let periods: u64 = match elapsed_periods(period, start_at, time) {
        Ok(k) => k,
        Err(e) => {
            return Err(e);
        },
    };
    if periods == 0 || count == 0 || units_per_token == 0 {
        assert(count * units_per_token * periods == 0) by (nonlinear_arith)
            requires
                periods == 0 || count == 0 || units_per_token == 0,
        ;
        return Ok(0);
    }
    match count.checked_mul(units_per_token) {
        None => {
            assert(count * units_per_token * periods > u64::MAX) by (nonlinear_arith)
                requires
                    count * units_per_token > u64::MAX,
                    periods >= 1,
            ;
            Err(MyError::ArithmeticOverflow)
        },
        Some(per_period) => match per_period.checked_mul(periods) {
            None => Err(MyError::ArithmeticOverflow),
            Some(amount) => Ok(amount),
        },
    }
}

/// One compounding step of the percentage policy: the balance grows by
/// `percent` hundredths of itself, rounded down. Both the product and the
/// sum must fit in 64 unsigned bits.
pub open spec fn percent_step(balance: u64, percent: u8) -> Result<u64, MyError> {
    if balance * percent > u64::MAX {
        Err(MyError::ArithmeticOverflow)
    } else {
        fit(balance + balance * percent / 100)
    }
}

/// The balance after `steps` compounding steps on a stake of `count`.
pub open spec fn compound(count: u64, percent: u8, steps: nat) -> Result<u64, MyError>
    decreases steps,
{
    if steps == 0 {
        Ok(count)
    } else {
        match compound(count, percent, (steps - 1) as nat) {
            Ok(balance) => percent_step(balance, percent),
            Err(e) => Err(e),
        }
    }
}

/// Reward of the percentage policy: what compounding once per boundary of
/// the interval adds to the stake.
pub open spec fn percent_claim_spec(
    period: i64,
    percent: u8,
    start_at: i64,
    time: i64,
    count: u64,
) -> Result<u64, MyError> {
    match interval_fault(period, start_at, time) {
        Some(e) => Err(e),
        None => match compound(count, percent, boundaries_between(period, start_at, time)) {
            Ok(balance) => Ok((balance - count) as u64),
            Err(e) => Err(e),
        },
    }
}

/// A failed compounding stays failed, with the same error, however many
/// steps follow.
pub proof fn lemma_compound_error_sticks(count: u64, percent: u8, i: nat, n: nat)
    requires
        i <= n,
        compound(count, percent, i) is Err,
    ensures
        compound(count, percent, n) == compound(count, percent, i),
    decreases n,
{
    if i < n {
        lemma_compound_error_sticks(count, percent, i, (n - 1) as nat);
    }
}

/// Compounding never shrinks a balance: where `n` steps succeed, so do any
/// fewer, with a balance that is no larger and at least the stake.
pub proof fn lemma_compound_grows(count: u64, percent: u8, i: nat, n: nat)
    requires
        i <= n,
        compound(count, percent, n) is Ok,
    ensures
        compound(count, percent, i) is Ok,
        count <= compound(count, percent, i).unwrap() <= compound(count, percent, n).unwrap(),
    decreases n,
{
    if n > 0 {
        let before = compound(count, percent, (n - 1) as nat);
        assert(before is Ok);
        let b = before.unwrap();
        assert(b * percent / 100 >= 0) by (nonlinear_arith)
            requires
                b >= 0,
                percent >= 0,
        ;
        if i < n {
            lemma_compound_grows(count, percent, i, (n - 1) as nat);
        } else {
            lemma_compound_grows(count, percent, 0, (n - 1) as nat);
        }
    }
}

/// A balance that a step leaves unchanged stays unchanged for good.
pub proof fn lemma_compound_settles(count: u64, percent: u8, balance: u64, i: nat, n: nat)
    requires
        i <= n,
        compound(count, percent, i) == Ok::<u64, MyError>(balance),
        percent_step(balance, percent) == Ok::<u64, MyError>(balance),
    ensures
        compound(count, percent, n) == Ok::<u64, MyError>(balance),
    decreases n,
{
    if i < n {
        lemma_compound_settles(count, percent, balance, i, (n - 1) as nat);
    }
}

fn percent_step_exec(balance: u64, percent: u8) -> (r: Result<u64, MyError>)
    ensures
        r == percent_step(balance, percent),
{
    match balance.checked_mul(percent as u64) {
        None => Err(MyError::ArithmeticOverflow),
        Some(scaled) => match balance.checked_add(scaled / 100) {
            None => Err(MyError::ArithmeticOverflow),
            Some(grown) => Ok(grown),
        },
    }
}

/// Accrues by compounding `percent` per cent of the running balance at each
/// period boundary of the interval, the one at `start_at` included.
pub fn percent_claim(
    period: UnixTimestamp,
    percent: u8,
    start_at: UnixTimestamp,
    time: UnixTimestamp,
    count: u64,
) -> (r: Result<u64, MyError>)
    ensures
        r == percent_claim_spec(period, percent, start_at, time, count),
{
    let periods: u64 = match elapsed_periods(period, start_at, time) {
        Ok(k) => k,
        Err(e) => {
            return Err(e);
        },
    };
    let steps: u128 = periods as u128 + 1;
    let mut balance: u64 = count;
    let mut i: u128 = 0;
    while i < steps
        invariant
            i <= steps,
            interval_fault(period, start_at, time) is None,
            steps == boundaries_between(period, start_at, time),
            compound(count, percent, i as nat) == Ok::<u64, MyError>(balance),
        decreases steps - i,
    {
        assert(compound(count, percent, (i + 1) as nat) == percent_step(balance, percent)) by {
            assert(((i + 1) as nat - 1) as nat == i as nat);
        }
        match percent_step_exec(balance, percent) {
            Ok(grown) => {
                if grown == balance {
                    proof {
                        lemma_compound_settles(count, percent, balance, i as nat, steps as nat);
                        lemma_compound_grows(count, percent, 0, steps as nat);
                    }
                    return Ok(balance - count);
                }
                balance = grown;
            },
            Err(e) => {
                proof {
                    lemma_compound_error_sticks(count, percent, (i + 1) as nat, steps as nat);
                }
                return Err(e);
            },
        }
        i = i + 1;
    }
    proof {
        lemma_compound_grows(count, percent, 0, steps as nat);
    }
    Ok(balance - count)
}

/// One compounding step of the pool-share policy at a boundary where
/// `total` was staked in the whole pool: the balance grows by its own square
/// over that total, rounded down, times the budget of a period. A boundary
/// without a recorded total, or with a total of zero, is an error; so is any
/// intermediate amount that does not fit in 64 unsigned bits.
pub open spec fn pool_step(balance: u64, total: Option<u64>, reward_for_period: u64) -> Result<
    u64,
    MyError,
> {
    match total {
        None => Err(MyError::NoHistory),
        Some(t) => if t == 0 {
            Err(MyError::DivisionByZero)
        } else if balance * balance > u64::MAX {
            Err(MyError::ArithmeticOverflow)
        } else if (balance * balance) / (t as int) * reward_for_period > u64::MAX {
            Err(MyError::ArithmeticOverflow)
        } else {
            fit(balance + (balance * balance) / (t as int) * reward_for_period)
        },
    }
}

/// The balance after the first `steps` boundaries `start_at`,
/// `start_at + period`, ... on a stake of `count`, each step reading the
/// supply in effect at its boundary.
pub open spec fn pool_compound(
    snaps: Seq<Snapshot>,
    period: i64,
    reward_for_period: u64,
    start_at: i64,
    count: u64,
    steps: nat,
) -> Result<u64, MyError>
    decreases steps,
{
    if steps == 0 {
        Ok(count)
    } else {
        match pool_compound(snaps, period, reward_for_period, start_at, count, (steps - 1) as nat) {
            Ok(balance) => pool_step(
                balance,
                supply_at(snaps, start_at + (steps - 1) * period),
                reward_for_period,
            ),
            Err(e) => Err(e),
        }
    }
}

/// Reward of the pool-share policy: nothing on a stake of zero, and else
/// what compounding once per boundary of the interval adds to the stake.
pub open spec fn pool_claim_spec(
    snaps: Seq<Snapshot>,
    period: i64,
    reward_for_period: u64,
    start_at: i64,
    time: i64,
    count: u64,
) -> Result<u64, MyError> {
    match interval_fault(period, start_at, time) {
        Some(e) => Err(e),
        None => if count == 0 {
            Ok(0)
        } else {
            match pool_compound(
                snaps,
                period,
                reward_for_period,
                start_at,
                count,
                boundaries_between(period, start_at, time),
            ) {
                Ok(balance) => Ok((balance - count) as u64),
                Err(e) => Err(e),
            }
        },
    }
}

/// A failed pool-share compounding stays failed, with the same error,
/// however many boundaries follow.
pub proof fn lemma_pool_error_sticks(
    snaps: Seq<Snapshot>,
    period: i64,
    reward_for_period: u64,
    start_at: i64,
    count: u64,
    i: nat,
    n: nat,
)
    requires
        i <= n,
        pool_compound(snaps, period, reward_for_period, start_at, count, i) is Err,
    ensures
        pool_compound(snaps, period, reward_for_period, start_at, count, n) == pool_compound(
            snaps,
            period,
            reward_for_period,
            start_at,
            count,
            i,
        ),
    decreases n,
{
    if i < n {
        lemma_pool_error_sticks(
            snaps,
            period,
            reward_for_period,
            start_at,
            count,
            i,
            (n - 1) as nat,
        );
    }
}

/// Pool-share compounding never shrinks a balance: where `n` boundaries
/// succeed, so do any fewer, with a balance that is no larger and at least
/// the stake.
pub proof fn lemma_pool_grows(
    snaps: Seq<Snapshot>,
    period: i64,
    reward_for_period: u64,
    start_at: i64,
    count: u64,
    i: nat,
    n: nat,
)
    requires
        i <= n,
        pool_compound(snaps, period, reward_for_period, start_at, count, n) is Ok,
    ensures
        pool_compound(snaps, period, reward_for_period, start_at, count, i) is Ok,
        count <= pool_compound(snaps, period, reward_for_period, start_at, count, i).unwrap()
            <= pool_compound(snaps, period, reward_for_period, start_at, count, n).unwrap(),
    decreases n,
{
    if n > 0 {
        let before = pool_compound(
            snaps,
            period,
            reward_for_period,
            start_at,
            count,
            (n - 1) as nat,
        );
        assert(before is Ok);
        let b = before.unwrap();
        let total = supply_at(snaps, start_at + (n - 1) * period);
        assert(total is Some && total.unwrap() > 0);
        let t = total.unwrap();
        assert((b * b) / (t as int) * reward_for_period >= 0) by (nonlinear_arith)
            requires
                b >= 0,
                t > 0,
                reward_for_period >= 0,
        ;
        if i < n {
            lemma_pool_grows(snaps, period, reward_for_period, start_at, count, i, (n - 1) as nat);
        } else {
            lemma_pool_grows(snaps, period, reward_for_period, start_at, count, 0, (n - 1) as nat);
        }
    }
}

fn pool_step_exec(balance: u64, total: Result<u64, MyError>, reward_for_period: u64) -> (r: Result<
    u64,
    MyError,
>)
    requires
        total is Err ==> total == Err::<u64, MyError>(MyError::NoHistory),
    ensures
        r == pool_step(
            balance,
            match total {
                Ok(t) => Some(t),
                Err(_) => None,
            },
            reward_for_period,
        ),
{
    let t: u64 = match total {
        Ok(t) => t,
        Err(e) => {
            return Err(e);
        },
    };
    if t == 0 {
        return Err(MyError::DivisionByZero);
    }
    match balance.checked_mul(balance) {
        None => Err(MyError::ArithmeticOverflow),
        Some(square) => match (square / t).checked_mul(reward_for_period) {
            None => Err(MyError::ArithmeticOverflow),
            Some(gain) => match balance.checked_add(gain) {
                None => Err(MyError::ArithmeticOverflow),
                Some(grown) => Ok(grown),
            },
        },
    }
}

/// Accrues a share of the per-period budget at each period boundary of the
/// interval, the one at `start_at` included, against the pool's supply in
/// effect at that boundary.
pub fn pool_claim(
    history: &History,
    period: UnixTimestamp,
    reward_for_period: u64,
    start_at: UnixTimestamp,
    time: UnixTimestamp,
    count: u64,
) -> (r: Result<u64, MyError>)
    requires
        history.wf(),
    ensures
        r == pool_claim_spec(history@, period, reward_for_period, start_at, time, count),
{
    let periods: u64 = match elapsed_periods(period, start_at, time) {
        Ok(k) => k,
        Err(e) => {
            return Err(e);
        },
    };
    if count == 0 {
        return Ok(0);
    }
    proof {
        lemma_periods_between(period, start_at, time, time);
    }
    let steps: u128 = periods as u128 + 1;
    let mut balance: u64 = count;
    let mut i: u128 = 0;
    while i < steps
        invariant
            i <= steps,
            count != 0,
            history.wf(),
            interval_fault(period, start_at, time) is None,
            steps == boundaries_between(period, start_at, time),
            (steps - 1) * period <= time - start_at,
            pool_compound(history@, period, reward_for_period, start_at, count, i as nat) == Ok::<
                u64,
                MyError,
            >(balance),
        decreases steps - i,
    {
        assert(0 <= i * period <= time - start_at) by (nonlinear_arith)
            requires
                0 <= i <= steps - 1,
                period > 0,
                (steps - 1) * period <= time - start_at,
        ;
        let boundary: i64 = (start_at as i128 + (i as i128) * (period as i128)) as i64;
        assert(pool_compound(
            history@,
            period,
            reward_for_period,
            start_at,
            count,
            (i + 1) as nat,
        ) == pool_step(balance, supply_at(history@, boundary as int), reward_for_period)) by {
            assert(((i + 1) as nat - 1) as nat == i as nat);
        }
        match pool_step_exec(balance, history.at_epoch(boundary), reward_for_period) {
            Ok(grown) => {
                balance = grown;
            },
            Err(e) => {
                proof {
                    lemma_pool_error_sticks(
                        history@,
                        period,
                        reward_for_period,
                        start_at,
                        count,
                        (i + 1) as nat,
                        steps as nat,
                    );
                }
                return Err(e);
            },
        }
        i = i + 1;
    }
    proof {
        lemma_pool_grows(history@, period, reward_for_period, start_at, count, 0, steps as nat);
    }
    Ok(balance - count)
}

/// The direct-rate reward in closed form. Over an interval of exactly `k`
/// periods it is `count * units_per_token * k`, and `ArithmeticOverflow`
/// exactly when that product does not fit in 64 unsigned bits; so it is
/// zero over an empty interval, whatever the stake.
pub proof fn lemma_direct_whole_periods(
    period: i64,
    units_per_token: u64,
    start_at: i64,
    time: i64,
    count: u64,
    k: int,
)
    requires
        period > 0,
        k >= 0,
        time == start_at + k * period,
    ensures
        direct_claim_spec(period, units_per_token, start_at, time, count) == fit(
            count * units_per_token * k,
        ),
        direct_claim_spec(period, units_per_token, start_at, start_at, count) == Ok::<u64, MyError>(
            0,
        ),
        count * units_per_token * k > u64::MAX <==> direct_claim_spec(
            period,
            units_per_token,
            start_at,
            time,
            count,
        ) == Err::<u64, MyError>(MyError::ArithmeticOverflow),
{
    let p = period as int;
    assert((k * p) / p == k && k * p >= 0 && 0int / p == 0) by (nonlinear_arith)
        requires
            p > 0,
            k >= 0,
    ;
    assert(count * units_per_token * 0 == 0) by (nonlinear_arith);
    assert(count * units_per_token * k >= 0) by (nonlinear_arith)
        requires
            k >= 0,
            count >= 0,
            units_per_token >= 0,
    ;
}

/// Over any valid interval the direct-rate reward fails with
/// `ArithmeticOverflow` exactly when stake times rate times completed
/// periods exceeds 64 unsigned bits, and is that product otherwise; it never
/// wraps.
pub proof fn lemma_direct_overflow(
    period: i64,
    units_per_token: u64,
    start_at: i64,
    time: i64,
    count: u64,
)
    requires
        interval_fault(period, start_at, time) is None,
    ensures
        ({
            let product = count * units_per_token * periods_between(period, start_at, time);
            let r = direct_claim_spec(period, units_per_token, start_at, time, count);
            &&& product > u64::MAX <==> r == Err::<u64, MyError>(MyError::ArithmeticOverflow)
            &&& product <= u64::MAX <==> r == Ok::<u64, MyError>(product as u64)
            &&& r is Ok ==> r.unwrap() == product
        }),
{
    lemma_periods_between(period, start_at, time, time);
    let k = periods_between(period, start_at, time);
    assert(count * units_per_token * k >= 0) by (nonlinear_arith)
        requires
            k >= 0,
            count >= 0,
            units_per_token >= 0,
    ;
}

/// A period that has started but is not complete earns nothing under the
/// direct-rate policies.
pub proof fn lemma_direct_partial_period(
    period: i64,
    units_per_token: u64,
    start_at: i64,
    time: i64,
    count: u64,
)
    requires
        period > 0,
        start_at <= time < start_at + period,
    ensures
        direct_claim_spec(period, units_per_token, start_at, time, count) == Ok::<u64, MyError>(0),
{
    let p = period as int;
    let a = time - start_at;
    assert(a / p == 0) by (nonlinear_arith)
        requires
            0 <= a < p,
    ;
    assert(count * units_per_token * 0 == 0) by (nonlinear_arith);
}

/// The direct-rate reward never falls as the query time advances: where the
/// later query succeeds, so does every earlier one that is not before the
/// start, with a reward that is no larger.
pub proof fn lemma_direct_monotone(
    period: i64,
    units_per_token: u64,
    start_at: i64,
    earlier: i64,
    later: i64,
    count: u64,
)
    requires
        start_at <= earlier <= later,
    ensures
        direct_claim_spec(period, units_per_token, start_at, later, count) is Ok ==> {
            &&& direct_claim_spec(period, units_per_token, start_at, earlier, count) is Ok
            &&& direct_claim_spec(period, units_per_token, start_at, earlier, count).unwrap()
                <= direct_claim_spec(period, units_per_token, start_at, later, count).unwrap()
        },
{
    if period > 0 {
        lemma_periods_between(period, start_at, earlier, later);
        let k1 = periods_between(period, start_at, earlier);
        let k2 = periods_between(period, start_at, later);
        assert(0 <= count * units_per_token * k1 <= count * units_per_token * k2)
            by (nonlinear_arith)
            requires
                0 <= k1 <= k2,
                count >= 0,
                units_per_token >= 0,
        ;
    }
}

/// At a rate of zero per cent the percentage policy earns nothing, however
/// long the interval.
pub proof fn lemma_percent_zero_rate(period: i64, start_at: i64, time: i64, count: u64)
    requires
        interval_fault(period, start_at, time) is None,
    ensures
        percent_claim_spec(period, 0, start_at, time, count) == Ok::<u64, MyError>(0),
{
    lemma_compound_zero_rate(count, boundaries_between(period, start_at, time));
}

/// Compounding at zero per cent leaves the balance at the stake.
pub proof fn lemma_compound_zero_rate(count: u64, steps: nat)
    ensures
        compound(count, 0, steps) == Ok::<u64, MyError>(count),
    decreases steps,
{
    if steps > 0 {
        lemma_compound_zero_rate(count, (steps - 1) as nat);
        assert(count * 0 == 0 && 0int / 100 == 0) by (nonlinear_arith);
    }
}

/// At a rate of one hundred per cent an interval of exactly one period has
/// two boundaries, so the balance doubles twice: the reward is three times
/// the stake when the second step's product, two hundred times the stake,
/// fits in 64 unsigned bits, and `ArithmeticOverflow` otherwise. It equals
/// the stake only for a stake of zero.
pub proof fn lemma_percent_full_rate_one_period(period: i64, start_at: i64, time: i64, count: u64)
    requires
        period > 0,
        time == start_at + period,
    ensures
        percent_claim_spec(period, 100, start_at, time, count) == (if 200 * count <= u64::MAX {
            Ok::<u64, MyError>((3 * count) as u64)
        } else {
            Err(MyError::ArithmeticOverflow)
        }),
        percent_claim_spec(period, 100, start_at, time, count) == Ok::<u64, MyError>(count)
            <==> count == 0,
{
    let p = period as int;
    assert(p / p == 1) by (nonlinear_arith)
        requires
            p > 0,
    ;
    assert(boundaries_between(period, start_at, time) == 2);
    reveal_with_fuel(compound, 3);
    assert(count * 100 / 100 == count) by (nonlinear_arith);
    if 2 * count <= u64::MAX {
        let twice = (2 * count) as u64;
        assert(twice * 100 / 100 == twice) by (nonlinear_arith);
        assert(twice * 100 == 200 * count && count * 100 <= 200 * count) by (nonlinear_arith)
            requires
                twice == 2 * count,
                count >= 0,
        ;
    }
}

/// The percentage reward never falls as the query time advances: where the
/// later query succeeds, so does every earlier one that is not before the
/// start, with a reward that is no larger.
pub proof fn lemma_percent_monotone(
    period: i64,
    percent: u8,
    start_at: i64,
    earlier: i64,
    later: i64,
    count: u64,
)
    requires
        start_at <= earlier <= later,
    ensures
        percent_claim_spec(period, percent, start_at, later, count) is Ok ==> {
            &&& percent_claim_spec(period, percent, start_at, earlier, count) is Ok
            &&& percent_claim_spec(period, percent, start_at, earlier, count).unwrap()
                <= percent_claim_spec(period, percent, start_at, later, count).unwrap()
        },
{
    if percent_claim_spec(period, percent, start_at, later, count) is Ok {
        lemma_periods_between(period, start_at, earlier, later);
        let n1 = boundaries_between(period, start_at, earlier);
        let n2 = boundaries_between(period, start_at, later);
        lemma_compound_grows(count, percent, n1, n2);
        lemma_compound_grows(count, percent, 0, n2);
    }
}

/// The pool-share reward never falls as the query time advances: where the
/// later query succeeds, so does every earlier one that is not before the
/// start, with a reward that is no larger.
pub proof fn lemma_pool_monotone(
    snaps: Seq<Snapshot>,
    period: i64,
    reward_for_period: u64,
    start_at: i64,
    earlier: i64,
    later: i64,
    count: u64,
)
    requires
        start_at <= earlier <= later,
    ensures
        pool_claim_spec(snaps, period, reward_for_period, start_at, later, count) is Ok ==> {
            &&& pool_claim_spec(snaps, period, reward_for_period, start_at, earlier, count) is Ok
            &&& pool_claim_spec(snaps, period, reward_for_period, start_at, earlier, count).unwrap()
                <= pool_claim_spec(
                snaps,
                period,
                reward_for_period,
                start_at,
                later,
                count,
            ).unwrap()
        },
{
    if count != 0 && pool_claim_spec(snaps, period, reward_for_period, start_at, later, count)
        is Ok {
        lemma_periods_between(period, start_at, earlier, later);
        let n1 = boundaries_between(period, start_at, earlier);
        let n2 = boundaries_between(period, start_at, later);
        lemma_pool_grows(snaps, period, reward_for_period, start_at, count, n1, n2);
        lemma_pool_grows(snaps, period, reward_for_period, start_at, count, 0, n2);
    }
}

/// A stake of zero earns nothing under any formula, over any valid
/// interval.
pub proof fn lemma_zero_stake(
    snaps: Seq<Snapshot>,
    period: i64,
    rate: u64,
    percent: u8,
    start_at: i64,
    time: i64,
)
    requires
        interval_fault(period, start_at, time) is None,
    ensures
        direct_claim_spec(period, rate, start_at, time, 0) == Ok::<u64, MyError>(0),
        percent_claim_spec(period, percent, start_at, time, 0) == Ok::<u64, MyError>(0),
        pool_claim_spec(snaps, period, rate, start_at, time, 0) == Ok::<u64, MyError>(0),
{
    let k = periods_between(period, start_at, time);
    assert(0 * rate * k == 0) by (nonlinear_arith);
    lemma_compound_zero_stake(percent, boundaries_between(period, start_at, time));
}

/// Compounding a stake of zero leaves a balance of zero.
pub proof fn lemma_compound_zero_stake(percent: u8, steps: nat)
    ensures
        compound(0, percent, steps) == Ok::<u64, MyError>(0),
    decreases steps,
{
    if steps > 0 {
        lemma_compound_zero_stake(percent, (steps - 1) as nat);
        assert(0 * percent == 0 && 0int / 100 == 0) by (nonlinear_arith);
    }
}

} // verus!
