use vstd::prelude::*;
use vstd::std_specs::convert::{FromSpec, FromSpecImpl};
use anchor_lang::solana_program::clock::UnixTimestamp;
use crate::error::MyError;
use crate::history::{History, Snapshot};
use crate::params::{Params, RewardPolicy};
use crate::reward::{
    direct_claim, direct_claim_spec, lemma_direct_monotone, lemma_percent_monotone,
    lemma_pool_monotone, percent_claim, percent_claim_spec, pool_claim, pool_claim_spec,
};

verus! {

/// A reward strategy: from the start of a stake, the query time and the
/// staked quantity to the reward owed, or the reason why none can be
/// computed.
pub trait Claimer {
    /// What the strategy needs of its own state before it can be asked.
    spec fn wf(&self) -> bool;

    /// The reward this strategy owes, as a function of its state and inputs.
    spec fn claim_spec(&self, start_at: i64, time: i64, count: u64) -> Result<u64, MyError>;

    fn claim(&self, start_at: UnixTimestamp, time: UnixTimestamp, count: u64) -> (r: Result<
        u64,
        MyError,
    >)
        requires
            self.wf(),
        ensures
            r == self.claim_spec(start_at, time, count),
    ;
}

/// Fixed rate per staked token and completed period. Serves both
/// direct-rate policies, which differ only in the asset that is paid out.
pub struct Direct {
    pub period: UnixTimestamp,
    pub units_per_token: u64,
    pub rewards_per_unit: u64,
}

impl From<Params> for Direct {
    fn from(p: Params) -> (d: Self) {
        Self {
            period: p.period,
            units_per_token: p.units_per_token,
            rewards_per_unit: p.rewards_per_unit,
        }
    }
}

impl FromSpecImpl<Params> for Direct {
    open spec fn obeys_from_spec() -> bool {
        true
    }

    open spec fn from_spec(p: Params) -> Self {
        Direct {
            period: p.period,
            units_per_token: p.units_per_token,
            rewards_per_unit: p.rewards_per_unit,
        }
    }
}

impl Claimer for Direct {
    open spec fn wf(&self) -> bool {
        true
    }

    open spec fn claim_spec(&self, start_at: i64, time: i64, count: u64) -> Result<u64, MyError> {
        direct_claim_spec(self.period, self.units_per_token, start_at, time, count)
    }

    fn claim(&self, start_at: UnixTimestamp, time: UnixTimestamp, count: u64) -> (r: Result<
        u64,
        MyError,
    >) {
        direct_claim(self.period, self.units_per_token, start_at, time, count)
    }
}

/// The percentage that a policy's `rewards_per_unit` stands for: its lowest
/// eight bits.
pub open spec fn percent_of(rewards_per_unit: u64) -> u8 {
    (rewards_per_unit % 256) as u8
}

/// Compounding percentage of the participant's own stake, once per period
/// boundary.
pub struct PercentUserStake {
    pub percent: u8,
    pub period: UnixTimestamp,
}

impl From<Params> for PercentUserStake {
    fn from(p: Params) -> (s: Self) {
        Self { percent: (p.rewards_per_unit % 256) as u8, period: p.period }
    }
}

impl FromSpecImpl<Params> for PercentUserStake {
    open spec fn obeys_from_spec() -> bool {
        true
    }

    open spec fn from_spec(p: Params) -> Self {
        PercentUserStake { percent: percent_of(p.rewards_per_unit), period: p.period }
    }
}

impl Claimer for PercentUserStake {
    open spec fn wf(&self) -> bool {
        true
    }

    open spec fn claim_spec(&self, start_at: i64, time: i64, count: u64) -> Result<u64, MyError> {
        percent_claim_spec(self.period, self.percent, start_at, time, count)
    }

    fn claim(&self, start_at: UnixTimestamp, time: UnixTimestamp, count: u64) -> (r: Result<
        u64,
        MyError,
    >) {
        percent_claim(self.period, self.percent, start_at, time, count)
    }
}

/// Share of a fixed per-period budget, measured against the pool's
/// recorded supply at each period boundary.
pub struct PercentPool {
    pub period: UnixTimestamp,
    pub history: History,
    pub reward_for_period: u64,
}

impl PercentPool {
    /// The pool-share strategy of `p` over the ledger `history`: the budget
    /// of a period is `p.rewards_per_unit`.
    pub fn new(p: Params, history: History) -> (s: Self)
        ensures
            s.period == p.period,
            s.reward_for_period == p.rewards_per_unit,
            s.history == history,
    {
        Self { period: p.period, history, reward_for_period: p.rewards_per_unit }
    }
}

impl Claimer for PercentPool {
    open spec fn wf(&self) -> bool {
        self.history.wf()
    }

    open spec fn claim_spec(&self, start_at: i64, time: i64, count: u64) -> Result<u64, MyError> {
        pool_claim_spec(self.history@, self.period, self.reward_for_period, start_at, time, count)
    }

    fn claim(&self, start_at: UnixTimestamp, time: UnixTimestamp, count: u64) -> (r: Result<
        u64,
        MyError,
    >) {
        pool_claim(&self.history, self.period, self.reward_for_period, start_at, time, count)
    }
}

/// The reward that `policy` owes under `params`, with `snaps` as the pool's
/// ledger: each variant reads the parameters through its own formula.
pub open spec fn policy_claim_spec(
    policy: RewardPolicy,
    params: Params,
    snaps: Seq<Snapshot>,
    start_at: i64,
    time: i64,
    count: u64,
) -> Result<u64, MyError> {
    match policy {
        RewardPolicy::DirectSameToken | RewardPolicy::DirectAnotherToken => direct_claim_spec(
            params.period,
            params.units_per_token,
            start_at,
            time,
            count,
        ),
        RewardPolicy::PercentUserStake => percent_claim_spec(
            params.period,
            percent_of(params.rewards_per_unit),
            start_at,
            time,
            count,
        ),
        RewardPolicy::PercentPool => pool_claim_spec(
            snaps,
            params.period,
            params.rewards_per_unit,
            start_at,
            time,
            count,
        ),
    }
}

impl RewardPolicy {
    /// Computes the reward owed under this policy for `count` tokens staked
    /// from `start_at` and queried at `time`. Only the pool-share policy
    /// reads `history`.
    pub fn claim(
        self,
        params: &Params,
        history: &History,
        start_at: UnixTimestamp,
        time: UnixTimestamp,
        count: u64,
    ) -> (r: Result<u64, MyError>)
        requires
            history.wf(),
        ensures
            r == policy_claim_spec(self, *params, history@, start_at, time, count),
    {
        match self {
            RewardPolicy::DirectSameToken | RewardPolicy::DirectAnotherToken => direct_claim(
                params.period,
                params.units_per_token,
                start_at,
                time,
                count,
            ),
            RewardPolicy::PercentUserStake => percent_claim(
                params.period,
                (params.rewards_per_unit % 256) as u8,
                start_at,
                time,
                count,
            ),
            RewardPolicy::PercentPool => pool_claim(
                history,
                params.period,
                params.rewards_per_unit,
                start_at,
                time,
                count,
            ),
        }
    }
}

/// Asking a policy directly and asking the strategy built from the same
/// parameters give the same answer.
pub proof fn lemma_policy_matches_strategy(
    params: Params,
    history: History,
    start_at: i64,
    time: i64,
    count: u64,
)
    ensures
        <Direct as FromSpec<Params>>::from_spec(params).claim_spec(start_at, time, count) == policy_claim_spec(
            RewardPolicy::DirectSameToken,
            params,
            history@,
            start_at,
            time,
            count,
        ),
        <Direct as FromSpec<Params>>::from_spec(params).claim_spec(start_at, time, count) == policy_claim_spec(
            RewardPolicy::DirectAnotherToken,
            params,
            history@,
            start_at,
            time,
            count,
        ),
        <PercentUserStake as FromSpec<Params>>::from_spec(params).claim_spec(start_at, time, count) == policy_claim_spec(
            RewardPolicy::PercentUserStake,
            params,
            history@,
            start_at,
            time,
            count,
        ),
        (PercentPool {
            period: params.period,
            history,
            reward_for_period: params.rewards_per_unit,
        }).claim_spec(start_at, time, count) == policy_claim_spec(
            RewardPolicy::PercentPool,
            params,
            history@,
            start_at,
            time,
            count,
        ),
{
}

/// Under every policy the reward never falls as the query time advances,
/// the start and the stake held fixed: where the later query succeeds, so
/// does every earlier one that is not before the start, with a reward that
/// is no larger.
pub proof fn lemma_claim_monotone(
    policy: RewardPolicy,
    params: Params,
    snaps: Seq<Snapshot>,
    start_at: i64,
    earlier: i64,
    later: i64,
    count: u64,
)
    requires
        start_at <= earlier <= later,
    ensures
        policy_claim_spec(policy, params, snaps, start_at, later, count) is Ok ==> {
            &&& policy_claim_spec(policy, params, snaps, start_at, earlier, count) is Ok
            &&& policy_claim_spec(policy, params, snaps, start_at, earlier, count).unwrap()
                <= policy_claim_spec(policy, params, snaps, start_at, later, count).unwrap()
        },
{
    match policy {
        RewardPolicy::DirectSameToken | RewardPolicy::DirectAnotherToken => {
            lemma_direct_monotone(
                params.period,
                params.units_per_token,
                start_at,
                earlier,
                later,
                count,
            );
        },
        RewardPolicy::PercentUserStake => {
            lemma_percent_monotone(
                params.period,
                percent_of(params.rewards_per_unit),
                start_at,
                earlier,
                later,
                count,
            );
        },
        RewardPolicy::PercentPool => {
            lemma_pool_monotone(
                snaps,
                params.period,
                params.rewards_per_unit,
                start_at,
                earlier,
                later,
                count,
            );
        },
    }
}

} // verus!
