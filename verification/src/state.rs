use vstd::prelude::*;
use anchor_lang::prelude::Pubkey;
use anchor_lang::solana_program::clock::UnixTimestamp;
use crate::error::MyError;
use crate::params::{policy_of, Params, RewardPolicy};

verus! {

/// The operator of the factory and the share of each reward that is set
/// aside for it.
#[derive(Copy, Clone, Default, Debug)]
pub struct FactoryCreator {
    pub authority: Pubkey,
    pub fee_percent: u8,
}

/// A staking pool: a reward policy bound to a staked asset and to the three
/// token accounts that hold staked, free and reward balances.
#[derive(Copy, Clone, Debug)]
pub struct Staking {
    pub authority: Pubkey,
    pub mint: Pubkey,
    pub reward_token_account: Pubkey,
    pub staked_token_account: Pubkey,
    pub free_token_account: Pubkey,
    pub policy_params: Params,
    pub policy_type: RewardPolicy,
    pub factory_creator_fee_percent: u8,
    pub factory_creator: Pubkey,
}

impl Staking {
    /// Bytes a stored pool takes: six addresses, the policy's discriminant,
    /// its parameters, and the fee.
    pub fn space() -> (n: usize)
        ensures
            n == 250,
    {
        32 + 32 + 32 + 32 + 32 + 1 + Params::space() + 1 + 32
    }

    /// Copies the factory operator and its fee into the pool.
    pub fn add_factory_creator(&mut self, fc: FactoryCreator)
        ensures
            *final(self) == (Staking {
                factory_creator: fc.authority,
                factory_creator_fee_percent: fc.fee_percent,
                ..*old(self)
            }),
    {
        self.factory_creator = fc.authority;
        self.factory_creator_fee_percent = fc.fee_percent;
    }
}

/// One participant's position in one pool.
#[derive(Copy, Clone, Debug)]
pub struct UserAccount {
    pub authority: Pubkey,
    pub staked: u64,
    pub free: u64,
    pub start_at: Option<UnixTimestamp>,
    pub end_at: Option<UnixTimestamp>,
}

impl UserAccount {
    /// Bytes a stored position takes: the address, two balances, and two
    /// optional timestamps of nine bytes each.
    pub fn space() -> (n: usize)
        ensures
            n == 66,
    {
        32 + 8 + 8 + 9 + 9
    }
}

/// Registers the factory operator `factory_creator` with its fee.
pub fn initialize(creator_pda: &mut FactoryCreator, factory_creator: Pubkey, fee_percent: u8)
    ensures
        *final(creator_pda) == (FactoryCreator { authority: factory_creator, fee_percent }),
{
    creator_pda.fee_percent = fee_percent;
    creator_pda.authority = factory_creator;
}

/// The addresses a new pool is bound to.
#[derive(Copy, Clone, Debug)]
pub struct StakingAddresses {
    pub stacking_creator: Pubkey,
    pub stacking_mint: Pubkey,
    pub reward_mint: Pubkey,
    pub general_reward_pool: Pubkey,
    pub general_stake_pool: Pubkey,
    pub general_free_pool: Pubkey,
}

/// The pool that `create_staking` writes for a known policy and a positive
/// period.
pub open spec fn created_staking(
    factory_creator: FactoryCreator,
    addresses: StakingAddresses,
    policy: RewardPolicy,
    period: i64,
    units_per_token: u64,
    rewards_per_unit: u64,
) -> Staking {
    Staking {
        authority: addresses.stacking_creator,
        mint: addresses.stacking_mint,
        reward_token_account: addresses.general_reward_pool,
        staked_token_account: addresses.general_stake_pool,
        free_token_account: addresses.general_free_pool,
        policy_params: Params {
            reward_mint: addresses.reward_mint,
            period,
            units_per_token,
            rewards_per_unit,
        },
        policy_type: policy,
        factory_creator_fee_percent: factory_creator.fee_percent,
        factory_creator: factory_creator.authority,
    }
}

/// Fills a new pool. A discriminant above 3 is refused with `UnknownPolicy`;
/// after that, a period that is not positive with `InvalidConfig`. A refused
/// call leaves the pool as it was.
pub fn create_staking(
    staking: &mut Staking,
    factory_creator: FactoryCreator,
    addresses: StakingAddresses,
    reward_policy_type: u8,
    period: UnixTimestamp,
    units_per_token: u64,
    rewards_per_unit: u64,
) -> (r: Result<(), MyError>)
    ensures
        reward_policy_type > 3 ==> r == Err::<(), MyError>(MyError::UnknownPolicy),
        reward_policy_type <= 3 && period <= 0 ==> r == Err::<(), MyError>(MyError::InvalidConfig),
        reward_policy_type <= 3 && period > 0 ==> r is Ok,
        r is Err ==> *final(staking) == *old(staking),
        r is Ok ==> *final(staking) == created_staking(
            factory_creator,
            addresses,
            policy_of(reward_policy_type).unwrap(),
            period,
            units_per_token,
            rewards_per_unit,
        ),
{
    let policy: RewardPolicy = match RewardPolicy::from_discriminant(reward_policy_type) {
        Ok(p) => p,
        Err(e) => {
            return Err(e);
        },
    };
    let params: Params = match Params::new(
        addresses.reward_mint,
        period,
        units_per_token,
        rewards_per_unit,
    ) {
        Ok(p) => p,
        Err(e) => {
            return Err(e);
        },
    };
    staking.add_factory_creator(factory_creator);
    staking.authority = addresses.stacking_creator;
    staking.mint = addresses.stacking_mint;
    staking.policy_type = policy;
    staking.policy_params = params;
    staking.reward_token_account = addresses.general_reward_pool;
    staking.staked_token_account = addresses.general_stake_pool;
    staking.free_token_account = addresses.general_free_pool;
    Ok(())
}

/// Hands a new position to `user`.
pub fn create_user_account(account: &mut UserAccount, user: Pubkey)
    ensures
        *final(account) == (UserAccount { authority: user, ..*old(account) }),
{
    account.authority = user;
}

/// Credits `amount` to the free balance of a position, once the tokens have
/// been moved. A balance that would not fit in 64 unsigned bits is refused
/// with `ArithmeticOverflow`, and the position stays as it was.
pub fn deposit(account: &mut UserAccount, amount: u64) -> (r: Result<(), MyError>)
    ensures
        old(account).free + amount <= u64::MAX ==> r is Ok && *final(account) == (UserAccount {
            free: (old(account).free + amount) as u64,
            ..*old(account)
        }),
        old(account).free + amount > u64::MAX ==> r == Err::<(), MyError>(
            MyError::ArithmeticOverflow,
        ) && *final(account) == *old(account),
{
    match account.free.checked_add(amount) {
        Some(free) => {
            account.free = free;
            Ok(())
        },
        None => Err(MyError::ArithmeticOverflow),
    }
}

} // verus!
