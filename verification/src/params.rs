use vstd::prelude::*;
use anchor_lang::prelude::Pubkey;
use anchor_lang::solana_program::clock::UnixTimestamp;
use crate::error::MyError;

verus! {

/// `Pubkey` of anchor_lang (Solana's 32-byte account address), carried
/// through pool and participant records as an opaque value. Nothing is
/// claimed about what it holds.
#[verifier::external_type_specification]
#[verifier::external_body]
pub struct ExPubkey(anchor_lang::prelude::Pubkey);

/// Numeric parameters of a reward policy. Fixed once a pool is created.
#[derive(Default, Debug, Copy, Clone)]
pub struct Params {
    pub reward_mint: Pubkey,
    pub period: UnixTimestamp,
    pub units_per_token: u64,
    pub rewards_per_unit: u64,
}

impl Params {
    /// Bytes a stored `Params` takes: the address and three 8-byte numbers.
    pub fn space() -> (n: usize)
        ensures
            n == 56,
    {
        32 + 8 + 8 + 8
    }

    /// Parameters with a positive period; any other period is refused with
    /// `InvalidConfig`.
    pub fn new(
        reward_mint: Pubkey,
        period: UnixTimestamp,
        units_per_token: u64,
        rewards_per_unit: u64,
    ) -> (r: Result<Params, MyError>)
        ensures
            period > 0 ==> r == Ok::<Params, MyError>(
                (Params { reward_mint, period, units_per_token, rewards_per_unit }),
            ),
            period <= 0 ==> r == Err::<Params, MyError>(MyError::InvalidConfig),
    {
        if period > 0 {
            Ok(Params { reward_mint, period, units_per_token, rewards_per_unit })
        } else {
            Err(MyError::InvalidConfig)
        }
    }
}

/// Which accrual formula reads a pool's `Params`. Chosen at pool creation.
#[derive(Debug, Copy, Clone, PartialEq, Eq, Structural)]
pub enum RewardPolicy {
    DirectSameToken,
    DirectAnotherToken,
    PercentUserStake,
    PercentPool,
}

/// The policy that a raw discriminant stands for: 0 to 3 in the order of
/// declaration, and `UnknownPolicy` for anything else.
pub open spec fn policy_of(input: u8) -> Result<RewardPolicy, MyError> {
    if input == 0 {
        Ok(RewardPolicy::DirectSameToken)
    } else if input == 1 {
        Ok(RewardPolicy::DirectAnotherToken)
    } else if input == 2 {
        Ok(RewardPolicy::PercentUserStake)
    } else if input == 3 {
        Ok(RewardPolicy::PercentPool)
    } else {
        Err(MyError::UnknownPolicy)
    }
}

impl RewardPolicy {
    /// The raw discriminant of a policy.
    pub open spec fn code(self) -> u8 {
        match self {
            RewardPolicy::DirectSameToken => 0,
            RewardPolicy::DirectAnotherToken => 1,
            RewardPolicy::PercentUserStake => 2,
            RewardPolicy::PercentPool => 3,
        }
    }

    /// The raw discriminant under which this policy is stored.
    pub fn discriminant(self) -> (d: u8)
        ensures
            d == self.code(),
    {
        match self {
            RewardPolicy::DirectSameToken => 0,
            RewardPolicy::DirectAnotherToken => 1,
            RewardPolicy::PercentUserStake => 2,
            RewardPolicy::PercentPool => 3,
        }
    }

    /// Reads a raw discriminant. Values above 3 are refused with
    /// `UnknownPolicy`.
    pub fn from_discriminant(input: u8) -> (r: Result<RewardPolicy, MyError>)
        ensures
            r == policy_of(input),
    {
        match input {
            0 => Ok(RewardPolicy::DirectSameToken),
            1 => Ok(RewardPolicy::DirectAnotherToken),
            2 => Ok(RewardPolicy::PercentUserStake),
            3 => Ok(RewardPolicy::PercentPool),
            _ => Err(MyError::UnknownPolicy),
        }
    }
}

/// Reading a policy's discriminant gives the policy back, and a discriminant
/// is read successfully exactly when it is at most 3.
pub proof fn lemma_discriminant_round_trip(policy: RewardPolicy, input: u8)
    ensures
        policy_of(policy.code()) == Ok::<RewardPolicy, MyError>(policy),
        policy_of(input) is Ok <==> input <= 3,
        policy_of(input) is Ok ==> policy_of(input).unwrap().code() == input,
        policy_of(input) is Err ==> policy_of(input) == Err::<RewardPolicy, MyError>(
            MyError::UnknownPolicy,
        ),
{
}

} // verus!
