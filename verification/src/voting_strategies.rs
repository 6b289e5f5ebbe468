//! Voting-power strategies: how one account's raw voting weight in one
//! asset is measured against the state snapshot.

use vstd::prelude::*;
use crate::state::{spec_lookup_amount, spec_lookup_supply, Address, StateSnapshot};
use crate::uint256::U256;
use crate::{Asset, VotingError};

verus! {

/// The balance recorded for `account` in the asset's contract.
pub open spec fn spec_balance_of_power(env: StateSnapshot, account: Seq<u8>, asset: Asset) -> Option<
    U256,
> {
    spec_lookup_amount(env.balances@, asset.contract@, account)
}

/// The current total supply recorded for the asset.
pub open spec fn spec_balance_of_supply(env: StateSnapshot, asset: Asset) -> Option<U256> {
    spec_lookup_supply(env.total_supplies@, asset.contract@)
}

/// The checkpointed voting weight recorded for `account` at the snapshot
/// height.
pub open spec fn spec_past_votes_power(env: StateSnapshot, account: Seq<u8>, asset: Asset) -> Option<
    U256,
> {
    spec_lookup_amount(env.past_votes@, asset.contract@, account)
}

/// The total supply recorded for the asset at the snapshot height.
pub open spec fn spec_past_votes_supply(env: StateSnapshot, asset: Asset) -> Option<U256> {
    spec_lookup_supply(env.past_total_supplies@, asset.contract@)
}

/// Direct Balance: voting power is the account's current balance.
pub struct BalanceOf;

impl BalanceOf {
    /// Reads the account's balance of the asset from the snapshot; a
    /// missing entry is a fatal state-access fault.
    pub fn process(&self, env: &StateSnapshot, account: &Address, asset: &Asset) -> (r: Result<
        U256,
        VotingError,
    >)
        ensures
            match spec_balance_of_power(*env, account@, *asset) {
                Some(p) => r == Ok::<U256, VotingError>(p),
                None => r == Err::<U256, VotingError>(VotingError::StateAccess),
            },
    {
        match env.read_balance(&asset.contract, account) {
            Some(p) => Ok(p),
            None => Err(VotingError::StateAccess),
        }
    }

    /// The denominator for participation thresholds: the asset's current
    /// total supply.
    pub fn get_supply(&self, env: &StateSnapshot, asset: &Asset) -> (r: Result<U256, VotingError>)
        ensures
            match spec_balance_of_supply(*env, *asset) {
                Some(p) => r == Ok::<U256, VotingError>(p),
                None => r == Err::<U256, VotingError>(VotingError::StateAccess),
            },
    {
        match env.read_total_supply(&asset.contract) {
            Some(p) => Ok(p),
            None => Err(VotingError::StateAccess),
        }
    }
}

/// Historical Voting Weight: voting power is the account's checkpointed
/// weight as of the snapshot height, not its live balance.
pub struct GetPastVotes;

impl GetPastVotes {
    /// Reads the account's historical voting weight from the snapshot; a
    /// missing entry is a fatal state-access fault.
    pub fn process(&self, env: &StateSnapshot, account: &Address, asset: &Asset) -> (r: Result<
        U256,
        VotingError,
    >)
        ensures
            match spec_past_votes_power(*env, account@, *asset) {
                Some(p) => r == Ok::<U256, VotingError>(p),
                None => r == Err::<U256, VotingError>(VotingError::StateAccess),
            },
    {
        match env.read_past_votes(&asset.contract, account) {
            Some(p) => Ok(p),
            None => Err(VotingError::StateAccess),
        }
    }

    /// The denominator for participation thresholds: the asset's total
    /// supply at the snapshot height.
    pub fn get_supply(&self, env: &StateSnapshot, asset: &Asset) -> (r: Result<U256, VotingError>)
        ensures
            match spec_past_votes_supply(*env, *asset) {
                Some(p) => r == Ok::<U256, VotingError>(p),
                None => r == Err::<U256, VotingError>(VotingError::StateAccess),
            },
    {
        match env.read_past_total_supply(&asset.contract) {
            Some(p) => Ok(p),
            None => Err(VotingError::StateAccess),
        }
    }
}

} // verus!
