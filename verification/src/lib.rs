//! A verified strategy-evaluation engine for ledger governance votes.
//!
//! For one proposal, the library determines a voter's total voting power
//! across a configurable set of assets (honoring split delegation of
//! voting weight between accounts), authenticates the vote parameters
//! against the voter's signature, and evaluates an aggregated tally
//! under a pluggable pass/fail policy.  All reads go through a fixed,
//! proof-backed state snapshot, so the result is a deterministic
//! function of the snapshot and the inputs; the outcome is committed as
//! a compact journal.
//!
//! Strategies are selected by name from a runtime configuration
//! document.  The set of strategies is closed and enumerable, so the
//! registry binds names to a tagged variant rather than to open-ended
//! implementations; an unknown name is a typed, fatal configuration
//! error.

use vstd::prelude::*;

pub mod attestation;
pub mod delegation_strategies;
pub mod execution_strategies;
pub mod protocol;
pub mod state;
pub mod uint256;
pub mod voting_strategies;

use crate::delegation_strategies::{spec_split_delegation, Delegation, SplitDelegation};
use crate::execution_strategies::{spec_majority_passes, MajorityVoting, Tally};
use crate::state::{clone_bytes, Address, StateSnapshot};
use crate::uint256::{p256, U256};
use crate::voting_strategies::{
    spec_balance_of_power, spec_balance_of_supply, spec_past_votes_power, spec_past_votes_supply,
    BalanceOf, GetPastVotes,
};

verus! {

/// The closed set of voting-power strategies a name can bind to.
#[derive(Clone, Copy, PartialEq, Eq, Structural, Debug)]
pub enum VotingPowerStrategyKind {
    BalanceOf,
    GetPastVotes,
}

/// The closed set of delegation strategies a name can bind to.
#[derive(Clone, Copy, PartialEq, Eq, Structural, Debug)]
pub enum DelegationStrategyKind {
    SplitDelegation,
}

/// The closed set of execution strategies a name can bind to.
#[derive(Clone, Copy, PartialEq, Eq, Structural, Debug)]
pub enum ExecutionStrategyKind {
    MajorityVoting,
}

/// The strategy bound to `name`; the binding added last wins, as an
/// insertion into a name-keyed table would.
pub open spec fn spec_lookup_strategy<K>(bindings: Seq<(String, K)>, name: Seq<char>) -> Option<K>
    decreases bindings.len(),
{
    if bindings.len() == 0 {
        None
    } else if bindings.last().0@ == name {
        Some(bindings.last().1)
    } else {
        spec_lookup_strategy(bindings.drop_last(), name)
    }
}

/// Scan for the binding added last under `name`.
fn lookup_strategy<K: Copy>(bindings: &Vec<(String, K)>, name: &String) -> (r: Option<K>)
    ensures
        r == spec_lookup_strategy(bindings@, name@),
{
    let mut i: usize = bindings.len();
    proof {
        assert(bindings@.take(bindings@.len() as int) =~= bindings@);
    }
    while i > 0
        invariant
            i <= bindings@.len(),
            spec_lookup_strategy(bindings@, name@) == spec_lookup_strategy(
                bindings@.take(i as int),
                name@,
            ),
        decreases i,
    {
        i = i - 1;
        proof {
            assert(bindings@.take(i + 1).last() == bindings@[i as int]);
            assert(bindings@.take(i + 1).drop_last() =~= bindings@.take(i as int));
        }
        if bindings[i].0 == *name {
            return Some(bindings[i].1);
        }
    }
    proof {
        assert(bindings@.take(0) =~= Seq::<(String, K)>::empty());
    }
    None
}

/// The evaluation context of one run: the bindings from strategy names to
/// strategy implementations, and the state snapshot every strategy reads.
/// The bindings are fixed before evaluation begins and never change during
/// it.
#[derive(Debug)]
pub struct Context {
    pub voting_power_strategies: Vec<(String, VotingPowerStrategyKind)>,
    pub delegation_strategies: Vec<(String, DelegationStrategyKind)>,
    pub execution_strategies: Vec<(String, ExecutionStrategyKind)>,
    pub env: StateSnapshot,
}

/// The voting power `kind` measures for `account` in `asset`, if the
/// snapshot holds the entry it reads.
pub open spec fn spec_strategy_power(
    env: StateSnapshot,
    kind: VotingPowerStrategyKind,
    account: Seq<u8>,
    asset: Asset,
) -> Option<U256> {
    match kind {
        VotingPowerStrategyKind::BalanceOf => spec_balance_of_power(env, account, asset),
        VotingPowerStrategyKind::GetPastVotes => spec_past_votes_power(env, account, asset),
    }
}

/// The total-supply figure `kind` reads for `asset`.
pub open spec fn spec_strategy_supply(
    env: StateSnapshot,
    kind: VotingPowerStrategyKind,
    asset: Asset,
) -> Option<U256> {
    match kind {
        VotingPowerStrategyKind::BalanceOf => spec_balance_of_supply(env, asset),
        VotingPowerStrategyKind::GetPastVotes => spec_past_votes_supply(env, asset),
    }
}

impl Context {
    /// A context with no strategy bound to any name.
    pub fn new(env: StateSnapshot) -> (r: Context)
        ensures
            r.env == env,
            r.voting_power_strategies@.len() == 0,
            r.delegation_strategies@.len() == 0,
            r.execution_strategies@.len() == 0,
    {
        Context {
            voting_power_strategies: Vec::new(),
            delegation_strategies: Vec::new(),
            execution_strategies: Vec::new(),
            env,
        }
    }

    /// A context with the default bindings: "BalanceOf" and "GetPastVotes"
    /// for voting power, "SplitDelegation" for delegation, and
    /// "MajorityVoting" for execution.
    pub fn default(env: StateSnapshot) -> (r: Context)
        ensures
            r.env == env,
            r.voting_power_strategies@.len() == 2,
            r.voting_power_strategies@[0].0@ == "BalanceOf"@,
            r.voting_power_strategies@[0].1 == VotingPowerStrategyKind::BalanceOf,
            r.voting_power_strategies@[1].0@ == "GetPastVotes"@,
            r.voting_power_strategies@[1].1 == VotingPowerStrategyKind::GetPastVotes,
            r.delegation_strategies@.len() == 1,
            r.delegation_strategies@[0].0@ == "SplitDelegation"@,
            r.delegation_strategies@[0].1 == DelegationStrategyKind::SplitDelegation,
            r.execution_strategies@.len() == 1,
            r.execution_strategies@[0].0@ == "MajorityVoting"@,
            r.execution_strategies@[0].1 == ExecutionStrategyKind::MajorityVoting,
            spec_lookup_strategy(r.voting_power_strategies@, "BalanceOf"@) == Some(
                VotingPowerStrategyKind::BalanceOf,
            ),
            spec_lookup_strategy(r.voting_power_strategies@, "GetPastVotes"@) == Some(
                VotingPowerStrategyKind::GetPastVotes,
            ),
            spec_lookup_strategy(r.delegation_strategies@, "SplitDelegation"@) == Some(
                DelegationStrategyKind::SplitDelegation,
            ),
            spec_lookup_strategy(r.execution_strategies@, "MajorityVoting"@) == Some(
                ExecutionStrategyKind::MajorityVoting,
            ),
    {
        let mut voting_power_strategies: Vec<(String, VotingPowerStrategyKind)> = Vec::new();
        voting_power_strategies.push(("BalanceOf".to_owned(), VotingPowerStrategyKind::BalanceOf));
        voting_power_strategies.push(
            ("GetPastVotes".to_owned(), VotingPowerStrategyKind::GetPastVotes),
        );
        let mut delegation_strategies: Vec<(String, DelegationStrategyKind)> = Vec::new();
        delegation_strategies.push(
            ("SplitDelegation".to_owned(), DelegationStrategyKind::SplitDelegation),
        );
        let mut execution_strategies: Vec<(String, ExecutionStrategyKind)> = Vec::new();
        execution_strategies.push(
            ("MajorityVoting".to_owned(), ExecutionStrategyKind::MajorityVoting),
        );
        proof {
            reveal_strlit("BalanceOf");
            reveal_strlit("GetPastVotes");
            assert(voting_power_strategies@.drop_last().last() == voting_power_strategies@[0]);
            assert("BalanceOf"@.len() != "GetPastVotes"@.len());
            assert(voting_power_strategies@.last().0@ != "BalanceOf"@);
            assert(spec_lookup_strategy(voting_power_strategies@.drop_last(), "BalanceOf"@)
                == Some(VotingPowerStrategyKind::BalanceOf));
        }
        Context { voting_power_strategies, delegation_strategies, execution_strategies, env }
    }

    /// Binds one more name to a voting-power strategy; a later binding for
    /// the same name wins, and every other name keeps its strategy.
    pub fn add_strategy(&mut self, name: String, protocol_strategy: VotingPowerStrategyKind)
        ensures
            final(self).env == old(self).env,
            final(self).delegation_strategies == old(self).delegation_strategies,
            final(self).execution_strategies == old(self).execution_strategies,
            spec_lookup_strategy(final(self).voting_power_strategies@, name@) == Some(
                protocol_strategy,
            ),
            forall|n: Seq<char>|
                n != name@ ==> #[trigger] spec_lookup_strategy(
                    final(self).voting_power_strategies@,
                    n,
                ) == spec_lookup_strategy(old(self).voting_power_strategies@, n),
    {
        self.voting_power_strategies.push((name, protocol_strategy));
        proof {
            assert(self.voting_power_strategies@.drop_last() =~= old(
                self,
            ).voting_power_strategies@);
        }
    }

    /// Measures `account`'s voting power in `asset` with the strategy bound
    /// to `name`; an unbound name is a fatal configuration error.
    pub fn process_voting_strategy(&self, name: String, account: &Address, asset: &Asset) -> (r:
        Result<U256, VotingError>)
        ensures
            match spec_lookup_strategy(self.voting_power_strategies@, name@) {
                None => r == Err::<U256, VotingError>(VotingError::StrategyNotFound),
                Some(k) => match spec_strategy_power(self.env, k, account@, *asset) {
                    Some(p) => r == Ok::<U256, VotingError>(p),
                    None => r == Err::<U256, VotingError>(VotingError::StateAccess),
                },
            },
    {
        match lookup_strategy(&self.voting_power_strategies, &name) {
            None => Err(VotingError::StrategyNotFound),
            Some(VotingPowerStrategyKind::BalanceOf) => BalanceOf.process(
                &self.env,
                account,
                asset,
            ),
            Some(VotingPowerStrategyKind::GetPastVotes) => GetPastVotes.process(
                &self.env,
                account,
                asset,
            ),
        }
    }

    /// Reads the total-supply denominator for `asset` with the strategy
    /// bound to `name`.
    pub fn process_total_supply(&self, name: String, asset: &Asset) -> (r: Result<
        U256,
        VotingError,
    >)
        ensures
            match spec_lookup_strategy(self.voting_power_strategies@, name@) {
                None => r == Err::<U256, VotingError>(VotingError::StrategyNotFound),
                Some(k) => match spec_strategy_supply(self.env, k, *asset) {
                    Some(p) => r == Ok::<U256, VotingError>(p),
                    None => r == Err::<U256, VotingError>(VotingError::StateAccess),
                },
            },
    {
        match lookup_strategy(&self.voting_power_strategies, &name) {
            None => Err(VotingError::StrategyNotFound),
            Some(VotingPowerStrategyKind::BalanceOf) => BalanceOf.get_supply(&self.env, asset),
            Some(VotingPowerStrategyKind::GetPastVotes) => GetPastVotes.get_supply(
                &self.env,
                asset,
            ),
        }
    }

    /// Resolves the accounts that delegated to `account` for `asset`, with
    /// the delegation strategy the asset's configuration names.
    pub fn process_delegation_strategy(
        &self,
        account: &Address,
        asset: &Asset,
        additional_data: &Vec<u8>,
    ) -> (r: Result<Vec<Delegation>, VotingError>)
        requires
            self.env.wf(),
            asset.wf(),
            account.wf(),
        ensures
            match spec_lookup_strategy(self.delegation_strategies@, asset.delegation.strategy@) {
                None => r == Err::<Vec<Delegation>, VotingError>(VotingError::StrategyNotFound),
                Some(k) => match r {
                    Ok(ds) => {
                        &&& spec_split_delegation(self.env, *asset, account@, additional_data@) is Ok
                        &&& ds@.len() == spec_split_delegation(
                            self.env,
                            *asset,
                            account@,
                            additional_data@,
                        ).unwrap().len()
                        &&& forall|i: int|
                            0 <= i < ds@.len() ==> (#[trigger] ds@[i]).delegate@
                                == spec_split_delegation(
                                self.env,
                                *asset,
                                account@,
                                additional_data@,
                            ).unwrap()[i].0 && ds@[i].ratio@ == spec_split_delegation(
                                self.env,
                                *asset,
                                account@,
                                additional_data@,
                            ).unwrap()[i].1 && ds@[i].ratio@ >= 1 && ds@[i].delegate.wf()
                    },
                    Err(e) => spec_split_delegation(self.env, *asset, account@, additional_data@)
                        == Err::<Seq<(Seq<u8>, nat)>, VotingError>(e),
                },
            },
    {
        match lookup_strategy(&self.delegation_strategies, &asset.delegation.strategy) {
            None => Err(VotingError::StrategyNotFound),
            Some(DelegationStrategyKind::SplitDelegation) => SplitDelegation.process(
                &self.env,
                account,
                asset,
                additional_data,
            ),
        }
    }

    /// Applies the execution strategy bound to `name` to the tally; the
    /// boolean inside `Ok` is the policy outcome, an expected value rather
    /// than an error.
    pub fn process_execution_strategy(&self, name: String, total_supply: &U256, tally: &Tally) -> (r:
        Result<bool, VotingError>)
        requires
            tally.total() < p256(),
        ensures
            match spec_lookup_strategy(self.execution_strategies@, name@) {
                None => r == Err::<bool, VotingError>(VotingError::StrategyNotFound),
                Some(k) => r == Ok::<bool, VotingError>(
                    spec_majority_passes(total_supply@, tally.yes@, tally.no@, tally.abstain@),
                ),
            },
    {
        match lookup_strategy(&self.execution_strategies, &name) {
            None => Err(VotingError::StrategyNotFound),
            Some(ExecutionStrategyKind::MajorityVoting) => Ok(
                MajorityVoting.proof_execution(&self.env, total_supply, tally),
            ),
        }
    }

    /// The snapshot-binding commitment the journal carries.
    pub fn block_commitment(&self) -> (r: Vec<u8>)
        ensures
            r@ == self.env.commitment@,
    {
        clone_bytes(&self.env.commitment)
    }
}

/// Where and how delegation is recorded for one asset: the registry
/// contract and the name of the delegation strategy that reads it.
#[derive(Debug)]
pub struct DelegationObject {
    pub contract: Address,
    pub strategy: String,
}

/// One votable asset: its contract, its chain, the name of the strategy
/// that measures voting power in it, and its delegation registry.
#[derive(Debug)]
pub struct Asset {
    pub contract: Address,
    pub chain_id: u64,
    pub voting_power_strategy: String,
    pub delegation: DelegationObject,
}

impl Asset {
    /// Both contract identifiers are real 20-byte addresses.
    pub open spec fn wf(&self) -> bool {
        self.contract.wf() && self.delegation.contract.wf()
    }
}

/// The whole voting configuration for one protocol deployment.
#[derive(Debug)]
pub struct RiscVotingProtocolConfig {
    pub voting_protocol_version: String,
    pub assets: Vec<Asset>,
    pub execution_strategy: String,
}

impl RiscVotingProtocolConfig {
    pub open spec fn wf(&self) -> bool {
        forall|i: int| 0 <= i < self.assets@.len() ==> (#[trigger] self.assets@[i]).wf()
    }
}

/// Every way an evaluation run can end other than with its normal result.
///
/// Configuration errors (an unknown strategy name) and input validation
/// errors are fatal for the run; they are reported as values so that one
/// proposal evaluation can fail without taking a host process with it.
#[derive(Clone, Copy, PartialEq, Eq, Structural, Debug)]
pub enum VotingError {
    /// A strategy name in the configuration resolves to no known strategy.
    StrategyNotFound,
    /// The delegation byte blob is not a whole number of 20-byte addresses.
    InvalidDelegationLength,
    /// Some candidate delegator neither self-delegates nor delegates to the voter.
    InvalidDelegations,
    /// A required entry is absent from the state snapshot.
    StateAccess,
    /// The recovery indicator of a signature is not a recognized value.
    InvalidRecoveryId,
    /// The signature bytes are malformed or recovery yields no valid key.
    InvalidSignature,
    /// The vote direction is not one of the three accepted values.
    InvalidDirection,
    /// The asserted balance is zero.
    ZeroBalance,
    /// The recovered signer differs from the claimed voter.
    SignerMismatch,
    /// The asserted balance differs from the computed total voting power.
    BalanceMismatch,
    /// The summed voting power does not fit in an unsigned 256-bit integer.
    PowerOverflow,
    /// The execution strategy rejected the tally.
    ExecutionDenied,
}

} // verus!
