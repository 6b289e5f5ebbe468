//! The two evaluation engines: authenticating and totalling a single vote,
//! and checking an aggregated tally against the execution policy.
//!
//! Both consume a configuration and an evaluation context bound to a state
//! snapshot, and emit an immutable journal binding the snapshot commitment
//! to the outcome.

use vstd::prelude::*;
use vstd::arithmetic::div_mod::lemma_div_basics;
use crate::attestation::{
    ecrecover, hash_vote, hex_decode, spec_ecrecover, spec_hex_bytes, spec_is_hex,
    spec_vote_digest,
};
use crate::delegation_strategies::{
    spec_candidate_record, spec_candidate_resolves, spec_candidates, spec_split_delegation,
    sub_bytes,
};
use crate::execution_strategies::{spec_majority_passes, Tally};
use crate::state::{Address, StateSnapshot};
use crate::uint256::{p256, U256};
use crate::{
    spec_lookup_strategy, spec_strategy_power, spec_strategy_supply, Asset, Context,
    DelegationStrategyKind, RiscVotingProtocolConfig, VotingError, VotingPowerStrategyKind,
};

verus! {

/// The committed record of one authenticated vote: the snapshot
/// commitment, the configuration source, the proposal, and the voter's
/// balance and direction.  Produced exactly once per evaluation run.
#[derive(Debug)]
pub struct Journal {
    pub commitment: Vec<u8>,
    pub config_contract: Address,
    pub proposal_id: U256,
    pub voter: Address,
    pub balance: U256,
    pub direction: u8,
}

/// The committed record of one aggregate execution check.
#[derive(Debug)]
pub struct ExecutionJournal {
    pub commitment: Vec<u8>,
    pub config_contract: Address,
    pub proposal_id: U256,
    pub tally: Tally,
}

/// Folds the resolved delegations of one asset onto `acc`: each delegate's
/// strategy-measured power, divided by its delegation ratio, is added in
/// order.  The sum must stay below 2^256.
pub open spec fn spec_fold_power(
    env: StateSnapshot,
    bindings: Seq<(String, VotingPowerStrategyKind)>,
    asset: Asset,
    ds: Seq<(Seq<u8>, nat)>,
    acc: nat,
) -> Result<nat, VotingError>
    decreases ds.len(),
{
    if ds.len() == 0 {
        Ok(acc)
    } else {
        match spec_lookup_strategy(bindings, asset.voting_power_strategy@) {
            None => Err(VotingError::StrategyNotFound),
            Some(kind) => match spec_strategy_power(env, kind, ds[0].0, asset) {
                None => Err(VotingError::StateAccess),
                Some(p) => if acc + p@ / ds[0].1 >= p256() {
                    Err(VotingError::PowerOverflow)
                } else {
                    spec_fold_power(env, bindings, asset, ds.drop_first(), (acc + p@ / ds[0].1) as nat)
                },
            },
        }
    }
}

/// One asset's contribution: its delegation strategy resolves the
/// candidate delegators, then their weighted powers fold onto `acc`.
pub open spec fn spec_asset_power(
    env: StateSnapshot,
    bindings_vp: Seq<(String, VotingPowerStrategyKind)>,
    bindings_del: Seq<(String, DelegationStrategyKind)>,
    asset: Asset,
    voter: Seq<u8>,
    data: Seq<u8>,
    acc: nat,
) -> Result<nat, VotingError> {
    match spec_lookup_strategy(bindings_del, asset.delegation.strategy@) {
        None => Err(VotingError::StrategyNotFound),
        Some(k) => match spec_split_delegation(env, asset, voter, data) {
            Err(e) => Err(e),
            Ok(ds) => spec_fold_power(env, bindings_vp, asset, ds, acc),
        },
    }
}

/// The voter's total voting power: every configured asset's contribution,
/// summed in configuration order.  Any failure aborts the whole figure;
/// no partial total is meaningful.
pub open spec fn spec_total_power(
    env: StateSnapshot,
    bindings_vp: Seq<(String, VotingPowerStrategyKind)>,
    bindings_del: Seq<(String, DelegationStrategyKind)>,
    assets: Seq<Asset>,
    voter: Seq<u8>,
    data: Seq<u8>,
    acc: nat,
) -> Result<nat, VotingError>
    decreases assets.len(),
{
    if assets.len() == 0 {
        Ok(acc)
    } else {
        match spec_asset_power(env, bindings_vp, bindings_del, assets[0], voter, data, acc) {
            Err(e) => Err(e),
            Ok(acc2) => spec_total_power(
                env,
                bindings_vp,
                bindings_del,
                assets.drop_first(),
                voter,
                data,
                acc2,
            ),
        }
    }
}

/// Computes the voter's total voting power across all configured assets:
/// for each asset, the delegation strategy resolves the claimed delegators
/// and each delegate's strategy-measured power, divided by its ratio, is
/// summed.
#[verifier::loop_isolation(false)]
pub fn process_total_voting_power(
    ctx: &Context,
    config: &RiscVotingProtocolConfig,
    voter: &Address,
    additional_data: &Vec<u8>,
) -> (r: Result<U256, VotingError>)
    requires
        ctx.env.wf(),
        config.wf(),
        voter.wf(),
    ensures
        match r {
            Ok(total) => spec_total_power(
                ctx.env,
                ctx.voting_power_strategies@,
                ctx.delegation_strategies@,
                config.assets@,
                voter@,
                additional_data@,
                0,
            ) == Ok::<nat, VotingError>(total@),
            Err(e) => spec_total_power(
                ctx.env,
                ctx.voting_power_strategies@,
                ctx.delegation_strategies@,
                config.assets@,
                voter@,
                additional_data@,
                0,
            ) == Err::<nat, VotingError>(e),
        },
{
    let ghost bvp = ctx.voting_power_strategies@;
    let ghost bdel = ctx.delegation_strategies@;
    let ghost whole = spec_total_power(
        ctx.env,
        bvp,
        bdel,
        config.assets@,
        voter@,
        additional_data@,
        0,
    );
    let mut acc = U256::zero();
    let mut a: usize = 0;
    proof {
        assert(config.assets@.skip(0) =~= config.assets@);
    }
    while a < config.assets.len()
        invariant
            a <= config.assets@.len(),
            spec_total_power(
                ctx.env,
                bvp,
                bdel,
                config.assets@.skip(a as int),
                voter@,
                additional_data@,
                acc@,
            ) == whole,
        decreases config.assets@.len() - a,
    {
        let asset = &config.assets[a];
        proof {
            assert(config.assets@.skip(a as int)[0] == config.assets@[a as int]);
            assert(config.assets@.skip(a as int).drop_first() =~= config.assets@.skip(a + 1));
        }
        let ds = match ctx.process_delegation_strategy(voter, asset, additional_data) {
            Ok(ds) => ds,
            Err(e) => {
                return Err(e);
            },
        };
        let ghost dss = spec_split_delegation(ctx.env, *asset, voter@, additional_data@).unwrap();
        let ghost acc_enter = acc@;
        let mut d: usize = 0;
        proof {
            assert(dss.skip(0) =~= dss);
        }
        while d < ds.len()
            invariant
                d <= ds@.len(),
                spec_fold_power(ctx.env, bvp, *asset, dss.skip(d as int), acc@) == spec_fold_power(
                    ctx.env,
                    bvp,
                    *asset,
                    dss,
                    acc_enter,
                ),
            decreases ds@.len() - d,
        {
            proof {
                assert(dss.skip(d as int)[0] == dss[d as int]);
                assert(dss.skip(d as int).drop_first() =~= dss.skip(d + 1));
            }
            let dd = &ds[d];
            let p = match ctx.process_voting_strategy(
                asset.voting_power_strategy.clone(),
                &dd.delegate,
                asset,
            ) {
                Ok(p) => p,
                Err(e) => {
                    return Err(e);
                },
            };
            let share = p.div_rem(&dd.ratio).0;
            acc = match acc.checked_add(&share) {
                Some(s) => s,
                None => {
                    return Err(VotingError::PowerOverflow);
                },
            };
            d = d + 1;
        }
        a = a + 1;
    }
    Ok(acc)
}

/// Whether a direction byte is one of the three accepted vote directions.
pub open spec fn spec_direction_ok(direction: u8) -> bool {
    direction == 1 || direction == 2 || direction == 3
}

/// Everything the single-vote engine validates, in evaluation order: the
/// signature decodes to 65 bytes, the signer recovers from the canonical
/// digest, the total voting power computes, the direction and balance are
/// admissible, the signer is the claimed voter, and the asserted balance
/// equals the computed total.
pub open spec fn spec_vote_check(
    env: StateSnapshot,
    bindings_vp: Seq<(String, VotingPowerStrategyKind)>,
    bindings_del: Seq<(String, DelegationStrategyKind)>,
    config: RiscVotingProtocolConfig,
    chain_id: u64,
    dao: Seq<u8>,
    proposal_id: U256,
    direction: u8,
    balance: U256,
    signature_hex: Seq<u8>,
    voter: Seq<u8>,
    data: Seq<u8>,
) -> Result<(), VotingError> {
    if !spec_is_hex(signature_hex) || spec_hex_bytes(signature_hex).len() != 65 {
        Err(VotingError::InvalidSignature)
    } else {
        let sig = spec_hex_bytes(signature_hex);
        let digest = spec_vote_digest(chain_id, dao, proposal_id, direction, balance);
        match spec_ecrecover(sig[64], sig.subrange(0, 64), digest) {
            Err(e) => Err(e),
            Ok(signer) => match spec_total_power(
                env,
                bindings_vp,
                bindings_del,
                config.assets@,
                voter,
                data,
                0,
            ) {
                Err(e) => Err(e),
                Ok(total) => if !spec_direction_ok(direction) {
                    Err(VotingError::InvalidDirection)
                } else if balance@ == 0 {
                    Err(VotingError::ZeroBalance)
                } else if signer != voter {
                    Err(VotingError::SignerMismatch)
                } else if balance@ != total {
                    Err(VotingError::BalanceMismatch)
                } else {
                    Ok(())
                },
            },
        }
    }
}

/// Authenticates and totals one vote against the snapshot, and commits it
/// as a journal.
///
/// The recovered signer must equal the claimed voter: a mismatch is
/// rejected, since waiving that comparison would remove the only
/// cryptographic authentication of the vote.
pub fn evaluate_voting_protocol(
    ctx: &Context,
    config: &RiscVotingProtocolConfig,
    signature_hex: &Vec<u8>,
    voter: &Address,
    dao: &Address,
    proposal_id: &U256,
    direction: u8,
    balance: &U256,
    config_contract: &Address,
    additional_delegation_data: &Vec<u8>,
    chain_id: u64,
) -> (r: Result<Journal, VotingError>)
    requires
        ctx.env.wf(),
        config.wf(),
        voter.wf(),
    ensures
        match r {
            Ok(j) => {
                &&& spec_vote_check(
                    ctx.env,
                    ctx.voting_power_strategies@,
                    ctx.delegation_strategies@,
                    *config,
                    chain_id,
                    dao@,
                    *proposal_id,
                    direction,
                    *balance,
                    signature_hex@,
                    voter@,
                    additional_delegation_data@,
                ) == Ok::<(), VotingError>(())
                &&& j.commitment@ == ctx.env.commitment@
                &&& j.config_contract@ == config_contract@
                &&& j.proposal_id == *proposal_id
                &&& j.voter@ == voter@
                &&& j.balance == *balance
                &&& j.direction == direction
            },
            Err(e) => spec_vote_check(
                ctx.env,
                ctx.voting_power_strategies@,
                ctx.delegation_strategies@,
                *config,
                chain_id,
                dao@,
                *proposal_id,
                direction,
                *balance,
                signature_hex@,
                voter@,
                additional_delegation_data@,
            ) == Err::<(), VotingError>(e),
        },
{
    let sig = match hex_decode(signature_hex) {
        Ok(b) => b,
        Err(e) => {
            return Err(e);
        },
    };
    if sig.len() != 65 {
        return Err(VotingError::InvalidSignature);
    }
    let v = sig[64];
    let rs = sub_bytes(&sig, 0, 64);
    let digest = hash_vote(chain_id, dao, proposal_id, direction, balance);
    let signer = match ecrecover(v, &rs, &digest) {
        Ok(a) => a,
        Err(e) => {
            return Err(e);
        },
    };
    let total = match process_total_voting_power(ctx, config, voter, additional_delegation_data) {
        Ok(t) => t,
        Err(e) => {
            return Err(e);
        },
    };
    if !(direction == 1 || direction == 2 || direction == 3) {
        return Err(VotingError::InvalidDirection);
    }
    if balance.is_zero() {
        return Err(VotingError::ZeroBalance);
    }
    if !signer.eq_addr(voter) {
        return Err(VotingError::SignerMismatch);
    }
    proof {
        U256::lemma_eq_iff_value_eq(*balance, total);
    }
    if !(*balance == total) {
        return Err(VotingError::BalanceMismatch);
    }
    Ok(
        Journal {
            commitment: ctx.block_commitment(),
            config_contract: config_contract.dup(),
            proposal_id: *proposal_id,
            voter: voter.dup(),
            balance: *balance,
            direction,
        },
    )
}

/// The participation denominator: every configured asset's total-supply
/// figure, summed in configuration order.
pub open spec fn spec_total_supply(
    env: StateSnapshot,
    bindings_vp: Seq<(String, VotingPowerStrategyKind)>,
    assets: Seq<Asset>,
    acc: nat,
) -> Result<nat, VotingError>
    decreases assets.len(),
{
    if assets.len() == 0 {
        Ok(acc)
    } else {
        match spec_lookup_strategy(bindings_vp, assets[0].voting_power_strategy@) {
            None => Err(VotingError::StrategyNotFound),
            Some(kind) => match spec_strategy_supply(env, kind, assets[0]) {
                None => Err(VotingError::StateAccess),
                Some(p) => if acc + p@ >= p256() {
                    Err(VotingError::PowerOverflow)
                } else {
                    spec_total_supply(env, bindings_vp, assets.drop_first(), (acc + p@) as nat)
                },
            },
        }
    }
}

/// What the execution engine decides: the summed total supply feeds the
/// configured execution strategy, whose boolean verdict is the policy
/// outcome.
pub open spec fn spec_execution_check(
    env: StateSnapshot,
    bindings_vp: Seq<(String, VotingPowerStrategyKind)>,
    bindings_exec: Seq<(String, crate::ExecutionStrategyKind)>,
    config: RiscVotingProtocolConfig,
    tally: Tally,
) -> Result<bool, VotingError> {
    match spec_total_supply(env, bindings_vp, config.assets@, 0) {
        Err(e) => Err(e),
        Ok(supply) => match spec_lookup_strategy(bindings_exec, config.execution_strategy@) {
            None => Err(VotingError::StrategyNotFound),
            Some(k) => Ok(spec_majority_passes(supply, tally.yes@, tally.no@, tally.abstain@)),
        },
    }
}

/// Sums every asset's total supply and applies the configured execution
/// strategy to the tally; a rejected tally yields no journal.
#[verifier::loop_isolation(false)]
pub fn evaluate_execution_protocol(
    ctx: &Context,
    config: &RiscVotingProtocolConfig,
    proposal_id: &U256,
    tally: &Tally,
    config_contract: &Address,
) -> (r: Result<ExecutionJournal, VotingError>)
    requires
        tally.total() < p256(),
    ensures
        match r {
            Ok(j) => {
                &&& spec_execution_check(
                    ctx.env,
                    ctx.voting_power_strategies@,
                    ctx.execution_strategies@,
                    *config,
                    *tally,
                ) == Ok::<bool, VotingError>(true)
                &&& j.commitment@ == ctx.env.commitment@
                &&& j.config_contract@ == config_contract@
                &&& j.proposal_id == *proposal_id
                &&& j.tally == *tally
            },
            Err(e) => spec_execution_check(
                ctx.env,
                ctx.voting_power_strategies@,
                ctx.execution_strategies@,
                *config,
                *tally,
            ) == Err::<bool, VotingError>(e) || (e == VotingError::ExecutionDenied
                && spec_execution_check(
                ctx.env,
                ctx.voting_power_strategies@,
                ctx.execution_strategies@,
                *config,
                *tally,
            ) == Ok::<bool, VotingError>(false)),
        },
{
    let ghost bvp = ctx.voting_power_strategies@;
    let ghost whole = spec_total_supply(ctx.env, bvp, config.assets@, 0);
    let mut acc = U256::zero();
    let mut a: usize = 0;
    proof {
        assert(config.assets@.skip(0) =~= config.assets@);
    }
    while a < config.assets.len()
        invariant
            a <= config.assets@.len(),
            spec_total_supply(ctx.env, bvp, config.assets@.skip(a as int), acc@) == whole,
        decreases config.assets@.len() - a,
    {
        let asset = &config.assets[a];
        proof {
            assert(config.assets@.skip(a as int)[0] == config.assets@[a as int]);
            assert(config.assets@.skip(a as int).drop_first() =~= config.assets@.skip(a + 1));
        }
        let p = match ctx.process_total_supply(asset.voting_power_strategy.clone(), asset) {
            Ok(p) => p,
            Err(e) => {
                return Err(e);
            },
        };
        acc = match acc.checked_add(&p) {
            Some(s) => s,
            None => {
                return Err(VotingError::PowerOverflow);
            },
        };
        a = a + 1;
    }
    let passes = match ctx.process_execution_strategy(
        config.execution_strategy.clone(),
        &acc,
        tally,
    ) {
        Ok(b) => b,
        Err(e) => {
            return Err(e);
        },
    };
    if !passes {
        return Err(VotingError::ExecutionDenied);
    }
    Ok(
        ExecutionJournal {
            commitment: ctx.block_commitment(),
            config_contract: config_contract.dup(),
            proposal_id: *proposal_id,
            tally: *tally,
        },
    )
}

/// For an asset with zero configured delegation — the voter is the only
/// candidate and the registry holds no entries for it — the asset adds
/// exactly the value its configured voting-power strategy returns, and
/// nothing else: no strategy silently double-counts.
pub proof fn lemma_undelegated_power(
    env: StateSnapshot,
    bindings_vp: Seq<(String, VotingPowerStrategyKind)>,
    bindings_del: Seq<(String, DelegationStrategyKind)>,
    asset: Asset,
    voter: Seq<u8>,
    data: Seq<u8>,
    kind: VotingPowerStrategyKind,
    p: U256,
    acc: nat,
)
    requires
        data == voter,
        voter.len() == 20,
        spec_lookup_strategy(bindings_del, asset.delegation.strategy@) is Some,
        spec_candidate_record(env, asset, voter) is Some,
        spec_candidate_record(env, asset, voter).unwrap().entries@.len() == 0,
        spec_lookup_strategy(bindings_vp, asset.voting_power_strategy@) == Some(kind),
        spec_strategy_power(env, kind, voter, asset) == Some(p),
        acc + p@ < p256(),
    ensures
        spec_asset_power(env, bindings_vp, bindings_del, asset, voter, data, acc) == Ok::<
            nat,
            VotingError,
        >(acc + p@),
{
    let cs = spec_candidates(data);
    assert(cs.len() == 1);
    assert(cs[0] =~= voter);
    assert(spec_candidate_resolves(env, asset, cs[0], voter));
    assert(crate::delegation_strategies::spec_candidate_ratio(env, asset, cs[0], voter) == 1);
    let ds = spec_split_delegation(env, asset, voter, data).unwrap();
    assert(ds.len() == 1 && ds[0].0 == voter && ds[0].1 == 1);
    p.lemma_bound();
    lemma_div_basics(p@ as int);
    assert(p@ / ds[0].1 == p@);
    assert(ds.drop_first() =~= Seq::<(Seq<u8>, nat)>::empty());
    assert(spec_fold_power(env, bindings_vp, asset, ds.drop_first(), (acc + p@ / ds[0].1) as nat)
        == Ok::<nat, VotingError>(acc + p@));
    assert(spec_fold_power(env, bindings_vp, asset, ds, acc) == Ok::<nat, VotingError>(acc + p@));
}

} // verus!
