use tiny_keccak::Hasher;
use zk_voting::execution_strategies::Tally;
use zk_voting::protocol::{
    evaluate_execution_protocol, evaluate_voting_protocol, process_total_voting_power,
};
use zk_voting::state::{
    Address, BalanceEntry, DelegationEntry, DelegationRecord, StateSnapshot, SupplyEntry,
};
use zk_voting::uint256::U256;
use zk_voting::{
    Asset, Context, DelegationObject, RiscVotingProtocolConfig, VotingError,
    VotingPowerStrategyKind,
};

const CHAIN_ID: u64 = 11155111;

fn addr(tag: u8) -> Address {
    Address::new(vec![tag; 20])
}

fn keccak_direct(bytes: &[u8]) -> [u8; 32] {
    let mut digest = [0u8; 32];
    let mut hasher = tiny_keccak::Keccak::v256();
    hasher.update(bytes);
    hasher.finalize(&mut digest);
    digest
}

fn empty_snapshot() -> StateSnapshot {
    StateSnapshot {
        block_number: 5,
        commitment: vec![0xc0, 0xff, 0xee],
        balances: Vec::new(),
        past_votes: Vec::new(),
        total_supplies: Vec::new(),
        past_total_supplies: Vec::new(),
        delegations: Vec::new(),
    }
}

fn asset_with(contract: &Address, registry: &Address, strategy: &str) -> Asset {
    Asset {
        contract: contract.dup(),
        chain_id: CHAIN_ID,
        voting_power_strategy: strategy.to_owned(),
        delegation: DelegationObject {
            contract: registry.dup(),
            strategy: "SplitDelegation".to_owned(),
        },
    }
}

fn self_record(registry: &Address, context: &Address, account: &Address) -> DelegationRecord {
    DelegationRecord {
        registry: registry.dup(),
        context: context.dup(),
        account: account.dup(),
        entries: Vec::new(),
        expiration: U256::zero(),
    }
}

fn config_with(asset: Asset) -> RiscVotingProtocolConfig {
    RiscVotingProtocolConfig {
        voting_protocol_version: "1".to_owned(),
        assets: vec![asset],
        execution_strategy: "MajorityVoting".to_owned(),
    }
}

/// The signing key, its account address, and a context whose snapshot
/// gives that account `balance` of the one configured asset.
fn voter_setup(balance: u64) -> (k256::ecdsa::SigningKey, Address, Context, RiscVotingProtocolConfig) {
    let token = addr(1);
    let registry = addr(2);
    let sk = k256::ecdsa::SigningKey::from_slice(&[7u8; 32]).unwrap();
    let point = sk.verifying_key().to_sec1_point(false);
    let voter = Address::new(keccak_direct(&point.as_bytes()[1..])[12..].to_vec());
    let mut env = empty_snapshot();
    env.balances.push(BalanceEntry {
        asset: token.dup(),
        account: voter.dup(),
        amount: U256::from_u64(balance),
    });
    env.delegations.push(self_record(&registry, &token, &voter));
    let config = config_with(asset_with(&token, &registry, "BalanceOf"));
    (sk, voter, Context::default(env), config)
}

fn sign_vote(
    sk: &k256::ecdsa::SigningKey,
    dao: &Address,
    proposal_id: &U256,
    direction: u8,
    balance: &U256,
) -> Vec<u8> {
    let digest = zk_voting::attestation::hash_vote(CHAIN_ID, dao, proposal_id, direction, balance);
    let (sig, recid) = sk.sign_prehash_recoverable(&digest);
    let mut raw = sig.to_bytes().to_vec();
    raw.push(recid.to_byte());
    zk_voting::attestation::to_hex_string(&raw).into_bytes()
}

#[test]
fn undelegated_power_is_the_strategy_value() {
    let (_sk, voter, ctx, config) = voter_setup(1000);
    let total = process_total_voting_power(&ctx, &config, &voter, &voter.bytes).unwrap();
    assert_eq!(total, U256::from_u64(1000));
}

#[test]
fn unknown_voting_power_strategy_is_a_config_error() {
    let token = addr(1);
    let registry = addr(2);
    let voter = addr(3);
    let mut env = empty_snapshot();
    env.delegations.push(self_record(&registry, &token, &voter));
    let config = config_with(asset_with(&token, &registry, "SomethingElse"));
    let ctx = Context::default(env);
    let r = process_total_voting_power(&ctx, &config, &voter, &voter.bytes);
    assert_eq!(r.unwrap_err(), VotingError::StrategyNotFound);
}

#[test]
fn get_past_votes_reads_the_historical_table() {
    let token = addr(1);
    let registry = addr(2);
    let voter = addr(3);
    let mut env = empty_snapshot();
    // The live balance differs from the checkpointed weight; the strategy
    // must read the checkpointed one.
    env.balances.push(BalanceEntry {
        asset: token.dup(),
        account: voter.dup(),
        amount: U256::from_u64(1),
    });
    env.past_votes.push(BalanceEntry {
        asset: token.dup(),
        account: voter.dup(),
        amount: U256::from_u64(77),
    });
    env.delegations.push(self_record(&registry, &token, &voter));
    let config = config_with(asset_with(&token, &registry, "GetPastVotes"));
    let ctx = Context::default(env);
    let total = process_total_voting_power(&ctx, &config, &voter, &voter.bytes).unwrap();
    assert_eq!(total, U256::from_u64(77));
}

#[test]
fn delegated_power_is_divided_by_the_ratio() {
    let token = addr(1);
    let registry = addr(2);
    let voter = addr(3);
    let delegator = addr(4);
    let other = addr(5);
    let mut env = empty_snapshot();
    env.balances.push(BalanceEntry {
        asset: token.dup(),
        account: delegator.dup(),
        amount: U256::from_u64(1200),
    });
    // Sum of ratios 40, matching entry 10: emitted ratio 4, so the
    // delegator contributes 1200 / 4 == 300.
    let mut word = vec![0u8; 12];
    word.extend_from_slice(&voter.bytes);
    let mut other_word = vec![0u8; 12];
    other_word.extend_from_slice(&other.bytes);
    env.delegations.push(DelegationRecord {
        registry: registry.dup(),
        context: token.dup(),
        account: delegator.dup(),
        entries: vec![
            DelegationEntry { delegate: word, ratio: U256::from_u64(10) },
            DelegationEntry { delegate: other_word, ratio: U256::from_u64(30) },
        ],
        expiration: U256::zero(),
    });
    let config = config_with(asset_with(&token, &registry, "BalanceOf"));
    let ctx = Context::default(env);
    let total = process_total_voting_power(&ctx, &config, &voter, &delegator.bytes).unwrap();
    assert_eq!(total, U256::from_u64(300));
}

#[test]
fn overflowing_power_is_reported() {
    let token_a = addr(1);
    let token_b = addr(6);
    let registry = addr(2);
    let voter = addr(3);
    let huge = U256 { w0: u64::MAX, w1: u64::MAX, w2: u64::MAX, w3: u64::MAX };
    let mut env = empty_snapshot();
    env.balances.push(BalanceEntry { asset: token_a.dup(), account: voter.dup(), amount: huge });
    env.balances.push(BalanceEntry {
        asset: token_b.dup(),
        account: voter.dup(),
        amount: U256::from_u64(1),
    });
    env.delegations.push(self_record(&registry, &token_a, &voter));
    env.delegations.push(self_record(&registry, &token_b, &voter));
    let mut config = config_with(asset_with(&token_a, &registry, "BalanceOf"));
    config.assets.push(asset_with(&token_b, &registry, "BalanceOf"));
    let ctx = Context::default(env);
    let r = process_total_voting_power(&ctx, &config, &voter, &voter.bytes);
    assert_eq!(r.unwrap_err(), VotingError::PowerOverflow);
}

#[test]
fn added_strategy_binding_is_found() {
    let token = addr(1);
    let registry = addr(2);
    let voter = addr(3);
    let mut env = empty_snapshot();
    env.past_votes.push(BalanceEntry {
        asset: token.dup(),
        account: voter.dup(),
        amount: U256::from_u64(55),
    });
    env.delegations.push(self_record(&registry, &token, &voter));
    let config = config_with(asset_with(&token, &registry, "Checkpointed"));
    let mut ctx = Context::default(env);
    ctx.add_strategy("Checkpointed".to_owned(), VotingPowerStrategyKind::GetPastVotes);
    let total = process_total_voting_power(&ctx, &config, &voter, &voter.bytes).unwrap();
    assert_eq!(total, U256::from_u64(55));
}

#[test]
fn a_later_binding_for_the_same_name_wins() {
    let token = addr(1);
    let registry = addr(2);
    let voter = addr(3);
    let mut env = empty_snapshot();
    env.balances.push(BalanceEntry {
        asset: token.dup(),
        account: voter.dup(),
        amount: U256::from_u64(5),
    });
    env.past_votes.push(BalanceEntry {
        asset: token.dup(),
        account: voter.dup(),
        amount: U256::from_u64(90),
    });
    env.delegations.push(self_record(&registry, &token, &voter));
    let config = config_with(asset_with(&token, &registry, "BalanceOf"));
    let mut ctx = Context::default(env);
    // Rebind "BalanceOf" to the historical strategy: the new binding wins.
    ctx.add_strategy("BalanceOf".to_owned(), VotingPowerStrategyKind::GetPastVotes);
    let total = process_total_voting_power(&ctx, &config, &voter, &voter.bytes).unwrap();
    assert_eq!(total, U256::from_u64(90));
}

#[test]
fn an_empty_context_knows_no_strategy() {
    let token = addr(1);
    let registry = addr(2);
    let voter = addr(3);
    let mut env = empty_snapshot();
    env.delegations.push(self_record(&registry, &token, &voter));
    let config = config_with(asset_with(&token, &registry, "BalanceOf"));
    let ctx = Context::new(env);
    let r = process_total_voting_power(&ctx, &config, &voter, &voter.bytes);
    assert_eq!(r.unwrap_err(), VotingError::StrategyNotFound);
}

#[test]
fn exact_half_participation_fails_and_a_strict_majority_passes() {
    let env = empty_snapshot();
    let ctx = Context::default(env);
    let supply = U256::from_u64(100);
    // Exactly 50 of 100 voting: participation gate not cleared.
    let t1 = Tally { yes: U256::from_u64(50), no: U256::zero(), abstain: U256::zero() };
    assert_eq!(
        ctx.process_execution_strategy("MajorityVoting".to_owned(), &supply, &t1),
        Ok(false)
    );
    // 51 of 100 voting, all yes: passes.
    let t2 = Tally { yes: U256::from_u64(51), no: U256::zero(), abstain: U256::zero() };
    assert_eq!(
        ctx.process_execution_strategy("MajorityVoting".to_owned(), &supply, &t2),
        Ok(true)
    );
}

#[test]
fn yes_must_strictly_beat_half_of_non_abstain() {
    let env = empty_snapshot();
    let ctx = Context::default(env);
    let supply = U256::from_u64(100);
    let t1 = Tally { yes: U256::from_u64(26), no: U256::from_u64(25), abstain: U256::zero() };
    assert_eq!(
        ctx.process_execution_strategy("MajorityVoting".to_owned(), &supply, &t1),
        Ok(true)
    );
    let t2 = Tally { yes: U256::from_u64(25), no: U256::from_u64(26), abstain: U256::zero() };
    assert_eq!(
        ctx.process_execution_strategy("MajorityVoting".to_owned(), &supply, &t2),
        Ok(false)
    );
    let unknown = ctx.process_execution_strategy("Quorum".to_owned(), &supply, &t2);
    assert_eq!(unknown.unwrap_err(), VotingError::StrategyNotFound);
}

#[test]
fn matching_asserted_balance_passes_end_to_end() {
    let (sk, voter, ctx, config) = voter_setup(1000);
    let dao = addr(0xd0);
    let config_contract = addr(0xcc);
    let proposal_id = U256::from_u64(7);
    let balance = U256::from_u64(1000);
    let sig = sign_vote(&sk, &dao, &proposal_id, 1, &balance);
    let journal = evaluate_voting_protocol(
        &ctx,
        &config,
        &sig,
        &voter,
        &dao,
        &proposal_id,
        1,
        &balance,
        &config_contract,
        &voter.bytes,
        CHAIN_ID,
    )
    .unwrap();
    assert_eq!(journal.balance, balance);
    assert_eq!(journal.direction, 1);
    assert_eq!(journal.proposal_id, proposal_id);
    assert_eq!(journal.voter.bytes, voter.bytes);
    assert_eq!(journal.config_contract.bytes, config_contract.bytes);
    assert_eq!(journal.commitment, vec![0xc0, 0xff, 0xee]);
}

#[test]
fn mismatched_asserted_balance_fails_end_to_end() {
    let (sk, voter, ctx, config) = voter_setup(1000);
    let dao = addr(0xd0);
    let config_contract = addr(0xcc);
    let proposal_id = U256::from_u64(7);
    // The voter asserts 999 while the snapshot grants 1000.
    let balance = U256::from_u64(999);
    let sig = sign_vote(&sk, &dao, &proposal_id, 1, &balance);
    let r = evaluate_voting_protocol(
        &ctx,
        &config,
        &sig,
        &voter,
        &dao,
        &proposal_id,
        1,
        &balance,
        &config_contract,
        &voter.bytes,
        CHAIN_ID,
    );
    assert_eq!(r.unwrap_err(), VotingError::BalanceMismatch);
}

#[test]
fn a_signature_by_someone_else_is_rejected() {
    let (_sk, voter, ctx, config) = voter_setup(1000);
    let stranger = k256::ecdsa::SigningKey::from_slice(&[9u8; 32]).unwrap();
    let dao = addr(0xd0);
    let proposal_id = U256::from_u64(7);
    let balance = U256::from_u64(1000);
    let sig = sign_vote(&stranger, &dao, &proposal_id, 1, &balance);
    let r = evaluate_voting_protocol(
        &ctx,
        &config,
        &sig,
        &voter,
        &dao,
        &proposal_id,
        1,
        &balance,
        &addr(0xcc),
        &voter.bytes,
        CHAIN_ID,
    );
    assert_eq!(r.unwrap_err(), VotingError::SignerMismatch);
}

#[test]
fn direction_and_balance_gates() {
    let (sk, voter, ctx, config) = voter_setup(1000);
    let dao = addr(0xd0);
    let proposal_id = U256::from_u64(7);
    let balance = U256::from_u64(1000);
    let sig = sign_vote(&sk, &dao, &proposal_id, 4, &balance);
    let r = evaluate_voting_protocol(
        &ctx, &config, &sig, &voter, &dao, &proposal_id, 4, &balance, &addr(0xcc), &voter.bytes,
        CHAIN_ID,
    );
    assert_eq!(r.unwrap_err(), VotingError::InvalidDirection);

    let zero = U256::zero();
    let sig0 = sign_vote(&sk, &dao, &proposal_id, 2, &zero);
    let r0 = evaluate_voting_protocol(
        &ctx, &config, &sig0, &voter, &dao, &proposal_id, 2, &zero, &addr(0xcc), &voter.bytes,
        CHAIN_ID,
    );
    assert_eq!(r0.unwrap_err(), VotingError::ZeroBalance);
}

#[test]
fn a_malformed_signature_blob_is_rejected() {
    let (_sk, voter, ctx, config) = voter_setup(1000);
    let r = evaluate_voting_protocol(
        &ctx,
        &config,
        &b"abc".to_vec(),
        &voter,
        &addr(0xd0),
        &U256::from_u64(7),
        1,
        &U256::from_u64(1000),
        &addr(0xcc),
        &voter.bytes,
        CHAIN_ID,
    );
    assert_eq!(r.unwrap_err(), VotingError::InvalidSignature);
}

#[test]
fn execution_protocol_commits_a_passing_tally() {
    let token = addr(1);
    let registry = addr(2);
    let mut env = empty_snapshot();
    env.total_supplies.push(SupplyEntry { asset: token.dup(), amount: U256::from_u64(100) });
    let config = config_with(asset_with(&token, &registry, "BalanceOf"));
    let ctx = Context::default(env);
    let tally = Tally { yes: U256::from_u64(26), no: U256::from_u64(25), abstain: U256::zero() };
    let journal = evaluate_execution_protocol(
        &ctx,
        &config,
        &U256::from_u64(3),
        &tally,
        &addr(0xcc),
    )
    .unwrap();
    assert_eq!(journal.tally, tally);
    assert_eq!(journal.proposal_id, U256::from_u64(3));
}

#[test]
fn execution_protocol_rejects_a_failing_tally() {
    let token = addr(1);
    let registry = addr(2);
    let mut env = empty_snapshot();
    env.total_supplies.push(SupplyEntry { asset: token.dup(), amount: U256::from_u64(100) });
    let config = config_with(asset_with(&token, &registry, "BalanceOf"));
    let ctx = Context::default(env);
    let tally = Tally { yes: U256::from_u64(25), no: U256::from_u64(26), abstain: U256::zero() };
    let r = evaluate_execution_protocol(&ctx, &config, &U256::from_u64(3), &tally, &addr(0xcc));
    assert_eq!(r.unwrap_err(), VotingError::ExecutionDenied);
    // The historical supply table is empty, so the historical strategy
    // faults on state access.
    let token2 = addr(1);
    let registry2 = addr(2);
    let mut env2 = empty_snapshot();
    env2.total_supplies.push(SupplyEntry { asset: token2.dup(), amount: U256::from_u64(100) });
    let config2 = config_with(asset_with(&token2, &registry2, "GetPastVotes"));
    let ctx2 = Context::default(env2);
    let r2 = evaluate_execution_protocol(&ctx2, &config2, &U256::from_u64(3), &tally, &addr(0xcc));
    assert_eq!(r2.unwrap_err(), VotingError::StateAccess);
}
