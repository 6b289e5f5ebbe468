use zk_voting::delegation_strategies::{compare_bytes32_to_address, SplitDelegation};
use zk_voting::state::{Address, DelegationEntry, DelegationRecord, StateSnapshot};
use zk_voting::uint256::U256;
use zk_voting::{Asset, DelegationObject, VotingError};

fn addr(tag: u8) -> Address {
    Address::new(vec![tag; 20])
}

/// The 32-byte registry word whose low 20 bytes name `a`.
fn word_for(a: &Address) -> Vec<u8> {
    let mut w = vec![0u8; 12];
    w.extend_from_slice(&a.bytes);
    w
}

fn empty_snapshot() -> StateSnapshot {
    StateSnapshot {
        block_number: 0,
        commitment: Vec::new(),
        balances: Vec::new(),
        past_votes: Vec::new(),
        total_supplies: Vec::new(),
        past_total_supplies: Vec::new(),
        delegations: Vec::new(),
    }
}

fn asset_with(contract: &Address, registry: &Address, strategy: &str) -> Asset {
    Asset {
        contract: contract.dup(),
        chain_id: 11155111,
        voting_power_strategy: strategy.to_owned(),
        delegation: DelegationObject {
            contract: registry.dup(),
            strategy: "SplitDelegation".to_owned(),
        },
    }
}

fn record(
    registry: &Address,
    context: &Address,
    account: &Address,
    entries: Vec<DelegationEntry>,
) -> DelegationRecord {
    DelegationRecord {
        registry: registry.dup(),
        context: context.dup(),
        account: account.dup(),
        entries,
        expiration: U256::zero(),
    }
}

#[test]
fn empty_record_self_delegates() {
    let token = addr(1);
    let registry = addr(2);
    let voter = addr(3);
    let mut env = empty_snapshot();
    env.delegations.push(record(&registry, &token, &voter, Vec::new()));
    let asset = asset_with(&token, &registry, "BalanceOf");
    let ds = SplitDelegation
        .process(&env, &voter, &asset, &voter.bytes)
        .unwrap();
    assert_eq!(ds.len(), 1);
    assert_eq!(ds[0].delegate.bytes, voter.bytes);
    assert_eq!(ds[0].ratio, U256::from_u64(1));
}

#[test]
fn misaligned_blob_is_rejected() {
    let token = addr(1);
    let registry = addr(2);
    let voter = addr(3);
    let env = empty_snapshot();
    let asset = asset_with(&token, &registry, "BalanceOf");
    let blob = vec![0u8; 19];
    let r = SplitDelegation.process(&env, &voter, &asset, &blob);
    assert_eq!(r.unwrap_err(), VotingError::InvalidDelegationLength);
    let blob2 = vec![0u8; 41];
    let r2 = SplitDelegation.process(&env, &voter, &asset, &blob2);
    assert_eq!(r2.unwrap_err(), VotingError::InvalidDelegationLength);
}

#[test]
fn ratio_is_total_over_matching_entry() {
    let token = addr(1);
    let registry = addr(2);
    let voter = addr(3);
    let delegator = addr(4);
    let other = addr(5);
    let mut env = empty_snapshot();
    // The delegator spreads ratio 10 to the voter and 30 elsewhere: the
    // emitted ratio is the sum (40) divided by the matching entry (10).
    env.delegations.push(record(
        &registry,
        &token,
        &delegator,
        vec![
            DelegationEntry { delegate: word_for(&voter), ratio: U256::from_u64(10) },
            DelegationEntry { delegate: word_for(&other), ratio: U256::from_u64(30) },
        ],
    ));
    let asset = asset_with(&token, &registry, "BalanceOf");
    let ds = SplitDelegation
        .process(&env, &voter, &asset, &delegator.bytes)
        .unwrap();
    assert_eq!(ds.len(), 1);
    assert_eq!(ds[0].delegate.bytes, delegator.bytes);
    assert_eq!(ds[0].ratio, U256::from_u64(4));
}

#[test]
fn one_bad_candidate_fails_the_whole_call() {
    let token = addr(1);
    let registry = addr(2);
    let voter = addr(3);
    let good = addr(4);
    let bad = addr(5);
    let other = addr(6);
    let mut env = empty_snapshot();
    env.delegations.push(record(&registry, &token, &good, Vec::new()));
    // The bad candidate delegates elsewhere and never to the voter.
    env.delegations.push(record(
        &registry,
        &token,
        &bad,
        vec![DelegationEntry { delegate: word_for(&other), ratio: U256::from_u64(7) }],
    ));
    let asset = asset_with(&token, &registry, "BalanceOf");
    let mut blob = good.bytes.clone();
    blob.extend_from_slice(&bad.bytes);
    let r = SplitDelegation.process(&env, &voter, &asset, &blob);
    assert_eq!(r.unwrap_err(), VotingError::InvalidDelegations);
}

#[test]
fn success_returns_one_delegation_per_candidate() {
    let token = addr(1);
    let registry = addr(2);
    let voter = addr(3);
    let first = addr(4);
    let second = addr(5);
    let mut env = empty_snapshot();
    env.delegations.push(record(&registry, &token, &first, Vec::new()));
    env.delegations.push(record(
        &registry,
        &token,
        &second,
        vec![DelegationEntry { delegate: word_for(&voter), ratio: U256::from_u64(5) }],
    ));
    let asset = asset_with(&token, &registry, "BalanceOf");
    let mut blob = first.bytes.clone();
    blob.extend_from_slice(&second.bytes);
    let ds = SplitDelegation.process(&env, &voter, &asset, &blob).unwrap();
    assert_eq!(ds.len(), 2);
    assert_eq!(ds[0].delegate.bytes, first.bytes);
    assert_eq!(ds[0].ratio, U256::from_u64(1));
    assert_eq!(ds[1].delegate.bytes, second.bytes);
    // The single matching entry holds the whole sum: ratio 5 / 5 == 1.
    assert_eq!(ds[1].ratio, U256::from_u64(1));
}

#[test]
fn missing_registry_record_is_a_state_fault() {
    let token = addr(1);
    let registry = addr(2);
    let voter = addr(3);
    let unknown = addr(9);
    let env = empty_snapshot();
    let asset = asset_with(&token, &registry, "BalanceOf");
    let r = SplitDelegation.process(&env, &voter, &asset, &unknown.bytes);
    assert_eq!(r.unwrap_err(), VotingError::StateAccess);
}

#[test]
fn empty_blob_resolves_to_nothing() {
    let token = addr(1);
    let registry = addr(2);
    let voter = addr(3);
    let env = empty_snapshot();
    let asset = asset_with(&token, &registry, "BalanceOf");
    let ds = SplitDelegation.process(&env, &voter, &asset, &Vec::new()).unwrap();
    assert_eq!(ds.len(), 0);
}

#[test]
fn word_comparison_reads_the_low_twenty_bytes() {
    let a = addr(7);
    assert!(compare_bytes32_to_address(&word_for(&a), &a));
    let mut w = word_for(&a);
    w[11] = 0xff; // high bytes do not matter
    assert!(compare_bytes32_to_address(&w, &a));
    w[12] = 0xff; // low bytes do
    assert!(!compare_bytes32_to_address(&w, &a));
}
