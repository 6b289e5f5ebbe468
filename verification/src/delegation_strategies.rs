//! Split Delegation: resolving which accounts delegated voting weight to a
//! voter, and in what proportion.
//!
//! The caller supplies a blob of claimed upstream delegator addresses; each
//! one is checked against the delegation registry recorded in the state
//! snapshot.  A candidate with no recorded entries self-delegates with ratio
//! one; otherwise the single entry naming the voter fixes the candidate's
//! ratio.  Resolution is all or nothing: one bad candidate fails the call.

use vstd::prelude::*;
use vstd::arithmetic::div_mod::*;
use crate::state::{
    spec_lookup_delegations, spec_sum_ratios, lemma_sum_ratios_push, lemma_sum_ratios_prefix_le,
    Address, DelegationEntry, DelegationRecord, StateSnapshot,
};
use crate::uint256::{p256, U256};
use crate::{Asset, VotingError};

verus! {

/// One resolved delegate relationship: `delegate` counts toward the voter
/// with proportion `ratio`.
#[derive(Debug)]
pub struct Delegation {
    pub delegate: Address,
    pub ratio: U256,
}

/// The 20-byte candidate addresses packed in `data`, in order.
pub open spec fn spec_candidates(data: Seq<u8>) -> Seq<Seq<u8>> {
    Seq::new(data.len() / 20, |i: int| data.subrange(20 * i, 20 * i + 20))
}

/// A 32-byte registry word names `addr` when its low 20 bytes equal it.
pub open spec fn spec_b32_matches(word: Seq<u8>, addr: Seq<u8>) -> bool {
    word.subrange(12, 32) == addr
}

/// The ratio of the first recorded entry whose delegate word names `voter`.
pub open spec fn spec_match_ratio(entries: Seq<DelegationEntry>, voter: Seq<u8>) -> Option<U256>
    decreases entries.len(),
{
    if entries.len() == 0 {
        None
    } else if spec_b32_matches(entries[0].delegate@, voter) {
        Some(entries[0].ratio)
    } else {
        spec_match_ratio(entries.drop_first(), voter)
    }
}

/// A recorded entry set resolves for `voter` when it is empty (the
/// candidate self-delegates) or some entry names the voter.
pub open spec fn spec_entries_resolve(entries: Seq<DelegationEntry>, voter: Seq<u8>) -> bool {
    entries.len() == 0 || spec_match_ratio(entries, voter) is Some
}

/// The emitted ratio: one for a self-delegating candidate, otherwise the
/// sum of all recorded ratios divided by the matching entry's ratio.
pub open spec fn spec_entries_ratio(entries: Seq<DelegationEntry>, voter: Seq<u8>) -> nat {
    if entries.len() == 0 {
        1
    } else {
        spec_sum_ratios(entries) / spec_match_ratio(entries, voter).unwrap()@
    }
}

/// The registry record governing `cand` for this asset: the registry is the
/// asset's delegation contract and the context is the asset contract itself.
pub open spec fn spec_candidate_record(env: StateSnapshot, asset: Asset, cand: Seq<u8>) -> Option<
    DelegationRecord,
> {
    spec_lookup_delegations(env.delegations@, asset.delegation.contract@, asset.contract@, cand)
}

/// Every candidate has a registry record in the snapshot.
pub open spec fn spec_all_present(env: StateSnapshot, asset: Asset, cs: Seq<Seq<u8>>) -> bool {
    forall|i: int| 0 <= i < cs.len() ==> spec_candidate_record(env, asset, cs[i]) is Some
}

/// One candidate's record exists and resolves for `voter`.
pub open spec fn spec_candidate_resolves(
    env: StateSnapshot,
    asset: Asset,
    cand: Seq<u8>,
    voter: Seq<u8>,
) -> bool {
    &&& spec_candidate_record(env, asset, cand) is Some
    &&& spec_entries_resolve(spec_candidate_record(env, asset, cand).unwrap().entries@, voter)
}

/// Every candidate resolves.
pub open spec fn spec_all_resolve(
    env: StateSnapshot,
    asset: Asset,
    cs: Seq<Seq<u8>>,
    voter: Seq<u8>,
) -> bool {
    forall|i: int| 0 <= i < cs.len() ==> spec_candidate_resolves(env, asset, cs[i], voter)
}

/// The ratio emitted for one resolving candidate.
pub open spec fn spec_candidate_ratio(
    env: StateSnapshot,
    asset: Asset,
    cand: Seq<u8>,
    voter: Seq<u8>,
) -> nat {
    spec_entries_ratio(spec_candidate_record(env, asset, cand).unwrap().entries@, voter)
}

/// What Split Delegation returns, as (delegate bytes, ratio) pairs: the
/// blob must split into whole addresses, every candidate must have a
/// record, and every candidate must resolve; no partial result exists.
pub open spec fn spec_split_delegation(
    env: StateSnapshot,
    asset: Asset,
    voter: Seq<u8>,
    data: Seq<u8>,
) -> Result<Seq<(Seq<u8>, nat)>, VotingError> {
    if data.len() % 20 != 0 {
        Err(VotingError::InvalidDelegationLength)
    } else if !spec_all_present(env, asset, spec_candidates(data)) {
        Err(VotingError::StateAccess)
    } else if !spec_all_resolve(env, asset, spec_candidates(data), voter) {
        Err(VotingError::InvalidDelegations)
    } else {
        Ok(
            Seq::new(
                spec_candidates(data).len(),
                |i: int|
                    (
                        spec_candidates(data)[i],
                        spec_candidate_ratio(env, asset, spec_candidates(data)[i], voter),
                    ),
            ),
        )
    }
}

/// A matching entry's ratio is positive when all recorded ratios are.
proof fn lemma_match_ratio_pos(entries: Seq<DelegationEntry>, voter: Seq<u8>)
    requires
        forall|i: int| 0 <= i < entries.len() ==> (#[trigger] entries[i]).ratio@ >= 1,
        spec_match_ratio(entries, voter) is Some,
    ensures
        spec_match_ratio(entries, voter).unwrap()@ >= 1,
    decreases entries.len(),
{
    if entries.len() > 0 && !spec_b32_matches(entries[0].delegate@, voter) {
        lemma_match_ratio_pos(entries.drop_first(), voter);
    }
}

/// A matching entry's ratio never exceeds the sum of all recorded ratios.
proof fn lemma_match_ratio_le_sum(entries: Seq<DelegationEntry>, voter: Seq<u8>)
    requires
        spec_match_ratio(entries, voter) is Some,
    ensures
        spec_match_ratio(entries, voter).unwrap()@ <= spec_sum_ratios(entries),
    decreases entries.len(),
{
    if entries.len() > 0 && !spec_b32_matches(entries[0].delegate@, voter) {
        lemma_match_ratio_le_sum(entries.drop_first(), voter);
    }
}

/// A candidate with no recorded delegation entries always resolves to a
/// self-delegation with ratio one, whoever the voter is.
pub proof fn lemma_empty_record_self_delegates(
    env: StateSnapshot,
    asset: Asset,
    cand: Seq<u8>,
    voter: Seq<u8>,
)
    requires
        spec_candidate_record(env, asset, cand) is Some,
        spec_candidate_record(env, asset, cand).unwrap().entries@.len() == 0,
    ensures
        spec_candidate_resolves(env, asset, cand, voter),
        spec_candidate_ratio(env, asset, cand, voter) == 1,
{
}

/// A delegation blob whose length is not a whole number of 20-byte
/// addresses fails with the invalid-length error, whatever else the
/// snapshot holds: no partial result exists.
pub proof fn lemma_invalid_length_rejected(
    env: StateSnapshot,
    asset: Asset,
    voter: Seq<u8>,
    data: Seq<u8>,
)
    requires
        data.len() % 20 != 0,
    ensures
        spec_split_delegation(env, asset, voter, data) == Err::<Seq<(Seq<u8>, nat)>, VotingError>(
            VotingError::InvalidDelegationLength,
        ),
{
}

/// Resolution is all or nothing: one candidate that fails to resolve
/// fails the whole call, and a successful call returns exactly one
/// delegation per candidate, never fewer.
pub proof fn lemma_all_or_nothing(env: StateSnapshot, asset: Asset, voter: Seq<u8>, data: Seq<u8>)
    requires
        data.len() % 20 == 0,
    ensures
        (exists|i: int|
            0 <= i < spec_candidates(data).len() && !spec_candidate_resolves(
                env,
                asset,
                spec_candidates(data)[i],
                voter,
            )) ==> spec_split_delegation(env, asset, voter, data) is Err,
        spec_split_delegation(env, asset, voter, data) is Ok ==> spec_split_delegation(
            env,
            asset,
            voter,
            data,
        ).unwrap().len() == data.len() / 20,
{
}

/// The bytes of `v` from `start` (inclusive) to `end` (exclusive).
pub fn sub_bytes(v: &Vec<u8>, start: usize, end: usize) -> (r: Vec<u8>)
    requires
        start <= end <= v@.len(),
    ensures
        r@ == v@.subrange(start as int, end as int),
{
    let mut r: Vec<u8> = Vec::new();
    let mut i: usize = start;
    while i < end
        invariant
            start <= i <= end <= v@.len(),
            r@ == v@.subrange(start as int, i as int),
        decreases end - i,
    {
        r.push(v[i]);
        proof {
            assert(v@.subrange(start as int, i as int).push(v@[i as int]) =~= v@.subrange(
                start as int,
                i + 1,
            ));
        }
        i = i + 1;
    }
    r
}

/// True exactly when the low 20 bytes of a 32-byte registry word equal the
/// given account address.
pub fn compare_bytes32_to_address(bytes32: &Vec<u8>, address: &Address) -> (r: bool)
    requires
        bytes32@.len() == 32,
        address@.len() == 20,
    ensures
        r == spec_b32_matches(bytes32@, address@),
{
    let mut i: usize = 0;
    while i < 20
        invariant
            i <= 20,
            bytes32@.len() == 32,
            address@.len() == 20,
            forall|k: int| 0 <= k < i ==> bytes32@[12 + k] == address@[k],
        decreases 20 - i,
    {
        if bytes32[12 + i] != address.bytes[i] {
            proof {
                assert(bytes32@.subrange(12, 32)[i as int] == bytes32@[12 + i]);
            }
            return false;
        }
        i = i + 1;
    }
    proof {
        assert(bytes32@.subrange(12, 32) =~= address@);
    }
    true
}

/// The sum of all recorded ratios; under the snapshot invariant it always
/// fits in 256 bits.
fn total_ratios(entries: &Vec<DelegationEntry>) -> (r: U256)
    requires
        spec_sum_ratios(entries@) < p256(),
    ensures
        r@ == spec_sum_ratios(entries@),
{
    let mut acc = U256::zero();
    let mut i: usize = 0;
    proof {
        assert(entries@.take(0) =~= Seq::<DelegationEntry>::empty());
    }
    while i < entries.len()
        invariant
            i <= entries@.len(),
            spec_sum_ratios(entries@) < p256(),
            acc@ == spec_sum_ratios(entries@.take(i as int)),
        decreases entries@.len() - i,
    {
        proof {
            lemma_sum_ratios_push(entries@.take(i as int), entries@[i as int]);
            assert(entries@.take(i as int).push(entries@[i as int]) =~= entries@.take(i + 1));
            lemma_sum_ratios_prefix_le(entries@, i + 1);
        }
        acc = match acc.checked_add(&entries[i].ratio) {
            Some(s) => s,
            None => {
                proof {
                    assert(false);
                }
                acc
            },
        };
        i = i + 1;
    }
    proof {
        assert(entries@.take(entries@.len() as int) =~= entries@);
    }
    acc
}

/// The ratio of the first entry naming `voter`, scanned in record order.
fn find_match(entries: &Vec<DelegationEntry>, voter: &Address) -> (r: Option<U256>)
    requires
        voter@.len() == 20,
        forall|i: int| 0 <= i < entries@.len() ==> (#[trigger] entries@[i]).delegate@.len() == 32,
    ensures
        r == spec_match_ratio(entries@, voter@),
{
    let mut i: usize = 0;
    proof {
        assert(entries@.skip(0) =~= entries@);
    }
    while i < entries.len()
        invariant
            i <= entries@.len(),
            voter@.len() == 20,
            forall|k: int| 0 <= k < entries@.len() ==> (#[trigger] entries@[k]).delegate@.len()
                == 32,
            spec_match_ratio(entries@, voter@) == spec_match_ratio(
                entries@.skip(i as int),
                voter@,
            ),
        decreases entries@.len() - i,
    {
        if compare_bytes32_to_address(&entries[i].delegate, voter) {
            return Some(entries[i].ratio);
        }
        proof {
            assert(entries@.skip(i as int).drop_first() =~= entries@.skip(i + 1));
        }
        i = i + 1;
    }
    None
}

/// Resolves one candidate's recorded entries: `None` when the candidate
/// neither self-delegates nor delegates to `voter`, otherwise the emitted
/// ratio, which is always positive.
fn resolve_entries(entries: &Vec<DelegationEntry>, voter: &Address) -> (r: Option<U256>)
    requires
        voter@.len() == 20,
        forall|i: int| 0 <= i < entries@.len() ==> (#[trigger] entries@[i]).delegate@.len() == 32
            && entries@[i].ratio@ >= 1,
        spec_sum_ratios(entries@) < p256(),
    ensures
        r is Some <==> spec_entries_resolve(entries@, voter@),
        r is Some ==> r.unwrap()@ == spec_entries_ratio(entries@, voter@) && r.unwrap()@ >= 1,
{
    if entries.len() == 0 {
        return Some(U256::from_u64(1));
    }
    let total = total_ratios(entries);
    match find_match(entries, voter) {
        None => None,
        Some(matched) => {
            proof {
                lemma_match_ratio_pos(entries@, voter@);
                lemma_match_ratio_le_sum(entries@, voter@);
            }
            let d = total.div_rem(&matched);
            proof {
                lemma_div_is_ordered(matched@ as int, total@ as int, matched@ as int);
                lemma_div_basics_3(matched@ as int);
            }
            Some(d.0)
        },
    }
}

/// The Split Delegation strategy.
pub struct SplitDelegation;

impl SplitDelegation {
    /// Decodes `additional_data` as packed candidate delegator addresses
    /// and resolves each against the delegation registry fixed in the
    /// snapshot.  Exactly one delegation per candidate is returned on
    /// success; any failing candidate fails the whole call.
    pub fn process(
        &self,
        env: &StateSnapshot,
        account: &Address,
        asset: &Asset,
        additional_data: &Vec<u8>,
    ) -> (r: Result<Vec<Delegation>, VotingError>)
        requires
            env.wf(),
            asset.wf(),
            account.wf(),
        ensures
            match r {
                Ok(ds) => {
                    &&& spec_split_delegation(*env, *asset, account@, additional_data@) is Ok
                    &&& ds@.len() == spec_split_delegation(
                        *env,
                        *asset,
                        account@,
                        additional_data@,
                    ).unwrap().len()
                    &&& forall|i: int|
                        0 <= i < ds@.len() ==> (#[trigger] ds@[i]).delegate@
                            == spec_split_delegation(
                            *env,
                            *asset,
                            account@,
                            additional_data@,
                        ).unwrap()[i].0 && ds@[i].ratio@ == spec_split_delegation(
                            *env,
                            *asset,
                            account@,
                            additional_data@,
                        ).unwrap()[i].1 && ds@[i].ratio@ >= 1 && ds@[i].delegate.wf()
                },
                Err(e) => spec_split_delegation(*env, *asset, account@, additional_data@) == Err::<
                    Seq<(Seq<u8>, nat)>,
                    VotingError,
                >(e),
            },
    {
        let ghost cs = spec_candidates(additional_data@);
        if additional_data.len() % 20 != 0 {
            return Err(VotingError::InvalidDelegationLength);
        }
        // Decode the packed 20-byte candidate addresses.
        let n = additional_data.len() / 20;
        let mut cands: Vec<Address> = Vec::new();
        let mut k: usize = 0;
        while k < n
            invariant
                n == additional_data@.len() / 20,
                additional_data@.len() <= usize::MAX,
                additional_data@.len() % 20 == 0,
                cs == spec_candidates(additional_data@),
                k <= n,
                cands@.len() == k,
                forall|i: int| 0 <= i < k ==> (#[trigger] cands@[i])@ == cs[i] && cands@[i].wf(),
            decreases n - k,
        {
            proof {
                lemma_fundamental_div_mod(additional_data@.len() as int, 20);
                assert(additional_data@.len() == 20 * n);
                assert(20 * k + 20 <= additional_data@.len());
            }
            let cand_bytes = sub_bytes(additional_data, 20 * k, 20 * k + 20);
            cands.push(Address::new(cand_bytes));
            k = k + 1;
        }
        // Resolve each candidate against the registry; keep scanning after
        // a resolution failure so that a missing state entry still surfaces
        // as a state-access fault.
        let mut out: Vec<Delegation> = Vec::new();
        let mut failed = false;
        let mut j: usize = 0;
        while j < n
            invariant
                env.wf(),
                asset.wf(),
                account.wf(),
                n == cands@.len(),
                additional_data@.len() % 20 == 0,
                cs == spec_candidates(additional_data@),
                cs.len() == n,
                forall|i: int| 0 <= i < n ==> (#[trigger] cands@[i])@ == cs[i] && cands@[i].wf(),
                j <= n,
                forall|i: int| 0 <= i < j ==> spec_candidate_record(*env, *asset, cs[i]) is Some,
                failed == !(forall|i: int|
                    0 <= i < j ==> spec_candidate_resolves(*env, *asset, cs[i], account@)),
                !failed ==> out@.len() == j,
                !failed ==> forall|i: int|
                    0 <= i < j ==> (#[trigger] out@[i]).delegate@ == cs[i] && out@[i].ratio@
                        == spec_candidate_ratio(*env, *asset, cs[i], account@) && out@[i].ratio@
                        >= 1 && out@[i].delegate.wf(),
            decreases n - j,
        {
            let cand = &cands[j];
            match env.read_delegations(&asset.delegation.contract, &asset.contract, cand) {
                None => {
                    return Err(VotingError::StateAccess);
                },
                Some(rec) => {
                    proof {
                        env.lemma_found_record_wf(
                            asset.delegation.contract@,
                            asset.contract@,
                            cand@,
                        );
                    }
                    match resolve_entries(&rec.entries, account) {
                        None => {
                            failed = true;
                        },
                        Some(ratio) => {
                            if !failed {
                                out.push(Delegation { delegate: cand.dup(), ratio });
                            }
                        },
                    }
                },
            }
            j = j + 1;
        }
        if failed {
            Err(VotingError::InvalidDelegations)
        } else {
            Ok(out)
        }
    }
}

} // verus!
