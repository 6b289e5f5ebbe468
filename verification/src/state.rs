//! The fixed state snapshot that one evaluation run reads.
//!
//! In the verified computation context every ledger read is a lookup into a
//! previously-proven snapshot held as plain values; the snapshot is the sole
//! source of truth for one proposal evaluation and never changes during it.

use vstd::prelude::*;
use crate::uint256::{p256, U256};

verus! {

/// A 20-byte ledger account identifier.
#[derive(Debug)]
pub struct Address {
    pub bytes: Vec<u8>,
}

impl View for Address {
    type V = Seq<u8>;

    open spec fn view(&self) -> Seq<u8> {
        self.bytes@
    }
}

/// True exactly when the two byte strings are equal.
pub fn bytes_eq(a: &Vec<u8>, b: &Vec<u8>) -> (r: bool)
    ensures
        r == (a@ == b@),
{
    if a.len() != b.len() {
        return false;
    }
    let mut i: usize = 0;
    while i < a.len()
        invariant
            i <= a@.len(),
            a@.len() == b@.len(),
            forall|k: int| 0 <= k < i ==> a@[k] == b@[k],
        decreases a@.len() - i,
    {
        if a[i] != b[i] {
            return false;
        }
        i = i + 1;
    }
    proof {
        assert(a@ =~= b@);
    }
    true
}

/// A fresh byte string with the same contents.
pub fn clone_bytes(v: &Vec<u8>) -> (r: Vec<u8>)
    ensures
        r@ == v@,
{
    let mut r: Vec<u8> = Vec::new();
    let mut i: usize = 0;
    while i < v.len()
        invariant
            i <= v@.len(),
            r@ == v@.take(i as int),
        decreases v@.len() - i,
    {
        r.push(v[i]);
        proof {
            assert(v@.take(i as int).push(v@[i as int]) =~= v@.take(i + 1));
        }
        i = i + 1;
    }
    proof {
        assert(v@.take(v@.len() as int) =~= v@);
    }
    r
}

impl Address {
    /// An address is 20 bytes long.
    pub open spec fn wf(&self) -> bool {
        self@.len() == 20
    }

    pub fn new(bytes: Vec<u8>) -> (r: Address)
        requires
            bytes@.len() == 20,
        ensures
            r@ == bytes@,
            r.wf(),
    {
        Address { bytes }
    }

    /// A fresh address with the same bytes.
    pub fn dup(&self) -> (r: Address)
        ensures
            r@ == self@,
    {
        Address { bytes: clone_bytes(&self.bytes) }
    }

    /// True exactly when the two addresses are the same account.
    pub fn eq_addr(&self, other: &Address) -> (r: bool)
        ensures
            r == (self@ == other@),
    {
        bytes_eq(&self.bytes, &other.bytes)
    }
}

/// One account's holding of one asset, at the snapshot height.
#[derive(Debug)]
pub struct BalanceEntry {
    pub asset: Address,
    pub account: Address,
    pub amount: U256,
}

/// One asset's total supply figure, at the snapshot height.
#[derive(Debug)]
pub struct SupplyEntry {
    pub asset: Address,
    pub amount: U256,
}

/// One (delegate, ratio) pair recorded in a delegation registry.  The
/// delegate field is a full 32-byte word whose low 20 bytes name the
/// delegate account.
#[derive(Debug)]
pub struct DelegationEntry {
    pub delegate: Vec<u8>,
    pub ratio: U256,
}

/// Everything a delegation registry returns for one delegator account,
/// scoped by the registry contract and a context address.
#[derive(Debug)]
pub struct DelegationRecord {
    pub registry: Address,
    pub context: Address,
    pub account: Address,
    pub entries: Vec<DelegationEntry>,
    pub expiration: U256,
}

/// A proof-backed view of ledger state fixed at one block height.
#[derive(Debug)]
pub struct StateSnapshot {
    pub block_number: u64,
    pub commitment: Vec<u8>,
    pub balances: Vec<BalanceEntry>,
    pub past_votes: Vec<BalanceEntry>,
    pub total_supplies: Vec<SupplyEntry>,
    pub past_total_supplies: Vec<SupplyEntry>,
    pub delegations: Vec<DelegationRecord>,
}

/// The first amount recorded for `(asset, account)`, if any.
pub open spec fn spec_lookup_amount(entries: Seq<BalanceEntry>, asset: Seq<u8>, account: Seq<u8>) -> Option<U256>
    decreases entries.len(),
{
    if entries.len() == 0 {
        None
    } else if entries[0].asset@ == asset && entries[0].account@ == account {
        Some(entries[0].amount)
    } else {
        spec_lookup_amount(entries.drop_first(), asset, account)
    }
}

/// The first supply recorded for `asset`, if any.
pub open spec fn spec_lookup_supply(entries: Seq<SupplyEntry>, asset: Seq<u8>) -> Option<U256>
    decreases entries.len(),
{
    if entries.len() == 0 {
        None
    } else if entries[0].asset@ == asset {
        Some(entries[0].amount)
    } else {
        spec_lookup_supply(entries.drop_first(), asset)
    }
}

/// The first delegation record for `(registry, context, account)`, if any.
pub open spec fn spec_lookup_delegations(
    records: Seq<DelegationRecord>,
    registry: Seq<u8>,
    context: Seq<u8>,
    account: Seq<u8>,
) -> Option<DelegationRecord>
    decreases records.len(),
{
    if records.len() == 0 {
        None
    } else if records[0].registry@ == registry && records[0].context@ == context
        && records[0].account@ == account {
        Some(records[0])
    } else {
        spec_lookup_delegations(records.drop_first(), registry, context, account)
    }
}

/// The sum of the ratios of all recorded entries.
pub open spec fn spec_sum_ratios(entries: Seq<DelegationEntry>) -> nat
    decreases entries.len(),
{
    if entries.len() == 0 {
        0
    } else {
        entries[0].ratio@ + spec_sum_ratios(entries.drop_first())
    }
}

/// Summing one more entry adds its ratio.
pub proof fn lemma_sum_ratios_push(entries: Seq<DelegationEntry>, e: DelegationEntry)
    ensures
        spec_sum_ratios(entries.push(e)) == spec_sum_ratios(entries) + e.ratio@,
    decreases entries.len(),
{
    if entries.len() == 0 {
        assert(entries.push(e).drop_first() =~= Seq::<DelegationEntry>::empty());
        assert(entries.push(e)[0] == e);
        assert(spec_sum_ratios(entries.push(e)) == e.ratio@ + spec_sum_ratios(
            entries.push(e).drop_first(),
        ));
    } else {
        assert(entries.push(e).drop_first() =~= entries.drop_first().push(e));
        lemma_sum_ratios_push(entries.drop_first(), e);
        assert(entries.push(e)[0] == entries[0]);
        assert(spec_sum_ratios(entries.push(e)) == entries[0].ratio@ + spec_sum_ratios(
            entries.drop_first().push(e),
        ));
    }
}

/// A prefix never sums to more than the whole.
pub proof fn lemma_sum_ratios_prefix_le(entries: Seq<DelegationEntry>, i: int)
    requires
        0 <= i <= entries.len(),
    ensures
        spec_sum_ratios(entries.take(i)) <= spec_sum_ratios(entries),
    decreases entries.len() - i,
{
    if i < entries.len() {
        lemma_sum_ratios_push(entries.take(i), entries[i]);
        assert(entries.take(i).push(entries[i]) =~= entries.take(i + 1));
        lemma_sum_ratios_prefix_le(entries, i + 1);
    } else {
        assert(entries.take(i) =~= entries);
    }
}

/// Every delegation record read from the ledger is well formed: delegate
/// words are 32 bytes, ratios are positive, and the ratios of one record
/// sum to a value that fits in 256 bits.
pub open spec fn record_wf(r: DelegationRecord) -> bool {
    &&& forall|i: int|
        0 <= i < r.entries@.len() ==> (#[trigger] r.entries@[i]).delegate@.len() == 32
            && r.entries@[i].ratio@ >= 1
    &&& spec_sum_ratios(r.entries@) < p256()
}

impl StateSnapshot {
    /// The snapshot invariant: every delegation record is well formed.
    pub open spec fn wf(&self) -> bool {
        forall|i: int| 0 <= i < self.delegations@.len() ==> record_wf(#[trigger] self.delegations@[i])
    }

    /// Decides the snapshot invariant, so that a caller handed arbitrary
    /// data can establish it before evaluating.
    pub fn check_wf(&self) -> (r: bool)
        ensures
            r == self.wf(),
    {
        let mut i: usize = 0;
        while i < self.delegations.len()
            invariant
                i <= self.delegations@.len(),
                forall|k: int| 0 <= k < i ==> record_wf(#[trigger] self.delegations@[k]),
            decreases self.delegations@.len() - i,
        {
            if !check_record_wf(&self.delegations[i]) {
                return false;
            }
            i = i + 1;
        }
        true
    }

    /// The current balance of `account` in `asset`.
    pub fn read_balance(&self, asset: &Address, account: &Address) -> (r: Option<U256>)
        ensures
            r == spec_lookup_amount(self.balances@, asset@, account@),
    {
        lookup_amount(&self.balances, asset, account)
    }

    /// The voting weight of `account` in `asset` as of the snapshot height.
    pub fn read_past_votes(&self, asset: &Address, account: &Address) -> (r: Option<U256>)
        ensures
            r == spec_lookup_amount(self.past_votes@, asset@, account@),
    {
        lookup_amount(&self.past_votes, asset, account)
    }

    /// The current total supply of `asset`.
    pub fn read_total_supply(&self, asset: &Address) -> (r: Option<U256>)
        ensures
            r == spec_lookup_supply(self.total_supplies@, asset@),
    {
        lookup_supply(&self.total_supplies, asset)
    }

    /// The total supply of `asset` as of the snapshot height.
    pub fn read_past_total_supply(&self, asset: &Address) -> (r: Option<U256>)
        ensures
            r == spec_lookup_supply(self.past_total_supplies@, asset@),
    {
        lookup_supply(&self.past_total_supplies, asset)
    }

    /// The delegation record of `account` in the registry at `registry`,
    /// scoped by `context`.
    pub fn read_delegations(&self, registry: &Address, context: &Address, account: &Address) -> (r:
        Option<&DelegationRecord>)
        ensures
            match r {
                Some(rec) => spec_lookup_delegations(self.delegations@, registry@, context@, account@)
                    == Some(*rec),
                None => spec_lookup_delegations(self.delegations@, registry@, context@, account@) is None,
            },
    {
        let mut i: usize = 0;
        proof {
            assert(self.delegations@.skip(0) =~= self.delegations@);
        }
        while i < self.delegations.len()
            invariant
                i <= self.delegations@.len(),
                spec_lookup_delegations(self.delegations@, registry@, context@, account@)
                    == spec_lookup_delegations(self.delegations@.skip(i as int), registry@, context@, account@),
            decreases self.delegations@.len() - i,
        {
            let rec = &self.delegations[i];
            if rec.registry.eq_addr(registry) && rec.context.eq_addr(context) && rec.account.eq_addr(
                account,
            ) {
                return Some(rec);
            }
            proof {
                assert(self.delegations@.skip(i as int).drop_first() =~= self.delegations@.skip(
                    i + 1,
                ));
            }
            i = i + 1;
        }
        None
    }

    /// A well-formed record found in a well-formed snapshot.
    pub proof fn lemma_found_record_wf(
        &self,
        registry: Seq<u8>,
        context: Seq<u8>,
        account: Seq<u8>,
    )
        requires
            self.wf(),
            spec_lookup_delegations(self.delegations@, registry, context, account) is Some,
        ensures
            record_wf(spec_lookup_delegations(self.delegations@, registry, context, account).unwrap()),
    {
        Self::lemma_lookup_found_wf(self.delegations@, registry, context, account);
    }

    proof fn lemma_lookup_found_wf(
        records: Seq<DelegationRecord>,
        registry: Seq<u8>,
        context: Seq<u8>,
        account: Seq<u8>,
    )
        requires
            forall|i: int| 0 <= i < records.len() ==> record_wf(#[trigger] records[i]),
            spec_lookup_delegations(records, registry, context, account) is Some,
        ensures
            record_wf(spec_lookup_delegations(records, registry, context, account).unwrap()),
        decreases records.len(),
    {
        if records.len() > 0 {
            if !(records[0].registry@ == registry && records[0].context@ == context
                && records[0].account@ == account) {
                assert(forall|i: int|
                    0 <= i < records.drop_first().len() ==> record_wf(
                        #[trigger] records.drop_first()[i],
                    ));
                Self::lemma_lookup_found_wf(records.drop_first(), registry, context, account);
            }
        }
    }
}

/// Decides whether one delegation record satisfies the snapshot
/// invariant.
fn check_record_wf(r: &DelegationRecord) -> (b: bool)
    ensures
        b == record_wf(*r),
{
    let mut i: usize = 0;
    while i < r.entries.len()
        invariant
            i <= r.entries@.len(),
            forall|k: int|
                0 <= k < i ==> (#[trigger] r.entries@[k]).delegate@.len() == 32
                    && r.entries@[k].ratio@ >= 1,
        decreases r.entries@.len() - i,
    {
        if r.entries[i].delegate.len() != 32 || r.entries[i].ratio.is_zero() {
            return false;
        }
        i = i + 1;
    }
    let mut acc = U256::zero();
    let mut j: usize = 0;
    proof {
        assert(r.entries@.take(0) =~= Seq::<DelegationEntry>::empty());
    }
    while j < r.entries.len()
        invariant
            j <= r.entries@.len(),
            forall|k: int|
                0 <= k < r.entries@.len() ==> (#[trigger] r.entries@[k]).delegate@.len() == 32
                    && r.entries@[k].ratio@ >= 1,
            acc@ == spec_sum_ratios(r.entries@.take(j as int)),
        decreases r.entries@.len() - j,
    {
        proof {
            lemma_sum_ratios_push(r.entries@.take(j as int), r.entries@[j as int]);
            assert(r.entries@.take(j as int).push(r.entries@[j as int]) =~= r.entries@.take(j + 1));
        }
        acc = match acc.checked_add(&r.entries[j].ratio) {
            Some(s) => s,
            None => {
                proof {
                    lemma_sum_ratios_prefix_le(r.entries@, j + 1);
                }
                return false;
            },
        };
        j = j + 1;
    }
    proof {
        assert(r.entries@.take(r.entries@.len() as int) =~= r.entries@);
        acc.lemma_bound();
    }
    true
}

/// First-match scan behind the balance and past-vote reads.
fn lookup_amount(entries: &Vec<BalanceEntry>, asset: &Address, account: &Address) -> (r: Option<
    U256,
>)
    ensures
        r == spec_lookup_amount(entries@, asset@, account@),
{
    let mut i: usize = 0;
    proof {
        assert(entries@.skip(0) =~= entries@);
    }
    while i < entries.len()
        invariant
            i <= entries@.len(),
            spec_lookup_amount(entries@, asset@, account@) == spec_lookup_amount(
                entries@.skip(i as int),
                asset@,
                account@,
            ),
        decreases entries@.len() - i,
    {
        let e = &entries[i];
        if e.asset.eq_addr(asset) && e.account.eq_addr(account) {
            return Some(e.amount);
        }
        proof {
            assert(entries@.skip(i as int).drop_first() =~= entries@.skip(i + 1));
        }
        i = i + 1;
    }
    None
}

/// First-match scan behind the supply reads.
fn lookup_supply(entries: &Vec<SupplyEntry>, asset: &Address) -> (r: Option<U256>)
    ensures
        r == spec_lookup_supply(entries@, asset@),
{
    let mut i: usize = 0;
    proof {
        assert(entries@.skip(0) =~= entries@);
    }
    while i < entries.len()
        invariant
            i <= entries@.len(),
            spec_lookup_supply(entries@, asset@) == spec_lookup_supply(
                entries@.skip(i as int),
                asset@,
            ),
        decreases entries@.len() - i,
    {
        let e = &entries[i];
        if e.asset.eq_addr(asset) {
            return Some(e.amount);
        }
        proof {
            assert(entries@.skip(i as int).drop_first() =~= entries@.skip(i + 1));
        }
        i = i + 1;
    }
    None
}

} // verus!
