//! Vote attestation: reconstructing the canonical signed message for a
//! vote and recovering the signing account from a raw signature.
//!
//! The canonical message is the big-endian chain id, the DAO address, the
//! proposal id, the direction byte and the balance, hashed with Keccak-256;
//! the digest is wrapped with the fixed Ethereum signed-message prefix and
//! hashed again.  Signatures are 65 bytes: r ‖ s ‖ v.

use vstd::prelude::*;
use tiny_keccak::Hasher;
use crate::delegation_strategies::sub_bytes;
use crate::state::Address;
use crate::uint256::{push_u64_be, u256_be_bytes, u64_be_bytes, U256};
use crate::VotingError;

verus! {

/// What the 256-bit Keccak digest of a byte string is; determined by the
/// input alone.
pub uninterp spec fn keccak_of(input: Seq<u8>) -> Seq<u8>;

/// Relies on tiny_keccak's `Keccak::v256`, `update` and `finalize` for the
/// 32-byte Keccak-256 digest of `bytes`.
#[verifier::external_body]
pub(crate) fn keccak256(bytes: &Vec<u8>) -> (r: Vec<u8>)
    ensures
        r@ == keccak_of(bytes@),
        r@.len() == 32,
{
    let mut digest = [0u8; 32];
    let mut hasher = tiny_keccak::Keccak::v256();
    hasher.update(bytes.as_slice());
    hasher.finalize(&mut digest);
    digest.to_vec()
}

/// What ECDSA public-key recovery over secp256k1 yields from a 32-byte
/// digest, a 64-byte r ‖ s signature and a binary recovery id: the 65-byte
/// uncompressed SEC1 key encoding, or nothing when the signature is
/// invalid.  Determined by the inputs alone.
pub uninterp spec fn recovered_key_of(digest: Seq<u8>, rs: Seq<u8>, recovery_id: u8) -> Option<
    Seq<u8>,
>;

/// Relies on k256's `Signature::from_slice` and
/// `VerifyingKey::recover_from_prehash`, with `to_sec1_point(false)` for
/// the uncompressed encoding of the recovered key.
#[verifier::external_body]
fn recover_pubkey(digest: &Vec<u8>, rs: &Vec<u8>, recovery_id: u8) -> (r: Option<Vec<u8>>)
    requires
        digest@.len() == 32,
        rs@.len() == 64,
        recovery_id == 0 || recovery_id == 1,
    ensures
        match r {
            Some(k) => recovered_key_of(digest@, rs@, recovery_id) == Some(k@) && k@.len() == 65,
            None => recovered_key_of(digest@, rs@, recovery_id) is None,
        },
{
    let signature = k256::ecdsa::Signature::from_slice(rs.as_slice()).ok()?;
    let rid = k256::ecdsa::RecoveryId::from_byte(recovery_id)?;
    let key = k256::ecdsa::VerifyingKey::recover_from_prehash(digest.as_slice(), &signature, rid)
        .ok()?;
    Some(key.to_sec1_point(false).as_bytes().to_vec())
}

/// Relies on `String::push`: appends exactly one character.
#[verifier::external_body]
fn string_push(s: &mut String, c: char)
    ensures
        final(s)@ == old(s)@.push(c),
{
    s.push(c);
}

/// The Ethereum-convention recovery indicator, normalized to a binary
/// recovery id: 0 and 27 mean 0, 1 and 28 mean 1, values of 35 or more
/// carry the id in the parity of `v - 1`, and anything else is invalid.
pub open spec fn spec_recovery_id(v: u8) -> Option<u8> {
    if v == 0 || v == 27 {
        Some(0)
    } else if v == 1 || v == 28 {
        Some(1)
    } else if v >= 35 {
        Some(((v - 1) % 2) as u8)
    } else {
        None
    }
}

/// Converts an Ethereum-convention recovery indicator to a binary
/// recovery id.
pub fn into_recovery_id(v: u8) -> (r: Option<u8>)
    ensures
        r == spec_recovery_id(v),
{
    if v == 0 || v == 27 {
        Some(0)
    } else if v == 1 || v == 28 {
        Some(1)
    } else if v >= 35 {
        Some((v - 1) % 2)
    } else {
        None
    }
}

/// The account an uncompressed public key stands for: the low 20 bytes of
/// the Keccak digest of its coordinates, the leading format byte excluded.
pub open spec fn spec_key_address(key: Seq<u8>) -> Seq<u8> {
    keccak_of(key.subrange(1, 65)).subrange(12, 32)
}

/// The outcome of signer recovery for a digest and the (v, r ‖ s)
/// components of a 65-byte signature.
pub open spec fn spec_ecrecover(v: u8, rs: Seq<u8>, digest: Seq<u8>) -> Result<
    Seq<u8>,
    VotingError,
> {
    match spec_recovery_id(v) {
        None => Err(VotingError::InvalidRecoveryId),
        Some(rid) => match recovered_key_of(digest, rs, rid) {
            None => Err(VotingError::InvalidSignature),
            Some(key) => Ok(spec_key_address(key)),
        },
    }
}

/// Recovers the signing account from the signature components and the
/// digest, replicating the ledger's own `ecrecover`.  The result
/// authenticates a vote only once the digest is known to be the hash of
/// the canonical message.
pub fn ecrecover(v: u8, rs: &Vec<u8>, digest: &Vec<u8>) -> (r: Result<Address, VotingError>)
    requires
        rs@.len() == 64,
        digest@.len() == 32,
    ensures
        match r {
            Ok(addr) => spec_ecrecover(v, rs@, digest@) == Ok::<Seq<u8>, VotingError>(addr@)
                && addr.wf(),
            Err(e) => spec_ecrecover(v, rs@, digest@) == Err::<Seq<u8>, VotingError>(e),
        },
{
    let rid = match into_recovery_id(v) {
        Some(r) => r,
        None => {
            return Err(VotingError::InvalidRecoveryId);
        },
    };
    let key = match recover_pubkey(digest, rs, rid) {
        Some(k) => k,
        None => {
            return Err(VotingError::InvalidSignature);
        },
    };
    let coords = sub_bytes(&key, 1, 65);
    let h = keccak256(&coords);
    let addr_bytes = sub_bytes(&h, 12, 32);
    Ok(Address::new(addr_bytes))
}

/// The canonical vote message: chain id (8 bytes) ‖ DAO address (20) ‖
/// proposal id (32) ‖ direction (1) ‖ balance (32), all big-endian.
pub open spec fn spec_vote_message(
    chain_id: u64,
    dao: Seq<u8>,
    proposal_id: U256,
    direction: u8,
    balance: U256,
) -> Seq<u8> {
    u64_be_bytes(chain_id) + dao + u256_be_bytes(proposal_id) + seq![direction] + u256_be_bytes(
        balance,
    )
}

/// The fixed textual prefix for signed 32-byte payloads:
/// `"\x19Ethereum Signed Message:\n32"`.
pub open spec fn spec_prefix() -> Seq<u8> {
    seq![
        0x19u8, 0x45, 0x74, 0x68, 0x65, 0x72, 0x65, 0x75, 0x6d, 0x20, 0x53, 0x69, 0x67, 0x6e,
        0x65, 0x64, 0x20, 0x4d, 0x65, 0x73, 0x73, 0x61, 0x67, 0x65, 0x3a, 0x0a, 0x33, 0x32,
    ]
}

/// The digest a vote signature covers: the prefixed hash of the hash of
/// the canonical message.
pub open spec fn spec_vote_digest(
    chain_id: u64,
    dao: Seq<u8>,
    proposal_id: U256,
    direction: u8,
    balance: U256,
) -> Seq<u8> {
    keccak_of(spec_prefix() + keccak_of(spec_vote_message(chain_id, dao, proposal_id, direction, balance)))
}

/// Appends all of `b` to `out`.
pub fn push_bytes(out: &mut Vec<u8>, b: &Vec<u8>)
    ensures
        final(out)@ == old(out)@ + b@,
{
    let mut i: usize = 0;
    while i < b.len()
        invariant
            i <= b@.len(),
            out@ == old(out)@ + b@.take(i as int),
        decreases b@.len() - i,
    {
        out.push(b[i]);
        proof {
            assert((old(out)@ + b@.take(i as int)).push(b@[i as int]) =~= old(out)@ + b@.take(
                i + 1,
            ));
        }
        i = i + 1;
    }
    proof {
        assert(old(out)@ + b@.take(b@.len() as int) =~= old(out)@ + b@);
    }
}

/// The exact prefix bytes, as a vector.
fn prefix_bytes() -> (r: Vec<u8>)
    ensures
        r@ == spec_prefix(),
{
    let mut r: Vec<u8> = Vec::new();
    r.push(0x19);
    r.push(0x45);
    r.push(0x74);
    r.push(0x68);
    r.push(0x65);
    r.push(0x72);
    r.push(0x65);
    r.push(0x75);
    r.push(0x6d);
    r.push(0x20);
    r.push(0x53);
    r.push(0x69);
    r.push(0x67);
    r.push(0x6e);
    r.push(0x65);
    r.push(0x64);
    r.push(0x20);
    r.push(0x4d);
    r.push(0x65);
    r.push(0x73);
    r.push(0x73);
    r.push(0x61);
    r.push(0x67);
    r.push(0x65);
    r.push(0x3a);
    r.push(0x0a);
    r.push(0x33);
    r.push(0x32);
    proof {
        assert(r@ =~= spec_prefix());
    }
    r
}

/// Builds the canonical message for a vote and hashes it twice, with the
/// signed-message prefix in between, exactly as externally generated
/// signatures expect.
pub fn hash_vote(
    chain_id: u64,
    dao: &Address,
    proposal_id: &U256,
    direction: u8,
    balance: &U256,
) -> (r: Vec<u8>)
    ensures
        r@ == spec_vote_digest(chain_id, dao@, *proposal_id, direction, *balance),
        r@.len() == 32,
{
    let mut message: Vec<u8> = Vec::new();
    push_u64_be(&mut message, chain_id);
    push_bytes(&mut message, &dao.bytes);
    let pid_bytes = proposal_id.to_be_bytes();
    push_bytes(&mut message, &pid_bytes);
    message.push(direction);
    let balance_bytes = balance.to_be_bytes();
    push_bytes(&mut message, &balance_bytes);
    proof {
        assert(message@ =~= spec_vote_message(chain_id, dao@, *proposal_id, direction, *balance));
    }
    let message_hash = keccak256(&message);
    let mut prefixed = prefix_bytes();
    push_bytes(&mut prefixed, &message_hash);
    keccak256(&prefixed)
}

/// The lower-case hex digit for a nibble.
pub open spec fn spec_hex_digit(n: u8) -> char {
    if n == 0 {
        '0'
    } else if n == 1 {
        '1'
    } else if n == 2 {
        '2'
    } else if n == 3 {
        '3'
    } else if n == 4 {
        '4'
    } else if n == 5 {
        '5'
    } else if n == 6 {
        '6'
    } else if n == 7 {
        '7'
    } else if n == 8 {
        '8'
    } else if n == 9 {
        '9'
    } else if n == 10 {
        'a'
    } else if n == 11 {
        'b'
    } else if n == 12 {
        'c'
    } else if n == 13 {
        'd'
    } else if n == 14 {
        'e'
    } else {
        'f'
    }
}

/// The lower-case hex rendering of a byte string, two digits per byte.
pub open spec fn spec_hex_of(bytes: Seq<u8>) -> Seq<char>
    decreases bytes.len(),
{
    if bytes.len() == 0 {
        Seq::empty()
    } else {
        spec_hex_of(bytes.drop_last()) + seq![
            spec_hex_digit(bytes.last() / 16),
            spec_hex_digit(bytes.last() % 16),
        ]
    }
}

/// The lower-case hex digit character for a nibble.
fn hex_digit(n: u8) -> (r: char)
    requires
        n < 16,
    ensures
        r == spec_hex_digit(n),
{
    if n == 0 {
        '0'
    } else if n == 1 {
        '1'
    } else if n == 2 {
        '2'
    } else if n == 3 {
        '3'
    } else if n == 4 {
        '4'
    } else if n == 5 {
        '5'
    } else if n == 6 {
        '6'
    } else if n == 7 {
        '7'
    } else if n == 8 {
        '8'
    } else if n == 9 {
        '9'
    } else if n == 10 {
        'a'
    } else if n == 11 {
        'b'
    } else if n == 12 {
        'c'
    } else if n == 13 {
        'd'
    } else if n == 14 {
        'e'
    } else {
        'f'
    }
}

/// Renders bytes as lower-case hex, two digits per byte.
pub fn to_hex_string(bytes: &Vec<u8>) -> (r: String)
    ensures
        r@ == spec_hex_of(bytes@),
{
    let mut r = String::new();
    let mut i: usize = 0;
    proof {
        assert(bytes@.take(0) =~= Seq::<u8>::empty());
    }
    while i < bytes.len()
        invariant
            i <= bytes@.len(),
            r@ == spec_hex_of(bytes@.take(i as int)),
        decreases bytes@.len() - i,
    {
        let b = bytes[i];
        string_push(&mut r, hex_digit(b / 16));
        string_push(&mut r, hex_digit(b % 16));
        proof {
            assert(bytes@.take(i + 1).drop_last() =~= bytes@.take(i as int));
            assert(bytes@.take(i + 1).last() == bytes@[i as int]);
            assert(r@ =~= spec_hex_of(bytes@.take(i + 1)));
        }
        i = i + 1;
    }
    proof {
        assert(bytes@.take(bytes@.len() as int) =~= bytes@);
    }
    r
}

/// The numeric value of one ASCII hex digit, if it is one.
pub open spec fn spec_hex_val(c: u8) -> Option<u8> {
    if 0x30 <= c <= 0x39 {
        Some((c - 0x30) as u8)
    } else if 0x61 <= c <= 0x66 {
        Some((c - 0x61 + 10) as u8)
    } else if 0x41 <= c <= 0x46 {
        Some((c - 0x41 + 10) as u8)
    } else {
        None
    }
}

/// Whether an ASCII string is well-formed hex: even length, all digits.
pub open spec fn spec_is_hex(s: Seq<u8>) -> bool {
    s.len() % 2 == 0 && (forall|i: int| 0 <= i < s.len() ==> spec_hex_val(#[trigger] s[i]) is Some)
}

/// The bytes a well-formed hex string encodes.
pub open spec fn spec_hex_bytes(s: Seq<u8>) -> Seq<u8> {
    Seq::new(
        s.len() / 2,
        |i: int| (spec_hex_val(s[2 * i]).unwrap() * 16 + spec_hex_val(s[2 * i + 1]).unwrap()) as u8,
    )
}

/// The numeric value of one ASCII hex digit.
fn hex_val(c: u8) -> (r: Option<u8>)
    ensures
        r == spec_hex_val(c),
{
    if c >= 0x30 && c <= 0x39 {
        Some(c - 0x30)
    } else if c >= 0x61 && c <= 0x66 {
        Some(c - 0x61 + 10)
    } else if c >= 0x41 && c <= 0x46 {
        Some(c - 0x41 + 10)
    } else {
        None
    }
}

/// Decodes an ASCII hex string into bytes; a string of odd length or with
/// a non-digit character is rejected as a malformed signature encoding.
pub fn hex_decode(s: &Vec<u8>) -> (r: Result<Vec<u8>, VotingError>)
    ensures
        match r {
            Ok(b) => spec_is_hex(s@) && b@ == spec_hex_bytes(s@),
            Err(e) => !spec_is_hex(s@) && e == VotingError::InvalidSignature,
        },
{
    if s.len() % 2 != 0 {
        return Err(VotingError::InvalidSignature);
    }
    let n = s.len() / 2;
    let mut out: Vec<u8> = Vec::new();
    let mut i: usize = 0;
    while i < n
        invariant
            s@.len() % 2 == 0,
            s@.len() <= usize::MAX,
            n == s@.len() / 2,
            i <= n,
            out@.len() == i,
            forall|k: int| 0 <= k < 2 * i ==> spec_hex_val(#[trigger] s@[k]) is Some,
            forall|k: int| 0 <= k < i ==> out@[k] == spec_hex_bytes(s@)[k],
        decreases n - i,
    {
        proof {
            vstd::arithmetic::div_mod::lemma_fundamental_div_mod(s@.len() as int, 2);
        }
        let hi = match hex_val(s[2 * i]) {
            Some(v) => v,
            None => {
                return Err(VotingError::InvalidSignature);
            },
        };
        let lo = match hex_val(s[2 * i + 1]) {
            Some(v) => v,
            None => {
                return Err(VotingError::InvalidSignature);
            },
        };
        out.push(hi * 16 + lo);
        i = i + 1;
    }
    proof {
        vstd::arithmetic::div_mod::lemma_fundamental_div_mod(s@.len() as int, 2);
        assert(out@ =~= spec_hex_bytes(s@));
    }
    Ok(out)
}

} // verus!
