use tiny_keccak::Hasher;
use zk_voting::attestation::{ecrecover, hash_vote, hex_decode, into_recovery_id, to_hex_string};
use zk_voting::state::Address;
use zk_voting::uint256::U256;
use zk_voting::VotingError;

fn keccak_direct(bytes: &[u8]) -> [u8; 32] {
    let mut digest = [0u8; 32];
    let mut hasher = tiny_keccak::Keccak::v256();
    hasher.update(bytes);
    hasher.finalize(&mut digest);
    digest
}

#[test]
fn vote_digest_is_a_real_hash_not_an_echo() {
    // If the digest computation handed any of its inputs back unchanged,
    // it could not match an independently computed double Keccak.
    let dao = Address::new(vec![0u8; 20]);
    let got = hash_vote(0, &dao, &U256::zero(), 0, &U256::zero());
    let inner = keccak_direct(&[0u8; 93]);
    let mut prefixed: Vec<u8> = b"\x19Ethereum Signed Message:\n32".to_vec();
    prefixed.extend_from_slice(&inner);
    assert_eq!(got.as_slice(), keccak_direct(&prefixed));
    assert_ne!(got.as_slice(), &[0u8; 32][..]);
}

#[test]
fn hex_rendering_is_two_lowercase_digits_per_byte() {
    assert_eq!(to_hex_string(&vec![0x00, 0xff, 0x10]), "00ff10");
    assert_eq!(to_hex_string(&Vec::new()), "");
}

#[test]
fn hex_decoding_round_trips_and_rejects_bad_input() {
    let bytes = vec![0xde, 0xad, 0xbe, 0xef, 0x00, 0x7f];
    let text = to_hex_string(&bytes);
    let back = hex_decode(&text.into_bytes()).unwrap();
    assert_eq!(back, bytes);
    // Upper-case digits decode too.
    assert_eq!(hex_decode(&b"DEAD".to_vec()).unwrap(), vec![0xde, 0xad]);
    // Odd length and non-digits are malformed.
    assert_eq!(hex_decode(&b"abc".to_vec()).unwrap_err(), VotingError::InvalidSignature);
    assert_eq!(hex_decode(&b"zz".to_vec()).unwrap_err(), VotingError::InvalidSignature);
}

#[test]
fn recovery_indicator_normalization() {
    assert_eq!(into_recovery_id(0), Some(0));
    assert_eq!(into_recovery_id(1), Some(1));
    assert_eq!(into_recovery_id(27), Some(0));
    assert_eq!(into_recovery_id(28), Some(1));
    assert_eq!(into_recovery_id(35), Some(0));
    assert_eq!(into_recovery_id(36), Some(1));
    assert_eq!(into_recovery_id(2), None);
    assert_eq!(into_recovery_id(34), None);
}

#[test]
fn vote_digest_matches_a_hand_built_message() {
    let chain_id: u64 = 11155111;
    let dao = Address::new(vec![0xaa; 20]);
    let proposal_id = U256::from_u64(7);
    let direction: u8 = 1;
    let balance = U256::from_u64(1000);

    let mut message: Vec<u8> = Vec::new();
    message.extend_from_slice(&chain_id.to_be_bytes());
    message.extend_from_slice(&dao.bytes);
    let mut pid = [0u8; 32];
    pid[31] = 7;
    message.extend_from_slice(&pid);
    message.push(direction);
    let mut bal = [0u8; 32];
    bal[30] = 0x03;
    bal[31] = 0xe8;
    message.extend_from_slice(&bal);

    let inner = keccak_direct(&message);
    let mut prefixed: Vec<u8> = b"\x19Ethereum Signed Message:\n32".to_vec();
    prefixed.extend_from_slice(&inner);
    let expected = keccak_direct(&prefixed);

    let got = hash_vote(chain_id, &dao, &proposal_id, direction, &balance);
    assert_eq!(got.as_slice(), expected);
}

/// The address of a k256 verifying key, derived the ledger's way.
fn address_of_key(key: &k256::ecdsa::VerifyingKey) -> Vec<u8> {
    let point = key.to_sec1_point(false);
    let digest = keccak_direct(&point.as_bytes()[1..]);
    digest[12..].to_vec()
}

#[test]
fn signing_then_recovering_yields_the_signer() {
    let sk = k256::ecdsa::SigningKey::from_slice(&[7u8; 32]).unwrap();
    let expected = address_of_key(sk.verifying_key());

    let dao = Address::new(vec![0xd0; 20]);
    let digest = hash_vote(11155111, &dao, &U256::from_u64(9), 1, &U256::from_u64(500));
    let (sig, recid) = sk.sign_prehash_recoverable(&digest);
    let rs = sig.to_bytes().to_vec();
    let recovered = ecrecover(recid.to_byte(), &rs, &digest).unwrap();
    assert_eq!(recovered.bytes, expected);
}

#[test]
fn tampering_with_the_signature_changes_the_recovered_account() {
    let sk = k256::ecdsa::SigningKey::from_slice(&[7u8; 32]).unwrap();
    let expected = address_of_key(sk.verifying_key());

    let dao = Address::new(vec![0xd0; 20]);
    let digest = hash_vote(11155111, &dao, &U256::from_u64(9), 1, &U256::from_u64(500));
    let (sig, recid) = sk.sign_prehash_recoverable(&digest);
    let mut rs = sig.to_bytes().to_vec();
    rs[10] ^= 0x01;
    match ecrecover(recid.to_byte(), &rs, &digest) {
        Ok(a) => assert_ne!(a.bytes, expected),
        Err(e) => assert_eq!(e, VotingError::InvalidSignature),
    }
}

#[test]
fn invalid_recovery_indicator_is_rejected() {
    let rs = vec![1u8; 64];
    let digest = vec![2u8; 32];
    assert_eq!(ecrecover(29, &rs, &digest).unwrap_err(), VotingError::InvalidRecoveryId);
}

#[test]
fn an_all_zero_signature_is_invalid() {
    let rs = vec![0u8; 64];
    let digest = vec![2u8; 32];
    assert_eq!(ecrecover(27, &rs, &digest).unwrap_err(), VotingError::InvalidSignature);
}
