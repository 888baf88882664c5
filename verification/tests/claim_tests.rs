use k256::ecdsa::SigningKey;
use reward_pool::attestation::{encode_claim, message_digest, Verifier};
use reward_pool::errors::PoolError;
use reward_pool::identity::Identity;
use reward_pool::pool::RewardPool;

fn claim_ident(b: u8) -> Identity {
    Identity::new([b; 20])
}

fn signer_identity(sk: &SigningKey) -> Identity {
    let point = sk.verifying_key().to_sec1_point(false);
    let address = alloy_primitives::Address::from_raw_public_key(&point.as_bytes()[1..]);
    Identity::new(address.0 .0)
}

fn sign_claim(
    sk: &SigningKey,
    favorite_count: u64,
    post_id: u64,
    full_text: &Vec<u8>,
) -> ([u8; 32], [u8; 32], u8) {
    let digest = message_digest(favorite_count, post_id, full_text);
    let (signature, recovery_id) = sk.sign_prehash_recoverable(&digest);
    let bytes = signature.to_bytes();
    let mut a = [0u8; 32];
    let mut b = [0u8; 32];
    a.copy_from_slice(&bytes[..32]);
    b.copy_from_slice(&bytes[32..]);
    (a, b, recovery_id.to_byte())
}

fn pool_with_verifier(owner: Identity, verifier: Identity, reward_rate: u64) -> RewardPool {
    let mut pool = RewardPool::new(owner);
    let r = pool.initialize_reward_pool(
        owner,
        1000,
        reward_rate,
        b"proof".to_vec(),
        verifier,
        100,
        0,
    );
    assert!(r.is_ok());
    pool
}

#[test]
fn test_encode_claim_layout() {
    let text = b"ab".to_vec();
    let encoded = encode_claim(3, 9, &text);
    let mut expected = vec![0u8; 192];
    expected[31] = 32; // offset of the tuple
    expected[63] = 3; // metric value
    expected[95] = 9; // item id
    expected[127] = 96; // offset of the text within the tuple
    expected[159] = 2; // text length
    expected[160] = b'a';
    expected[161] = b'b';
    assert_eq!(encoded, expected);
}

#[test]
fn test_encode_claim_pads_to_word_boundary() {
    let text = b"0123456789abcdef0123456789abcdef".to_vec();
    let encoded = encode_claim(1, 2, &text);
    assert_eq!(encoded.len(), 192);
    assert_eq!(&encoded[160..192], text.as_slice());

    let empty = encode_claim(1, 2, &Vec::new());
    assert_eq!(empty.len(), 160);
}

#[test]
fn test_message_digest_is_keccak_of_encoding() {
    let text = b"proof abc".to_vec();
    let encoded = encode_claim(50, 7, &text);
    let digest = message_digest(50, 7, &text);
    assert_eq!(digest, alloy_primitives::keccak256(&encoded).0);
}

#[test]
fn test_verify_proof_accepts_trusted_signer() {
    let sk = SigningKey::from_slice(&[0x11u8; 32]).unwrap();
    let verifier = Verifier::new(signer_identity(&sk));
    let text = b"proof abc".to_vec();
    let (a, b, recid) = sign_claim(&sk, 50, 7, &text);
    assert!(verifier.verify_proof(50, 7, &text, &a, &b, recid));
    // A different message under the same signature must not verify.
    assert!(!verifier.verify_proof(51, 7, &text, &a, &b, recid));
}

#[test]
fn test_verify_proof_rejects_unknown_signer() {
    let sk = SigningKey::from_slice(&[0x11u8; 32]).unwrap();
    let other = SigningKey::from_slice(&[0x22u8; 32]).unwrap();
    let verifier = Verifier::new(signer_identity(&sk));
    let text = b"proof abc".to_vec();
    let (a, b, recid) = sign_claim(&other, 50, 7, &text);
    assert!(!verifier.verify_proof(50, 7, &text, &a, &b, recid));
}

#[test]
fn test_claim_scenario() {
    let sk = SigningKey::from_slice(&[0x11u8; 32]).unwrap();
    let owner = claim_ident(1);
    let mut pool = pool_with_verifier(owner, signer_identity(&sk), 2);
    let text = b"proof abc".to_vec();

    let (a, b, recid) = sign_claim(&sk, 50, 7, &text);
    let r = pool.process_post(claim_ident(5), 50, 7, &text, a, b, recid);
    assert_eq!(r, Ok(100));
    assert_eq!(pool.claimed_value(7), 50);
    assert_eq!(pool.total_funds, 900);

    let (a, b, recid) = sign_claim(&sk, 30, 7, &text);
    let r = pool.process_post(claim_ident(5), 30, 7, &text, a, b, recid);
    assert_eq!(r, Err(PoolError::MonotonicityError));
    assert_eq!(pool.claimed_value(7), 50);
    assert_eq!(pool.total_funds, 900);

    let (a, b, recid) = sign_claim(&sk, 80, 7, &text);
    let r = pool.process_post(claim_ident(5), 80, 7, &text, a, b, recid);
    assert_eq!(r, Ok(60));
    assert_eq!(pool.claimed_value(7), 80);
    assert_eq!(pool.total_funds, 840);
}

#[test]
fn test_claim_repeated_value_settles_at_zero() {
    let sk = SigningKey::from_slice(&[0x11u8; 32]).unwrap();
    let owner = claim_ident(1);
    let mut pool = pool_with_verifier(owner, signer_identity(&sk), 2);
    let text = b"proof abc".to_vec();

    let (a, b, recid) = sign_claim(&sk, 50, 7, &text);
    assert_eq!(pool.process_post(claim_ident(5), 50, 7, &text, a, b, recid), Ok(100));
    let (a, b, recid) = sign_claim(&sk, 50, 7, &text);
    assert_eq!(pool.process_post(claim_ident(5), 50, 7, &text, a, b, recid), Ok(0));
    assert_eq!(pool.claimed_value(7), 50);
    assert_eq!(pool.total_funds, 900);
}

#[test]
fn test_claim_missing_constraint_rejected() {
    let sk = SigningKey::from_slice(&[0x11u8; 32]).unwrap();
    let owner = claim_ident(1);
    let mut pool = pool_with_verifier(owner, signer_identity(&sk), 2);
    let text = b"no required word here".to_vec();

    let (a, b, recid) = sign_claim(&sk, 50, 7, &text);
    let r = pool.process_post(claim_ident(5), 50, 7, &text, a, b, recid);
    assert_eq!(r, Err(PoolError::ValidationError));
    assert_eq!(pool.claimed_value(7), 0);
    assert_eq!(pool.total_funds, 1000);
}

#[test]
fn test_claim_wrong_signer_rejected() {
    let sk = SigningKey::from_slice(&[0x11u8; 32]).unwrap();
    let other = SigningKey::from_slice(&[0x22u8; 32]).unwrap();
    let owner = claim_ident(1);
    let mut pool = pool_with_verifier(owner, signer_identity(&sk), 2);
    let text = b"proof abc".to_vec();

    let (a, b, recid) = sign_claim(&other, 50, 7, &text);
    let r = pool.process_post(claim_ident(5), 50, 7, &text, a, b, recid);
    assert_eq!(r, Err(PoolError::ProofError));
    assert_eq!(pool.claimed_value(7), 0);
    assert_eq!(pool.total_funds, 1000);
}

#[test]
fn test_claim_malformed_signature_rejected() {
    let sk = SigningKey::from_slice(&[0x11u8; 32]).unwrap();
    let owner = claim_ident(1);
    let mut pool = pool_with_verifier(owner, signer_identity(&sk), 2);
    let text = b"proof abc".to_vec();

    // An out-of-range recovery id cannot recover any signer.
    let (a, b, _) = sign_claim(&sk, 50, 7, &text);
    let r = pool.process_post(claim_ident(5), 50, 7, &text, a, b, 77);
    assert_eq!(r, Err(PoolError::ValidationError));

    // An all-zero signature is not a valid scalar pair.
    let r = pool.process_post(claim_ident(5), 50, 7, &text, [0u8; 32], [0u8; 32], 0);
    assert_eq!(r, Err(PoolError::ValidationError));
    assert_eq!(pool.claimed_value(7), 0);
}

#[test]
fn test_claim_exceeding_funds_rejected() {
    let sk = SigningKey::from_slice(&[0x11u8; 32]).unwrap();
    let owner = claim_ident(1);
    let mut pool = pool_with_verifier(owner, signer_identity(&sk), 2);
    let text = b"proof abc".to_vec();

    let (a, b, recid) = sign_claim(&sk, 600, 7, &text);
    let r = pool.process_post(claim_ident(5), 600, 7, &text, a, b, recid);
    assert_eq!(r, Err(PoolError::FundsError));
    assert_eq!(pool.claimed_value(7), 0);
    assert_eq!(pool.total_funds, 1000);
}

#[test]
fn test_claim_requires_initialization() {
    let sk = SigningKey::from_slice(&[0x11u8; 32]).unwrap();
    let mut pool = RewardPool::new(claim_ident(1));
    let text = b"proof abc".to_vec();
    let (a, b, recid) = sign_claim(&sk, 50, 7, &text);
    let r = pool.process_post(claim_ident(5), 50, 7, &text, a, b, recid);
    assert_eq!(r, Err(PoolError::StateError));
}
