use vstd::prelude::*;

use crate::identity::Identity;

verus! {

/// 256 raised to the power `e`.
pub open spec fn pow256(e: nat) -> nat
    decreases e,
{
    if e == 0 {
        1
    } else {
        256 * pow256((e - 1) as nat)
    }
}

/// The 32-byte big-endian ABI word holding the value `v`.
pub open spec fn abi_word(v: nat) -> Seq<u8> {
    Seq::new(32, |i: int| ((v / pow256((31 - i) as nat)) % 256) as u8)
}

/// Zero padding that extends a payload of `n` bytes to a whole number of
/// 32-byte words.
pub open spec fn abi_padding(n: nat) -> Seq<u8> {
    Seq::new(((32 - n % 32) % 32) as nat, |i: int| 0u8)
}

/// The canonical byte encoding of a claim: the ABI encoding of the tuple
/// `(uint256 metric_value, uint256 item_id, string content_text)` taken as a
/// single dynamic value — an offset word, the two numeric words, the inner
/// offset of the text, its length word, and the text padded to a word
/// boundary. This is the single form both the attester and the verifier must
/// agree on bit for bit.
pub open spec fn claim_message(favorite_count: u64, post_id: u64, full_text: Seq<u8>) -> Seq<u8> {
    abi_word(32) + abi_word(favorite_count as nat) + abi_word(post_id as nat) + abi_word(96)
        + abi_word(full_text.len()) + full_text + abi_padding(full_text.len())
}

/// The keccak-256 digest of a byte sequence; a function of the bytes alone,
/// named here and never spelled out.
pub uninterp spec fn keccak_of(bytes: Seq<u8>) -> Seq<u8>;

/// The identity recovered by ECDSA public-key recovery over secp256k1 from a
/// 32-byte digest, 64 signature bytes and a recovery id; `None` when the
/// signature is malformed, the recovery id is out of range, or no key can be
/// recovered. A function of the arguments alone.
pub uninterp spec fn recovered_signer(digest: Seq<u8>, signature: Seq<u8>, recid: u8) -> Option<
    Seq<u8>,
>;

/// The digest a trusted verifier must have signed to attest a claim.
pub open spec fn claim_digest(favorite_count: u64, post_id: u64, full_text: Seq<u8>) -> Seq<u8> {
    keccak_of(claim_message(favorite_count, post_id, full_text))
}

/// Whether `signature` (64 bytes) with `recid` recovers exactly to the
/// identity `trusted` on the canonical digest of the claim.
pub open spec fn proof_accepted(
    trusted: Seq<u8>,
    favorite_count: u64,
    post_id: u64,
    full_text: Seq<u8>,
    signature: Seq<u8>,
    recid: u8,
) -> bool {
    recovered_signer(claim_digest(favorite_count, post_id, full_text), signature, recid) == Some(
        trusted,
    )
}

/// Relies on alloy_sol_types::SolValue::abi_encode: the ABI encoding of the
/// tuple `(uint256, uint256, bytes)`, whose layout for these argument types
/// is the fixed head-and-tail form stated by `claim_message` (`bytes` and
/// `string` payloads encode identically).
#[verifier::external_body]
fn abi_encode_claim(favorite_count: u64, post_id: u64, full_text: &Vec<u8>) -> (r: Vec<u8>)
    ensures
        r@ == claim_message(favorite_count, post_id, full_text@),
{
    let tuple = (
        alloy_primitives::U256::from(favorite_count),
        alloy_primitives::U256::from(post_id),
        alloy_primitives::Bytes::copy_from_slice(full_text.as_slice()),
    );
    alloy_sol_types::SolValue::abi_encode(&tuple)
}

/// Relies on alloy_primitives::keccak256: the 32-byte keccak-256 digest of
/// the input bytes.
#[verifier::external_body]
fn keccak(bytes: &Vec<u8>) -> (r: [u8; 32])
    ensures
        r@ == keccak_of(bytes@),
        r@.len() == 32,
{
    alloy_primitives::keccak256(bytes.as_slice()).0
}

/// Relies on k256's ECDSA public-key recovery (Signature::from_slice,
/// RecoveryId::from_byte, VerifyingKey::recover_from_prehash) and on
/// alloy_primitives::Address::from_raw_public_key for the canonical address
/// of the recovered key; `None` on a malformed signature, an out-of-range
/// recovery id, or a failed recovery.
#[verifier::external_body]
fn recover_address(
    digest: &[u8; 32],
    signature_a: &[u8; 32],
    signature_b: &[u8; 32],
    recid: u8,
) -> (r: Option<Identity>)
    ensures
        match r {
            Some(id) => recovered_signer(digest@, signature_a@ + signature_b@, recid) == Some(id@),
            None => recovered_signer(digest@, signature_a@ + signature_b@, recid) is None,
        },
{
    let sig_bytes = [signature_a.as_slice(), signature_b.as_slice()].concat();
    let signature = k256::ecdsa::Signature::from_slice(sig_bytes.as_slice()).ok()?;
    let recovery_id = k256::ecdsa::RecoveryId::from_byte(recid)?;
    let key = k256::ecdsa::VerifyingKey::recover_from_prehash(digest, &signature, recovery_id)
        .ok()?;
    let point = key.to_sec1_point(false);
    let address = alloy_primitives::Address::from_raw_public_key(&point.as_bytes()[1..]);
    Some(Identity { bytes: address.0.0 })
}

/// The canonical claim encoding, exposed so that an attester can be held to
/// it independently.
pub fn encode_claim(favorite_count: u64, post_id: u64, full_text: &Vec<u8>) -> (r: Vec<u8>)
    ensures
        r@ == claim_message(favorite_count, post_id, full_text@),
{
    abi_encode_claim(favorite_count, post_id, full_text)
}

/// The digest of the canonical claim encoding: what the attester signs.
pub fn message_digest(favorite_count: u64, post_id: u64, full_text: &Vec<u8>) -> (r: [u8; 32])
    ensures
        r@ == claim_digest(favorite_count, post_id, full_text@),
{
    let encoded = abi_encode_claim(favorite_count, post_id, full_text);
    keccak(&encoded)
}

/// Canonicalizes a claim and recovers the identity that signed it, if any.
pub fn recover_claim_signer(
    favorite_count: u64,
    post_id: u64,
    full_text: &Vec<u8>,
    signature_a: &[u8; 32],
    signature_b: &[u8; 32],
    recid: u8,
) -> (r: Option<Identity>)
    ensures
        match r {
            Some(id) => recovered_signer(
                claim_digest(favorite_count, post_id, full_text@),
                signature_a@ + signature_b@,
                recid,
            ) == Some(id@),
            None => recovered_signer(
                claim_digest(favorite_count, post_id, full_text@),
                signature_a@ + signature_b@,
                recid,
            ) is None,
        },
{
    let digest = message_digest(favorite_count, post_id, full_text);
    recover_address(&digest, signature_a, signature_b, recid)
}

/// The local-recovery verification strategy: holds the trusted signer
/// identity and accepts exactly the claims whose signature recovers to it.
pub struct Verifier {
    pub trusted_signer: Identity,
}

impl Verifier {
    pub fn new(trusted_signer: Identity) -> (r: Verifier)
        ensures
            r.trusted_signer == trusted_signer,
    {
        Verifier { trusted_signer }
    }

    /// Verification never mutates any pool state: it is a pure check of the
    /// claim against the trusted signer identity.
    pub fn verify_proof(
        &self,
        favorite_count: u64,
        post_id: u64,
        full_text: &Vec<u8>,
        signature_a: &[u8; 32],
        signature_b: &[u8; 32],
        recid: u8,
    ) -> (r: bool)
        ensures
            r == proof_accepted(
                self.trusted_signer@,
                favorite_count,
                post_id,
                full_text@,
                signature_a@ + signature_b@,
                recid,
            ),
    {
        match recover_claim_signer(favorite_count, post_id, full_text, signature_a, signature_b, recid) {
            Some(id) => id.same_as(&self.trusted_signer),
            None => false,
        }
    }
}

} // verus!
