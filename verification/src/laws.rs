use vstd::prelude::*;

use crate::attestation::{claim_digest, recovered_signer};
use crate::errors::PoolError;
use crate::pool::{
    claim_outcome, contains_subseq, contribution_of, entry_of, initialize_outcome, refund_outcome,
    settings_outcome, RewardPool,
};

verus! {

proof fn lemma_entry_chain(states: Seq<RewardPool>, post_id: u64, i: int, j: int)
    requires
        forall|k: int|
            0 <= k < states.len() - 1 ==> entry_of((#[trigger] states[k]).contributions@, post_id)
                <= entry_of(states[k + 1].contributions@, post_id),
        0 <= i <= j < states.len(),
    ensures
        entry_of(states[i].contributions@, post_id) <= entry_of(states[j].contributions@, post_id),
    decreases j - i,
{
    if i < j {
        lemma_entry_chain(states, post_id, i, j - 1);
        assert(entry_of(states[j - 1].contributions@, post_id) <= entry_of(
            states[j - 1 + 1].contributions@,
            post_id,
        ));
    }
}

/// Across any run of operations, the value the ledger records for an item
/// never decreases: if each adjacent pair of states keeps every entry from
/// shrinking — which `process_post` guarantees of every call, succeeding or
/// failing — then every later state records at least as much as every
/// earlier one.
pub proof fn lemma_ledger_monotonic(states: Seq<RewardPool>, post_id: u64)
    requires
        forall|k: int|
            0 <= k < states.len() - 1 ==> entry_of((#[trigger] states[k]).contributions@, post_id)
                <= entry_of(states[k + 1].contributions@, post_id),
    ensures
        forall|i: int, j: int|
            0 <= i <= j < states.len() ==> entry_of(
                (#[trigger] states[i]).contributions@,
                post_id,
            ) <= entry_of((#[trigger] states[j]).contributions@, post_id),
{
    assert forall|i: int, j: int| 0 <= i <= j < states.len() implies entry_of(
        (#[trigger] states[i]).contributions@,
        post_id,
    ) <= entry_of((#[trigger] states[j]).contributions@, post_id) by {
        lemma_entry_chain(states, post_id, i, j);
    }
}

/// A claim whose metric value is strictly below the recorded entry fails
/// with MonotonicityError, provided it authenticates and meets the content
/// constraint (without those it fails even earlier, with a verification
/// error); by `process_post`'s contract, a failing call leaves the pool
/// unchanged.
pub proof fn lemma_stale_claim_rejected(
    p: RewardPool,
    favorite_count: u64,
    post_id: u64,
    full_text: Seq<u8>,
    signature: Seq<u8>,
    recid: u8,
)
    requires
        p.initialized,
        recovered_signer(claim_digest(favorite_count, post_id, full_text), signature, recid)
            == Some(p.verifier.trusted_signer@),
        contains_subseq(full_text, p.required_string@),
        favorite_count < entry_of(p.contributions@, post_id),
    ensures
        claim_outcome(p, favorite_count, post_id, full_text, signature, recid) == Err::<
            u64,
            PoolError,
        >(PoolError::MonotonicityError),
{
}

/// Initialization is one-way: on a pool that is already initialized — as
/// every pool is after one successful `initialize_reward_pool`, whose
/// contract sets the flag — a second initialization fails with StateError,
/// whoever calls it and whatever the arguments.
pub proof fn lemma_second_initialize_fails(
    p: RewardPool,
    caller: Seq<u8>,
    initial_funds: u64,
    reward_rate: u64,
    deadline: u64,
    block_number: u64,
)
    requires
        p.initialized,
    ensures
        initialize_outcome(p, caller, initial_funds, reward_rate, deadline, block_number) == Err::<
            (),
            PoolError,
        >(PoolError::StateError),
{
}

/// A settings update by anyone but the owner always fails — with
/// AuthorizationError once the pool is initialized — and by
/// `update_settings`' contract a failing call leaves the rate and the
/// deadline unchanged.
pub proof fn lemma_non_owner_settings_rejected(
    p: RewardPool,
    caller: Seq<u8>,
    new_reward_rate: u64,
)
    requires
        caller != p.owner@,
    ensures
        settings_outcome(p, caller, new_reward_rate) is Err,
        p.initialized ==> settings_outcome(p, caller, new_reward_rate) == Err::<(), PoolError>(
            PoolError::AuthorizationError,
        ),
{
}

/// A refund requested at or before the deadline always fails, and by
/// `refund_unspent_rewards`' contract the failing call changes nothing.
pub proof fn lemma_refund_before_deadline_fails(
    p: RewardPool,
    caller: Seq<u8>,
    block_number: u64,
)
    requires
        p.initialized,
        block_number <= p.deadline,
    ensures
        refund_outcome(p, caller, block_number) == Err::<u64, PoolError>(PoolError::FundsError),
{
}

/// A pool that records no contribution for the caller refuses a refund —
/// and after one successful refund the caller's recorded contribution is
/// zero, by `refund_unspent_rewards`' contract, so a second refund fails.
pub proof fn lemma_second_refund_fails(p: RewardPool, caller: Seq<u8>, block_number: u64)
    requires
        contribution_of(p.contributors@, caller) == 0,
    ensures
        refund_outcome(p, caller, block_number) is Err,
        p.initialized && block_number > p.deadline ==> refund_outcome(p, caller, block_number)
            == Err::<u64, PoolError>(PoolError::FundsError),
{
}

} // verus!
