use vstd::prelude::*;
use vstd::pervasive::VecAdditionalExecFns;
use vstd::arithmetic::div_mod::{lemma_div_is_ordered, lemma_div_multiples_vanish};
use vstd::arithmetic::mul::{lemma_mul_inequality, lemma_mul_upper_bound};

use crate::attestation::{claim_digest, recovered_signer, recover_claim_signer, Verifier};
use crate::errors::PoolError;
use crate::identity::Identity;

verus! {

/// The value recorded for `post_id` in a per-item ledger held as an
/// association list; an absent item counts as 0.
pub open spec fn entry_of(entries: Seq<(u64, u64)>, post_id: u64) -> u64
    decreases entries.len(),
{
    if entries.len() == 0 {
        0u64
    } else if entries[0].0 == post_id {
        entries[0].1
    } else {
        entry_of(entries.drop_first(), post_id)
    }
}

/// Each item id appears at most once in the ledger.
pub open spec fn unique_items(entries: Seq<(u64, u64)>) -> bool {
    forall|i: int, j: int| 0 <= i < j < entries.len() ==> entries[i].0 != entries[j].0
}

/// The cumulative amount recorded for the identity `who` in a contributor
/// list; an absent identity counts as 0.
pub open spec fn contribution_of(entries: Seq<(Identity, u64)>, who: Seq<u8>) -> u64
    decreases entries.len(),
{
    if entries.len() == 0 {
        0u64
    } else if entries[0].0@ == who {
        entries[0].1
    } else {
        contribution_of(entries.drop_first(), who)
    }
}

/// Each identity appears at most once in the contributor list.
pub open spec fn unique_contributors(entries: Seq<(Identity, u64)>) -> bool {
    forall|i: int, j: int| 0 <= i < j < entries.len() ==> entries[i].0@ != entries[j].0@
}

/// Whether `needle` occurs as a contiguous subsequence of `haystack`.
pub open spec fn contains_subseq(haystack: Seq<u8>, needle: Seq<u8>) -> bool {
    exists|i: int|
        0 <= i <= haystack.len() - needle.len() && #[trigger] haystack.subrange(
            i,
            i + needle.len(),
        ) == needle
}

fn match_at(haystack: &Vec<u8>, needle: &Vec<u8>, i: usize) -> (r: bool)
    requires
        i + needle@.len() <= haystack@.len(),
    ensures
        r == (haystack@.subrange(i as int, i as int + needle@.len() as int) == needle@),
{
    let ghost sub = haystack@.subrange(i as int, i as int + needle@.len() as int);
    let mut j: usize = 0;
    while j < needle.len()
        invariant
            i + needle@.len() <= haystack@.len(),
            0 <= j <= needle@.len(),
            sub == haystack@.subrange(i as int, i as int + needle@.len() as int),
            forall|k: int| 0 <= k < j ==> haystack@[i + k] == needle@[k],
        decreases needle@.len() - j,
    {
        let hlen: usize = haystack.len();
        proof {
            assert(i + j < hlen);
        }
        if haystack[i + j] != needle[j] {
            proof {
                assert(sub[j as int] == haystack@[i + j]);
            }
            return false;
        }
        j += 1;
    }
    proof {
        assert(sub =~= needle@);
    }
    true
}

/// Whether the byte string `needle` occurs inside `haystack`; the content
/// constraint check of the pool.
pub fn contains_subrange(haystack: &Vec<u8>, needle: &Vec<u8>) -> (r: bool)
    ensures
        r == contains_subseq(haystack@, needle@),
{
    if needle.len() > haystack.len() {
        return false;
    }
    let bound: usize = haystack.len() - needle.len();
    let mut i: usize = 0;
    while i < bound
        invariant
            needle@.len() <= haystack@.len(),
            bound == haystack@.len() - needle@.len(),
            0 <= i <= bound,
            forall|k: int|
                0 <= k < i ==> #[trigger] haystack@.subrange(k, k + needle@.len()) != needle@,
        decreases bound - i,
    {
        if match_at(haystack, needle, i) {
            return true;
        }
        i += 1;
    }
    if match_at(haystack, needle, bound) {
        return true;
    }
    false
}

proof fn lemma_entry_update(entries: Seq<(u64, u64)>, i: int, post_id: u64, value: u64)
    requires
        0 <= i < entries.len(),
        entries[i].0 == post_id,
        unique_items(entries),
    ensures
        entry_of(entries.update(i, (post_id, value)), post_id) == value,
        forall|other: u64|
            other != post_id ==> entry_of(entries.update(i, (post_id, value)), other) == entry_of(
                entries,
                other,
            ),
    decreases entries.len(),
{
    let updated = entries.update(i, (post_id, value));
    if i == 0 {
        assert(updated[0] == (post_id, value));
        assert(updated.drop_first() =~= entries.drop_first());
        assert forall|other: u64| other != post_id implies entry_of(updated, other) == entry_of(
            entries,
            other,
        ) by {
            assert(entry_of(updated, other) == entry_of(updated.drop_first(), other));
            assert(entry_of(entries, other) == entry_of(entries.drop_first(), other));
        }
    } else {
        assert(updated[0] == entries[0]);
        assert(entries[0].0 != post_id);
        assert(updated.drop_first() =~= entries.drop_first().update(i - 1, (post_id, value)));
        assert(entries.drop_first()[i - 1] == entries[i]);
        assert forall|a: int, b: int|
            0 <= a < b < entries.drop_first().len() implies entries.drop_first()[a].0
            != entries.drop_first()[b].0 by {
            assert(entries.drop_first()[a] == entries[a + 1]);
            assert(entries.drop_first()[b] == entries[b + 1]);
        }
        lemma_entry_update(entries.drop_first(), i - 1, post_id, value);
        assert(entry_of(updated, post_id) == entry_of(updated.drop_first(), post_id));
        assert forall|other: u64| other != post_id implies entry_of(updated, other) == entry_of(
            entries,
            other,
        ) by {
            if entries[0].0 == other {
                assert(entry_of(updated, other) == updated[0].1);
                assert(entry_of(entries, other) == entries[0].1);
            } else {
                assert(entry_of(updated, other) == entry_of(updated.drop_first(), other));
                assert(entry_of(entries, other) == entry_of(entries.drop_first(), other));
            }
        }
    }
}

proof fn lemma_entry_push(entries: Seq<(u64, u64)>, post_id: u64, value: u64)
    requires
        forall|k: int| 0 <= k < entries.len() ==> entries[k].0 != post_id,
    ensures
        entry_of(entries.push((post_id, value)), post_id) == value,
        forall|other: u64|
            other != post_id ==> entry_of(entries.push((post_id, value)), other) == entry_of(
                entries,
                other,
            ),
    decreases entries.len(),
{
    let pushed = entries.push((post_id, value));
    if entries.len() == 0 {
        assert(pushed[0] == (post_id, value));
        assert(pushed.drop_first() =~= Seq::<(u64, u64)>::empty());
        assert forall|other: u64| other != post_id implies entry_of(pushed, other) == entry_of(
            entries,
            other,
        ) by {
            assert(entry_of(pushed, other) == entry_of(pushed.drop_first(), other));
        }
    } else {
        assert(pushed[0] == entries[0]);
        assert(entries[0].0 != post_id);
        assert(pushed.drop_first() =~= entries.drop_first().push((post_id, value)));
        lemma_entry_push(entries.drop_first(), post_id, value);
        assert(entry_of(pushed, post_id) == entry_of(pushed.drop_first(), post_id));
        assert forall|other: u64| other != post_id implies entry_of(pushed, other) == entry_of(
            entries,
            other,
        ) by {
            if entries[0].0 == other {
                assert(entry_of(pushed, other) == pushed[0].1);
                assert(entry_of(entries, other) == entries[0].1);
            } else {
                assert(entry_of(pushed, other) == entry_of(pushed.drop_first(), other));
                assert(entry_of(entries, other) == entry_of(entries.drop_first(), other));
            }
        }
    }
}

proof fn lemma_contribution_update(entries: Seq<(Identity, u64)>, i: int, who: Identity, value: u64)
    requires
        0 <= i < entries.len(),
        entries[i].0@ == who@,
        unique_contributors(entries),
    ensures
        contribution_of(entries.update(i, (who, value)), who@) == value,
        forall|other: Seq<u8>|
            other != who@ ==> contribution_of(entries.update(i, (who, value)), other)
                == contribution_of(entries, other),
    decreases entries.len(),
{
    let updated = entries.update(i, (who, value));
    if i == 0 {
        assert(updated[0] == (who, value));
        assert(updated.drop_first() =~= entries.drop_first());
        assert forall|other: Seq<u8>| other != who@ implies contribution_of(updated, other)
            == contribution_of(entries, other) by {
            assert(contribution_of(updated, other) == contribution_of(
                updated.drop_first(),
                other,
            ));
            assert(contribution_of(entries, other) == contribution_of(
                entries.drop_first(),
                other,
            ));
        }
    } else {
        assert(updated[0] == entries[0]);
        assert(entries[0].0@ != who@);
        assert(updated.drop_first() =~= entries.drop_first().update(i - 1, (who, value)));
        assert(entries.drop_first()[i - 1] == entries[i]);
        assert forall|a: int, b: int|
            0 <= a < b < entries.drop_first().len() implies entries.drop_first()[a].0@
            != entries.drop_first()[b].0@ by {
            assert(entries.drop_first()[a] == entries[a + 1]);
            assert(entries.drop_first()[b] == entries[b + 1]);
        }
        lemma_contribution_update(entries.drop_first(), i - 1, who, value);
        assert(contribution_of(updated, who@) == contribution_of(updated.drop_first(), who@));
        assert forall|other: Seq<u8>| other != who@ implies contribution_of(updated, other)
            == contribution_of(entries, other) by {
            if entries[0].0@ == other {
                assert(contribution_of(updated, other) == updated[0].1);
                assert(contribution_of(entries, other) == entries[0].1);
            } else {
                assert(contribution_of(updated, other) == contribution_of(
                    updated.drop_first(),
                    other,
                ));
                assert(contribution_of(entries, other) == contribution_of(
                    entries.drop_first(),
                    other,
                ));
            }
        }
    }
}

proof fn lemma_contribution_push(entries: Seq<(Identity, u64)>, who: Identity, value: u64)
    requires
        forall|k: int| 0 <= k < entries.len() ==> entries[k].0@ != who@,
    ensures
        contribution_of(entries.push((who, value)), who@) == value,
        forall|other: Seq<u8>|
            other != who@ ==> contribution_of(entries.push((who, value)), other)
                == contribution_of(entries, other),
    decreases entries.len(),
{
    let pushed = entries.push((who, value));
    if entries.len() == 0 {
        assert(pushed[0] == (who, value));
        assert(pushed.drop_first() =~= Seq::<(Identity, u64)>::empty());
        assert forall|other: Seq<u8>| other != who@ implies contribution_of(pushed, other)
            == contribution_of(entries, other) by {
            assert(contribution_of(pushed, other) == contribution_of(
                pushed.drop_first(),
                other,
            ));
        }
    } else {
        assert(pushed[0] == entries[0]);
        assert(entries[0].0@ != who@);
        assert(pushed.drop_first() =~= entries.drop_first().push((who, value)));
        lemma_contribution_push(entries.drop_first(), who, value);
        assert(contribution_of(pushed, who@) == contribution_of(pushed.drop_first(), who@));
        assert forall|other: Seq<u8>| other != who@ implies contribution_of(pushed, other)
            == contribution_of(entries, other) by {
            if entries[0].0@ == other {
                assert(contribution_of(pushed, other) == pushed[0].1);
                assert(contribution_of(entries, other) == entries[0].1);
            } else {
                assert(contribution_of(pushed, other) == contribution_of(
                    pushed.drop_first(),
                    other,
                ));
                assert(contribution_of(entries, other) == contribution_of(
                    entries.drop_first(),
                    other,
                ));
            }
        }
    }
}

/// Whatever identity is looked up, the recorded contribution never exceeds a
/// bound that every entry respects.
proof fn lemma_contribution_le(entries: Seq<(Identity, u64)>, who: Seq<u8>, bound: u64)
    requires
        forall|i: int| 0 <= i < entries.len() ==> entries[i].1 <= bound,
    ensures
        contribution_of(entries, who) <= bound,
    decreases entries.len(),
{
    if entries.len() == 0 {
    } else {
        assert forall|i: int|
            0 <= i < entries.drop_first().len() implies entries.drop_first()[i].1 <= bound by {
            assert(entries.drop_first()[i] == entries[i + 1]);
        }
        lemma_contribution_le(entries.drop_first(), who, bound);
    }
}

/// Records `value` for `post_id`, replacing the old entry or appending a new
/// one; every other item keeps its value.
fn ledger_set(entries: &mut Vec<(u64, u64)>, post_id: u64, value: u64)
    requires
        unique_items(old(entries)@),
    ensures
        unique_items(final(entries)@),
        entry_of(final(entries)@, post_id) == value,
        forall|other: u64|
            other != post_id ==> entry_of(final(entries)@, other) == entry_of(
                old(entries)@,
                other,
            ),
{
    let n = entries.len();
    let mut i: usize = 0;
    while i < n
        invariant
            n == entries@.len(),
            0 <= i <= n,
            entries@ == old(entries)@,
            unique_items(entries@),
            forall|k: int| 0 <= k < i ==> entries@[k].0 != post_id,
        decreases n - i,
    {
        if entries[i].0 == post_id {
            proof {
                lemma_entry_update(entries@, i as int, post_id, value);
                assert forall|a: int, b: int|
                    0 <= a < b < entries@.update(i as int, (post_id, value)).len() implies entries@.update(
                    i as int,
                    (post_id, value),
                )[a].0 != entries@.update(i as int, (post_id, value))[b].0 by {
                    assert(entries@[a].0 != entries@[b].0);
                }
            }
            entries.set(i, (post_id, value));
            return;
        }
        i += 1;
    }
    proof {
        lemma_entry_push(entries@, post_id, value);
        assert forall|a: int, b: int|
            0 <= a < b < entries@.push((post_id, value)).len() implies entries@.push(
            (post_id, value),
        )[a].0 != entries@.push((post_id, value))[b].0 by {
            if b < entries@.len() {
                assert(entries@[a].0 != entries@[b].0);
            } else {
                assert(entries@.push((post_id, value))[b].0 == post_id);
                assert(entries@.push((post_id, value))[a] == entries@[a]);
            }
        }
    }
    entries.push((post_id, value));
}

/// Records `value` for `who`, replacing the old entry or appending a new one;
/// every other identity keeps its amount, and no recorded amount rises above
/// `bound` if none did before and `value` does not.
fn contributors_set(
    entries: &mut Vec<(Identity, u64)>,
    who: Identity,
    value: u64,
    Ghost(bound): Ghost<u64>,
)
    requires
        unique_contributors(old(entries)@),
        forall|i: int| 0 <= i < old(entries)@.len() ==> old(entries)@[i].1 <= bound,
        value <= bound,
    ensures
        unique_contributors(final(entries)@),
        contribution_of(final(entries)@, who@) == value,
        forall|other: Seq<u8>|
            other != who@ ==> contribution_of(final(entries)@, other) == contribution_of(
                old(entries)@,
                other,
            ),
        forall|i: int| 0 <= i < final(entries)@.len() ==> final(entries)@[i].1 <= bound,
{
    let n = entries.len();
    let mut i: usize = 0;
    while i < n
        invariant
            n == entries@.len(),
            0 <= i <= n,
            entries@ == old(entries)@,
            unique_contributors(entries@),
            value <= bound,
            forall|k: int| 0 <= k < n ==> entries@[k].1 <= bound,
            forall|k: int| 0 <= k < i ==> entries@[k].0@ != who@,
        decreases n - i,
    {
        if entries[i].0.same_as(&who) {
            proof {
                lemma_contribution_update(entries@, i as int, who, value);
                assert forall|a: int, b: int|
                    0 <= a < b < entries@.update(i as int, (who, value)).len() implies entries@.update(
                    i as int,
                    (who, value),
                )[a].0@ != entries@.update(i as int, (who, value))[b].0@ by {
                    assert(entries@[a].0@ != entries@[b].0@);
                }
            }
            entries.set(i, (who, value));
            return;
        }
        i += 1;
    }
    proof {
        lemma_contribution_push(entries@, who, value);
        assert forall|a: int, b: int|
            0 <= a < b < entries@.push((who, value)).len() implies entries@.push(
            (who, value),
        )[a].0@ != entries@.push((who, value))[b].0@ by {
            if b < entries@.len() {
                assert(entries@[a].0@ != entries@[b].0@);
            } else {
                assert(entries@.push((who, value))[b].0@ == who@);
                assert(entries@.push((who, value))[a] == entries@[a]);
            }
        }
    }
    entries.push((who, value));
}

/// Stands in for the external token gateway of the platform: accepts every
/// positive transfer and rejects a zero amount.
fn transfer_eth(to: &Identity, amount: u64) -> (r: Result<(), PoolError>)
    ensures
        r is Ok <==> amount > 0,
        r is Err ==> r->Err_0 == PoolError::TransferError,
{
    if amount > 0 {
        Ok(())
    } else {
        Err(PoolError::TransferError)
    }
}

/// The escrow pool: funding, a monotonic per-item claim ledger, reward
/// settlement, owner-gated settings and deadline-gated refunds.
pub struct RewardPool {
    /// Identity authorized for settings changes; set at construction.
    pub owner: Identity,
    /// The verification strategy holding the trusted signer identity.
    pub verifier: Verifier,
    /// Asset units paid per engagement unit; positive once initialized.
    pub reward_rate: u64,
    /// A byte string the claimed content must contain.
    pub required_string: Vec<u8>,
    /// Block height after which refunds become eligible.
    pub deadline: u64,
    /// Current unspent escrow balance.
    pub total_funds: u64,
    /// Sum of every deposit ever made; the refund denominator.
    pub total_deposited: u64,
    /// One-way flag, flipped exactly once by initialization.
    pub initialized: bool,
    /// Per-item highest claimed metric value.
    pub contributions: Vec<(u64, u64)>,
    /// Per-identity cumulative funded amount.
    pub contributors: Vec<(Identity, u64)>,
}

/// The exact result of `initialize_reward_pool` on a given pre-state: a pool
/// initializes at most once, only by its owner, with positive funds and rate
/// and a deadline strictly in the future.
pub open spec fn initialize_outcome(
    p: RewardPool,
    caller: Seq<u8>,
    initial_funds: u64,
    reward_rate: u64,
    deadline: u64,
    block_number: u64,
) -> Result<(), PoolError> {
    if p.initialized {
        Err(PoolError::StateError)
    } else if caller != p.owner@ {
        Err(PoolError::AuthorizationError)
    } else if initial_funds == 0 || reward_rate == 0 {
        Err(PoolError::ValidationError)
    } else if deadline <= block_number {
        Err(PoolError::StateError)
    } else {
        Ok(())
    }
}

/// The exact result of `fund_reward_pool` on a given pre-state.
pub open spec fn fund_outcome(p: RewardPool, amount: u64) -> Result<(), PoolError> {
    if !p.initialized {
        Err(PoolError::StateError)
    } else if amount == 0 {
        Err(PoolError::ValidationError)
    } else {
        Ok(())
    }
}

/// The exact result of `process_post` on a given pre-state, in the order the
/// checks are made: initialization, signature recovery, trusted signer,
/// content constraint, monotonicity, funds. On success the payout is the
/// metric delta times the reward rate, with no rounding.
pub open spec fn claim_outcome(
    p: RewardPool,
    favorite_count: u64,
    post_id: u64,
    full_text: Seq<u8>,
    signature: Seq<u8>,
    recid: u8,
) -> Result<u64, PoolError> {
    if !p.initialized {
        Err(PoolError::StateError)
    } else {
        let recovered = recovered_signer(
            claim_digest(favorite_count, post_id, full_text),
            signature,
            recid,
        );
        if recovered is None {
            Err(PoolError::ValidationError)
        } else if recovered != Some(p.verifier.trusted_signer@) {
            Err(PoolError::ProofError)
        } else if !contains_subseq(full_text, p.required_string@) {
            Err(PoolError::ValidationError)
        } else if favorite_count < entry_of(p.contributions@, post_id) {
            Err(PoolError::MonotonicityError)
        } else if (favorite_count - entry_of(p.contributions@, post_id)) * p.reward_rate
            > p.total_funds {
            Err(PoolError::FundsError)
        } else {
            Ok((((favorite_count - entry_of(p.contributions@, post_id)) * p.reward_rate) as u64))
        }
    }
}

/// The exact result of `distribute_rewards` on a given pre-state: the reward
/// must fit in the pool, and the gateway rejects a zero transfer.
pub open spec fn distribute_outcome(p: RewardPool, verified_likes: u64) -> Result<(), PoolError> {
    if !p.initialized {
        Err(PoolError::StateError)
    } else if verified_likes * p.reward_rate > p.total_funds {
        Err(PoolError::FundsError)
    } else if verified_likes * p.reward_rate == 0 {
        Err(PoolError::TransferError)
    } else {
        Ok(())
    }
}

/// The exact result of `update_settings` on a given pre-state.
pub open spec fn settings_outcome(
    p: RewardPool,
    caller: Seq<u8>,
    new_reward_rate: u64,
) -> Result<(), PoolError> {
    if !p.initialized {
        Err(PoolError::StateError)
    } else if caller != p.owner@ {
        Err(PoolError::AuthorizationError)
    } else if new_reward_rate == 0 {
        Err(PoolError::ValidationError)
    } else {
        Ok(())
    }
}

/// The proportional share returned by a refund: the caller's contribution
/// times the unspent balance, divided by the total ever deposited.
pub open spec fn refund_amount_of(p: RewardPool, caller: Seq<u8>) -> int {
    contribution_of(p.contributors@, caller) * p.total_funds as int / p.total_deposited as int
}

/// The exact result of `refund_unspent_rewards` on a given pre-state:
/// refunds open strictly after the deadline, need a recorded contribution,
/// and the gateway rejects a zero transfer.
pub open spec fn refund_outcome(p: RewardPool, caller: Seq<u8>, block_number: u64) -> Result<
    u64,
    PoolError,
> {
    if !p.initialized {
        Err(PoolError::StateError)
    } else if block_number <= p.deadline {
        Err(PoolError::FundsError)
    } else if contribution_of(p.contributors@, caller) == 0 {
        Err(PoolError::FundsError)
    } else if refund_amount_of(p, caller) == 0 {
        Err(PoolError::TransferError)
    } else {
        Ok(refund_amount_of(p, caller) as u64)
    }
}

/// The refund share never exceeds the unspent balance: dividing by a
/// denominator at least as large as the contribution keeps the quotient
/// within `f`.
proof fn lemma_refund_le_funds(c: int, f: int, d: int)
    requires
        0 <= c <= d,
        0 <= f,
        0 < d,
    ensures
        0 <= c * f / d <= f,
{
    vstd::arithmetic::mul::lemma_mul_nonnegative(c, f);
    vstd::arithmetic::div_mod::lemma_div_pos_is_pos(c * f, d);
    lemma_mul_inequality(c, d, f);
    lemma_div_is_ordered(c * f, d * f, d);
    lemma_div_multiples_vanish(f, d);
}

impl RewardPool {
    /// Structural well-formedness: unique keys, funds never above the total
    /// ever deposited, no contribution above the total ever deposited, a
    /// positive rate once initialized, and an empty pool before
    /// initialization.
    pub open spec fn wf(self) -> bool {
        &&& unique_items(self.contributions@)
        &&& unique_contributors(self.contributors@)
        &&& self.total_funds <= self.total_deposited
        &&& (forall|i: int|
            0 <= i < self.contributors@.len() ==> self.contributors@[i].1
                <= self.total_deposited)
        &&& (self.initialized ==> self.reward_rate > 0)
        &&& (!self.initialized ==> self.total_funds == 0 && self.total_deposited == 0
            && self.contributions@.len() == 0 && self.contributors@.len() == 0)
    }

    /// A fresh, uninitialized pool owned by `owner`; the trusted verifier is
    /// a placeholder until initialization sets it.
    pub fn new(owner: Identity) -> (r: RewardPool)
        ensures
            r.wf(),
            r.owner == owner,
            r.verifier.trusted_signer == owner,
            !r.initialized,
            r.reward_rate == 0,
            r.deadline == 0,
            r.total_funds == 0,
            r.total_deposited == 0,
            r.required_string@.len() == 0,
            r.contributions@.len() == 0,
            r.contributors@.len() == 0,
    {
        RewardPool {
            owner,
            verifier: Verifier::new(owner),
            reward_rate: 0,
            required_string: Vec::new(),
            deadline: 0,
            total_funds: 0,
            total_deposited: 0,
            initialized: false,
            contributions: Vec::new(),
            contributors: Vec::new(),
        }
    }

    /// The highest metric value claimed so far for `post_id`.
    pub fn claimed_value(&self, post_id: u64) -> (r: u64)
        ensures
            r == entry_of(self.contributions@, post_id),
    {
        let n = self.contributions.len();
        let mut i: usize = 0;
        proof {
            assert(self.contributions@.skip(0) =~= self.contributions@);
        }
        while i < n
            invariant
                n == self.contributions@.len(),
                0 <= i <= n,
                entry_of(self.contributions@.skip(i as int), post_id) == entry_of(
                    self.contributions@,
                    post_id,
                ),
            decreases n - i,
        {
            let entry = self.contributions[i];
            proof {
                assert(self.contributions@.skip(i as int)[0] == self.contributions@[i as int]);
                assert(self.contributions@.skip(i as int).drop_first() =~= self.contributions@.skip(
                    i as int + 1,
                ));
            }
            if entry.0 == post_id {
                return entry.1;
            }
            i += 1;
        }
        proof {
            assert(self.contributions@.skip(n as int) =~= Seq::<(u64, u64)>::empty());
        }
        0
    }

    /// The cumulative amount `wallet_address` has funded into the pool.
    pub fn check_wallet_balance(&self, wallet_address: &Identity) -> (r: u64)
        ensures
            r == contribution_of(self.contributors@, wallet_address@),
    {
        let n = self.contributors.len();
        let mut i: usize = 0;
        proof {
            assert(self.contributors@.skip(0) =~= self.contributors@);
        }
        while i < n
            invariant
                n == self.contributors@.len(),
                0 <= i <= n,
                contribution_of(self.contributors@.skip(i as int), wallet_address@)
                    == contribution_of(self.contributors@, wallet_address@),
            decreases n - i,
        {
            proof {
                assert(self.contributors@.skip(i as int)[0] == self.contributors@[i as int]);
                assert(self.contributors@.skip(i as int).drop_first() =~= self.contributors@.skip(
                    i as int + 1,
                ));
            }
            if self.contributors[i].0.same_as(wallet_address) {
                return self.contributors[i].1;
            }
            i += 1;
        }
        proof {
            assert(self.contributors@.skip(n as int) =~= Seq::<(Identity, u64)>::empty());
        }
        0
    }

    /// One-time setup: sets the rate, the content constraint, the trusted
    /// verifier, the deadline and the initial escrow, records the caller as
    /// the first contributor, and flips the one-way `initialized` flag.
    /// Any precondition violation fails the whole call with no state change.
    pub fn initialize_reward_pool(
        &mut self,
        caller: Identity,
        initial_funds: u64,
        reward_rate: u64,
        required_string: Vec<u8>,
        verifier: Identity,
        deadline: u64,
        block_number: u64,
    ) -> (r: Result<(), PoolError>)
        requires
            old(self).wf(),
        ensures
            final(self).wf(),
            r == initialize_outcome(
                *old(self),
                caller@,
                initial_funds,
                reward_rate,
                deadline,
                block_number,
            ),
            r is Ok ==> ({
                &&& final(self).initialized
                &&& final(self).owner == old(self).owner
                &&& final(self).verifier.trusted_signer@ == verifier@
                &&& final(self).reward_rate == reward_rate
                &&& final(self).required_string@ == required_string@
                &&& final(self).deadline == deadline
                &&& final(self).total_funds == initial_funds
                &&& final(self).total_deposited == initial_funds
                &&& final(self).contributions@.len() == 0
                &&& final(self).contributors@.len() == 1
                &&& contribution_of(final(self).contributors@, caller@) == initial_funds
            }),
            r is Err ==> *final(self) == *old(self),
    {
        if self.initialized {
            return Err(PoolError::StateError);
        }
        if !caller.same_as(&self.owner) {
            return Err(PoolError::AuthorizationError);
        }
        if initial_funds == 0 || reward_rate == 0 {
            return Err(PoolError::ValidationError);
        }
        if deadline <= block_number {
            return Err(PoolError::StateError);
        }
        self.verifier = Verifier::new(verifier);
        self.reward_rate = reward_rate;
        self.required_string = required_string;
        self.deadline = deadline;
        self.total_funds = initial_funds;
        self.total_deposited = initial_funds;
        self.initialized = true;
        let mut funders: Vec<(Identity, u64)> = Vec::new();
        funders.push((caller, initial_funds));
        self.contributors = funders;
        Ok(())
    }

    /// Adds `amount` to the escrow and to the caller's recorded cumulative
    /// contribution.
    pub fn fund_reward_pool(&mut self, caller: Identity, amount: u64) -> (r: Result<
        (),
        PoolError,
    >)
        requires
            old(self).wf(),
            old(self).total_deposited + amount <= u64::MAX,
        ensures
            final(self).wf(),
            r == fund_outcome(*old(self), amount),
            r is Ok ==> ({
                &&& final(self).total_funds == old(self).total_funds + amount
                &&& final(self).total_deposited == old(self).total_deposited + amount
                &&& contribution_of(final(self).contributors@, caller@) == contribution_of(
                    old(self).contributors@,
                    caller@,
                ) + amount
                &&& forall|other: Seq<u8>|
                    other != caller@ ==> contribution_of(final(self).contributors@, other)
                        == contribution_of(old(self).contributors@, other)
                &&& final(self).owner == old(self).owner
                &&& final(self).verifier == old(self).verifier
                &&& final(self).reward_rate == old(self).reward_rate
                &&& final(self).required_string@ == old(self).required_string@
                &&& final(self).deadline == old(self).deadline
                &&& final(self).initialized == old(self).initialized
                &&& final(self).contributions@ == old(self).contributions@
            }),
            r is Err ==> *final(self) == *old(self),
    {
        if !self.initialized {
            return Err(PoolError::StateError);
        }
        if amount == 0 {
            return Err(PoolError::ValidationError);
        }
        let current = self.check_wallet_balance(&caller);
        proof {
            lemma_contribution_le(self.contributors@, caller@, self.total_deposited);
        }
        let updated = current + amount;
        self.total_funds = self.total_funds + amount;
        self.total_deposited = self.total_deposited + amount;
        contributors_set(
            &mut self.contributors,
            caller,
            updated,
            Ghost(self.total_deposited),
        );
        Ok(())
    }

    /// Stand-in engagement oracle; reports a fixed metric value.
    #[allow(unused_variables)]
    pub fn verify_likes(&self, user: Identity, post_id: &Vec<u8>) -> (r: u64)
        ensures
            r == 100,
    {
        100
    }

    /// The payout owed for a verified engagement delta, with no rounding
    /// loss: the product of the delta and the reward rate.
    pub fn calculate_reward(&self, verified_likes: u64) -> (r: u128)
        ensures
            r == verified_likes * self.reward_rate,
    {
        proof {
            lemma_mul_upper_bound(
                verified_likes as int,
                u64::MAX as int,
                self.reward_rate as int,
                u64::MAX as int,
            );
        }
        (verified_likes as u128) * (self.reward_rate as u128)
    }

    /// Pays a reward for already-verified engagement out of the escrow; the
    /// balance decreases by exactly the reward on success and is untouched on
    /// any failure.
    pub fn distribute_rewards(&mut self, user_address: Identity, verified_likes: u64) -> (r:
        Result<(), PoolError>)
        requires
            old(self).wf(),
        ensures
            final(self).wf(),
            r == distribute_outcome(*old(self), verified_likes),
            r is Ok ==> ({
                &&& final(self).total_funds == old(self).total_funds - verified_likes * old(
                    self,
                ).reward_rate
                &&& final(self).owner == old(self).owner
                &&& final(self).verifier == old(self).verifier
                &&& final(self).reward_rate == old(self).reward_rate
                &&& final(self).required_string@ == old(self).required_string@
                &&& final(self).deadline == old(self).deadline
                &&& final(self).total_deposited == old(self).total_deposited
                &&& final(self).initialized == old(self).initialized
                &&& final(self).contributions@ == old(self).contributions@
                &&& final(self).contributors@ == old(self).contributors@
            }),
            r is Err ==> *final(self) == *old(self),
    {
        if !self.initialized {
            return Err(PoolError::StateError);
        }
        let reward128 = self.calculate_reward(verified_likes);
        if reward128 > self.total_funds as u128 {
            return Err(PoolError::FundsError);
        }
        let reward_amount = reward128 as u64;
        match transfer_eth(&user_address, reward_amount) {
            Ok(_) => {
                self.total_funds = self.total_funds - reward_amount;
                Ok(())
            },
            Err(e) => Err(e),
        }
    }

    /// The core claim protocol, in strict checks-effects-interactions order:
    /// authenticate the attestation, check the content constraint, enforce
    /// ledger monotonicity, write the ledger and debit the escrow, and only
    /// then interact with the token gateway. A zero delta settles with no
    /// transfer rather than being rejected. The ledger entry of every item
    /// never decreases, whatever the outcome.
    pub fn process_post(
        &mut self,
        caller: Identity,
        favorite_count: u64,
        post_id: u64,
        full_text: &Vec<u8>,
        signature_a: [u8; 32],
        signature_b: [u8; 32],
        recid: u8,
    ) -> (r: Result<u64, PoolError>)
        requires
            old(self).wf(),
        ensures
            final(self).wf(),
            r == claim_outcome(
                *old(self),
                favorite_count,
                post_id,
                full_text@,
                signature_a@ + signature_b@,
                recid,
            ),
            r is Ok ==> ({
                &&& r->Ok_0 == (favorite_count - entry_of(old(self).contributions@, post_id))
                    * old(self).reward_rate
                &&& entry_of(final(self).contributions@, post_id) == favorite_count
                &&& final(self).total_funds == old(self).total_funds - r->Ok_0
                &&& forall|other: u64|
                    other != post_id ==> entry_of(final(self).contributions@, other) == entry_of(
                        old(self).contributions@,
                        other,
                    )
                &&& final(self).owner == old(self).owner
                &&& final(self).verifier == old(self).verifier
                &&& final(self).reward_rate == old(self).reward_rate
                &&& final(self).required_string@ == old(self).required_string@
                &&& final(self).deadline == old(self).deadline
                &&& final(self).total_deposited == old(self).total_deposited
                &&& final(self).initialized == old(self).initialized
                &&& final(self).contributors@ == old(self).contributors@
            }),
            r is Err ==> *final(self) == *old(self),
            forall|item: u64|
                entry_of(final(self).contributions@, item) >= entry_of(
                    old(self).contributions@,
                    item,
                ),
    {
        if !self.initialized {
            return Err(PoolError::StateError);
        }
        let recovered = recover_claim_signer(
            favorite_count,
            post_id,
            full_text,
            &signature_a,
            &signature_b,
            recid,
        );
        let signer = match recovered {
            None => {
                return Err(PoolError::ValidationError);
            },
            Some(id) => id,
        };
        if !signer.same_as(&self.verifier.trusted_signer) {
            return Err(PoolError::ProofError);
        }
        if !contains_subrange(full_text, &self.required_string) {
            return Err(PoolError::ValidationError);
        }
        let previous = self.claimed_value(post_id);
        if favorite_count < previous {
            return Err(PoolError::MonotonicityError);
        }
        let delta = favorite_count - previous;
        proof {
            lemma_mul_upper_bound(
                delta as int,
                u64::MAX as int,
                self.reward_rate as int,
                u64::MAX as int,
            );
        }
        let payout128: u128 = (delta as u128) * (self.reward_rate as u128);
        if payout128 > self.total_funds as u128 {
            return Err(PoolError::FundsError);
        }
        let payout: u64 = payout128 as u64;
        ledger_set(&mut self.contributions, post_id, favorite_count);
        self.total_funds = self.total_funds - payout;
        if payout > 0 {
            // The gateway accepts every positive amount, so settlement cannot
            // fail once the checks above have passed.
            let transfer = transfer_eth(&caller, payout);
            proof {
                assert(transfer is Ok);
            }
        }
        Ok(payout)
    }

    /// Owner-gated change of the reward rate and the deadline; takes effect
    /// for subsequent claims only, with no retroactive effect on the ledger.
    pub fn update_settings(
        &mut self,
        caller: Identity,
        new_reward_rate: u64,
        new_deadline: u64,
    ) -> (r: Result<(), PoolError>)
        requires
            old(self).wf(),
        ensures
            final(self).wf(),
            r == settings_outcome(*old(self), caller@, new_reward_rate),
            r is Ok ==> ({
                &&& final(self).reward_rate == new_reward_rate
                &&& final(self).deadline == new_deadline
                &&& final(self).owner == old(self).owner
                &&& final(self).verifier == old(self).verifier
                &&& final(self).required_string@ == old(self).required_string@
                &&& final(self).total_funds == old(self).total_funds
                &&& final(self).total_deposited == old(self).total_deposited
                &&& final(self).initialized == old(self).initialized
                &&& final(self).contributions@ == old(self).contributions@
                &&& final(self).contributors@ == old(self).contributors@
            }),
            r is Err ==> *final(self) == *old(self),
    {
        if !self.initialized {
            return Err(PoolError::StateError);
        }
        if !caller.same_as(&self.owner) {
            return Err(PoolError::AuthorizationError);
        }
        if new_reward_rate == 0 {
            return Err(PoolError::ValidationError);
        }
        self.reward_rate = new_reward_rate;
        self.deadline = new_deadline;
        Ok(())
    }

    /// Deadline-gated proportional return of unspent funds: pays the caller
    /// their contribution's share of the remaining balance — dividing by the
    /// total ever deposited, never by the mutable balance — then zeroes the
    /// caller's recorded contribution so a second refund fails.
    pub fn refund_unspent_rewards(&mut self, caller: Identity, block_number: u64) -> (r: Result<
        u64,
        PoolError,
    >)
        requires
            old(self).wf(),
        ensures
            final(self).wf(),
            r == refund_outcome(*old(self), caller@, block_number),
            r is Ok ==> ({
                &&& r->Ok_0 == refund_amount_of(*old(self), caller@)
                &&& contribution_of(final(self).contributors@, caller@) == 0
                &&& final(self).total_funds == old(self).total_funds - r->Ok_0
                &&& forall|other: Seq<u8>|
                    other != caller@ ==> contribution_of(final(self).contributors@, other)
                        == contribution_of(old(self).contributors@, other)
                &&& final(self).owner == old(self).owner
                &&& final(self).verifier == old(self).verifier
                &&& final(self).reward_rate == old(self).reward_rate
                &&& final(self).required_string@ == old(self).required_string@
                &&& final(self).deadline == old(self).deadline
                &&& final(self).total_deposited == old(self).total_deposited
                &&& final(self).initialized == old(self).initialized
                &&& final(self).contributions@ == old(self).contributions@
            }),
            r is Err ==> *final(self) == *old(self),
    {
        if !self.initialized {
            return Err(PoolError::StateError);
        }
        if block_number <= self.deadline {
            return Err(PoolError::FundsError);
        }
        let contribution = self.check_wallet_balance(&caller);
        if contribution == 0 {
            return Err(PoolError::FundsError);
        }
        proof {
            lemma_contribution_le(self.contributors@, caller@, self.total_deposited);
            lemma_refund_le_funds(
                contribution as int,
                self.total_funds as int,
                self.total_deposited as int,
            );
            lemma_mul_upper_bound(
                contribution as int,
                u64::MAX as int,
                self.total_funds as int,
                u64::MAX as int,
            );
        }
        let numerator: u128 = (contribution as u128) * (self.total_funds as u128);
        let refund128: u128 = numerator / (self.total_deposited as u128);
        let refund_amount: u64 = refund128 as u64;
        if refund_amount == 0 {
            return Err(PoolError::TransferError);
        }
        contributors_set(&mut self.contributors, caller, 0, Ghost(self.total_deposited));
        self.total_funds = self.total_funds - refund_amount;
        // The gateway accepts every positive amount, so the refund cannot
        // fail once the zero-share case has been rejected.
        let transfer = transfer_eth(&caller, refund_amount);
        proof {
            assert(transfer is Ok);
        }
        Ok(refund_amount)
    }
}

} // verus!
