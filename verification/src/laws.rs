//! General properties of the engine, stated and proved over the model.
//!
//! Each law quantifies over all registries and batches; the scenario-level
//! counterparts on concrete values live in the test suite.

use vstd::prelude::*;

use crate::model::bucket_after_insert;
use crate::model::count_true;
use crate::model::insert_registry;
use crate::model::lemma_sum_counts_bound;
use crate::model::lemma_sum_counts_update;
use crate::model::match_flags;
use crate::model::revealed_size;
use crate::model::sum_counts;
use crate::model::BatchView;
use crate::model::MatchView;
use crate::model::RegistryView;

verus! {

/// Determinism: for a fixed registry and batch the intersection outcome is a
/// single value — any two results that meet the intersector's contract are
/// equal.
pub proof fn lemma_intersect_deterministic(
    reg: RegistryView,
    batch: BatchView,
    m1: MatchView,
    m2: MatchView,
)
    requires
        m1.matched == match_flags(reg, batch),
        m1.match_count == count_true(match_flags(reg, batch)),
        m2.matched == match_flags(reg, batch),
        m2.match_count == count_true(match_flags(reg, batch)),
    ensures
        m1 == m2,
{
    assert(m1 =~= m2);
}

/// Padding invariance: two batches of the same shape, with the same active
/// count and the same active contacts, produce the same flags and the same
/// tally, whatever their padding slots hold.
pub proof fn lemma_padding_invariance(reg: RegistryView, batch1: BatchView, batch2: BatchView)
    requires
        batch1.hashes.len() == batch2.hashes.len(),
        batch1.count == batch2.count,
        forall|i: int| 0 <= i < batch1.count ==> batch1.hashes[i] == batch2.hashes[i],
    ensures
        match_flags(reg, batch1) == match_flags(reg, batch2),
        count_true(match_flags(reg, batch1)) == count_true(match_flags(reg, batch2)),
{
    assert(match_flags(reg, batch1) =~= match_flags(reg, batch2));
}

/// Bucket correctness: a fingerprint stored in an occupied slot of its
/// assigned bucket is matched at every active batch slot that carries it.
pub proof fn lemma_registered_fingerprint_matches(reg: RegistryView, batch: BatchView, i: int)
    requires
        batch.wf(),
        0 <= i < batch.count,
        reg.registered(batch.hashes[i]),
    ensures
        match_flags(reg, batch)[i],
{
}

/// No false positive across buckets: a fingerprint that sits in no occupied
/// slot of its assigned bucket is never matched, even when copies of it sit
/// in other buckets — the target-bucket guard is load-bearing.
pub proof fn lemma_no_cross_bucket_match(reg: RegistryView, batch: BatchView, i: int)
    requires
        0 <= i < batch.hashes.len(),
        !reg.buckets[reg.target_bucket(batch.hashes[i])].contains(batch.hashes[i]),
    ensures
        !match_flags(reg, batch)[i],
{
}

/// Padding slots are never matched, whatever they hold.
pub proof fn lemma_padding_never_matches(reg: RegistryView, batch: BatchView, i: int)
    requires
        batch.count <= i < batch.hashes.len(),
    ensures
        !match_flags(reg, batch)[i],
{
}

/// Capacity is respected: an insertion preserves the registry invariant — in
/// particular no bucket count ever exceeds the slot capacity.
pub proof fn lemma_insert_preserves_wf(reg: RegistryView, hash: u128)
    requires
        reg.wf(),
    ensures
        insert_registry(reg, hash).wf(),
{
    if reg.has_space_for(hash) {
        let t = reg.target_bucket(hash);
        let r1 = insert_registry(reg, hash);
        lemma_sum_counts_bound(reg.buckets, reg.slot_capacity());
        assert(r1.buckets =~= reg.buckets.update(t, bucket_after_insert(reg, hash, t)));
        lemma_sum_counts_update(reg.buckets, t, bucket_after_insert(reg, hash, t));
        assert(reg.buckets[t].count < reg.slot_capacity());
        let nb = reg.num_buckets();
        let cap = reg.slot_capacity();
        assert(cap <= nb * cap) by (nonlinear_arith)
            requires
                nb >= 1,
                cap >= 0,
        ;
        assert(reg.total_users < u64::MAX);
        assert(r1.slot_capacity() == reg.slot_capacity());
        assert forall|k: int|
            0 <= k < r1.buckets.len() implies (#[trigger] r1.buckets[k]).fingerprints.len()
            == r1.slot_capacity() && r1.buckets[k].wf() by {
            assert(reg.buckets[k].fingerprints.len() == reg.slot_capacity());
            assert(reg.buckets[k].wf());
        }
    }
}

/// Within a well-formed registry every bucket count is strictly below the
/// 64-bit limit, so one more insertion cannot wrap it.
proof fn lemma_bucket_count_fits(reg: RegistryView, t: int)
    requires
        reg.wf(),
        0 <= t < reg.buckets.len(),
    ensures
        reg.buckets[t].count < u64::MAX || reg.buckets[t].count == reg.buckets[t].fingerprints.len(),
{
    let nb = reg.num_buckets();
    let cap = reg.slot_capacity();
    assert(cap <= nb * cap) by (nonlinear_arith)
        requires
            nb >= 1,
            cap >= 0,
    ;
    assert(reg.buckets[t].count <= cap);
}

/// A successful insertion takes effect: the inserted fingerprint is
/// registered afterwards, so a subsequent intersection matches it.
pub proof fn lemma_insert_then_registered(reg: RegistryView, hash: u128)
    requires
        reg.wf(),
        reg.has_space_for(hash),
    ensures
        insert_registry(reg, hash).registered(hash),
{
    let t = reg.target_bucket(hash);
    let j = reg.buckets[t].count as int;
    let stored = insert_registry(reg, hash).buckets[t];
    assert(stored == bucket_after_insert(reg, hash, t));
    lemma_bucket_count_fits(reg, t);
    assert(stored.fingerprints.len() == reg.buckets[t].fingerprints.len());
    assert(0 <= j < stored.fingerprints.len() && j < stored.count && stored.fingerprints[j]
        == hash);
    assert(stored.contains(hash));
}

/// Insertions never unregister anything: a fingerprint registered before an
/// insertion is still registered after it, whatever was inserted.
pub proof fn lemma_insert_preserves_registered(reg: RegistryView, hash: u128, earlier: u128)
    requires
        reg.wf(),
        reg.registered(earlier),
    ensures
        insert_registry(reg, hash).registered(earlier),
{
    if reg.has_space_for(hash) {
        let t = reg.target_bucket(earlier);
        let before = reg.buckets[t];
        let after = insert_registry(reg, hash).buckets[t];
        let j = choose|j: int|
            0 <= j < before.fingerprints.len() && j < before.count && before.fingerprints[j]
                == earlier;
        assert(after == bucket_after_insert(reg, hash, t));
        lemma_bucket_count_fits(reg, t);
        assert(0 <= j < after.fingerprints.len() && j < after.count && after.fingerprints[j]
            == earlier);
        assert(after.contains(earlier));
    }
}

/// An insertion into a full target bucket is dropped wholesale: the registry
/// is returned unchanged — no slot, no count, no total moves.
pub proof fn lemma_insert_full_is_noop(reg: RegistryView, hash: u128)
    requires
        !reg.has_space_for(hash),
    ensures
        insert_registry(reg, hash) == reg,
{
}

/// The user total moves by one exactly when the insertion succeeded (the
/// target bucket had space), and not at all otherwise.
pub proof fn lemma_insert_total_users(reg: RegistryView, hash: u128)
    requires
        reg.wf(),
    ensures
        insert_registry(reg, hash).total_users == reg.total_users + if reg.has_space_for(hash) {
            1int
        } else {
            0int
        },
{
    if reg.has_space_for(hash) {
        let t = reg.target_bucket(hash);
        lemma_sum_counts_bound(reg.buckets, reg.slot_capacity());
        assert(reg.buckets[t].count < reg.slot_capacity());
        let nb = reg.num_buckets();
        let cap = reg.slot_capacity();
        assert(cap <= nb * cap) by (nonlinear_arith)
            requires
                nb >= 1,
                cap >= 0,
        ;
        assert(reg.total_users < u64::MAX);
    }
}

/// The registry after a whole sequence of insertions, applied in order.
pub open spec fn insert_all(reg: RegistryView, hashes: Seq<u128>) -> RegistryView
    decreases hashes.len(),
{
    if hashes.len() == 0 {
        reg
    } else {
        insert_all(insert_registry(reg, hashes[0]), hashes.drop_first())
    }
}

/// How many of the insertions succeed: those whose target bucket has space at
/// the moment the insertion is applied.
pub open spec fn successful_inserts(reg: RegistryView, hashes: Seq<u128>) -> int
    decreases hashes.len(),
{
    if hashes.len() == 0 {
        0
    } else {
        (if reg.has_space_for(hashes[0]) {
            1int
        } else {
            0int
        }) + successful_inserts(insert_registry(reg, hashes[0]), hashes.drop_first())
    }
}

/// Counter consistency: after any sequence of insertions the user total has
/// advanced by exactly the number of insertions that succeeded — dropped
/// insertions never count.
pub proof fn lemma_counter_consistency(reg: RegistryView, hashes: Seq<u128>)
    requires
        reg.wf(),
    ensures
        insert_all(reg, hashes).wf(),
        insert_all(reg, hashes).total_users == reg.total_users + successful_inserts(reg, hashes),
    decreases hashes.len(),
{
    if hashes.len() > 0 {
        lemma_insert_total_users(reg, hashes[0]);
        lemma_insert_preserves_wf(reg, hashes[0]);
        lemma_counter_consistency(insert_registry(reg, hashes[0]), hashes.drop_first());
    }
}

/// Reveal isolation: the revealed size depends on the user total alone — two
/// registries with the same total reveal the same number, whatever their
/// buckets hold.
pub proof fn lemma_reveal_isolation(reg1: RegistryView, reg2: RegistryView)
    requires
        reg1.total_users == reg2.total_users,
    ensures
        revealed_size(reg1) == revealed_size(reg2),
{
}

} // verus!
