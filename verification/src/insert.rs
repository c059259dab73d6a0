//! Oblivious insertion into the registry.
//!
//! The inserter touches every bucket and every slot in a fixed order, gating
//! each write by a flag, so that neither the chosen bucket nor whether the
//! bucket was full can be read off the execution shape. A full target bucket
//! drops the insertion; the only caller-visible trace is that the user total
//! did not move.

use vstd::prelude::*;

use crate::laws::lemma_insert_preserves_wf;
use crate::model::bucket_after_insert;
use crate::model::insert_registry;
use crate::model::lemma_sum_counts_bound;
use crate::registry::bucket_index;
use crate::select::oblivious_add_u64;
use crate::select::oblivious_and;
use crate::select::oblivious_or;
use crate::select::oblivious_select_u128;
use crate::types::ContactHash;
use crate::types::GlobalRegistry;
use crate::types::RegistryBucket;

verus! {

/// Insert one user's fingerprint into its assigned bucket. The registry is
/// consumed and the successor version returned: exactly the old state with
/// the fingerprint stored at the target bucket's next free slot and both
/// counters advanced, or exactly the old state when that bucket is full.
pub fn register_user(user_hash: ContactHash, registry: GlobalRegistry) -> (r: GlobalRegistry)
    requires
        registry@.wf(),
    ensures
        r@ == insert_registry(registry@, user_hash.hash),
        r@.wf(),
{
    let ghost reg0 = registry@;
    let hash = user_hash.hash;
    let num_buckets = registry.buckets.len();
    let b_idx = bucket_index(hash, num_buckets as u64);
    let ghost t = reg0.target_bucket(hash);

    let mut new_buckets: Vec<RegistryBucket> = Vec::new();
    let mut succeeded = false;
    let mut b: usize = 0;
    while b < num_buckets
        invariant
            reg0.wf(),
            reg0 == registry@,
            num_buckets == reg0.buckets.len(),
            hash == user_hash.hash,
            b_idx == t,
            t == reg0.target_bucket(hash),
            0 <= t < num_buckets,
            b <= num_buckets,
            new_buckets@.len() == b,
            forall|k: int|
                0 <= k < b ==> (#[trigger] new_buckets@[k])@ == bucket_after_insert(
                    reg0,
                    hash,
                    k,
                ),
            succeeded == (t < b && reg0.has_space_for(hash)),
        decreases num_buckets - b,
    {
        let bucket = &registry.buckets[b];
        let is_target = (b as u64) == b_idx;
        let insert_pos = bucket.count;
        let bucket_len = bucket.fingerprints.len();
        let has_space = insert_pos < (bucket_len as u64);

        let mut fingerprints: Vec<u128> = Vec::new();
        let mut j: usize = 0;
        while j < bucket_len
            invariant
                j <= bucket_len,
                bucket_len == bucket.fingerprints@.len(),
                insert_pos == bucket.count,
                fingerprints@.len() == j,
                forall|k: int|
                    0 <= k < j ==> fingerprints@[k] == (if is_target && has_space && k
                        == insert_pos as int {
                        hash
                    } else {
                        bucket.fingerprints@[k]
                    }),
            decreases bucket_len - j,
        {
            let is_slot = (j as u64) == insert_pos;
            let should_write = oblivious_and(oblivious_and(is_target, is_slot), has_space);
            let existing = bucket.fingerprints[j];
            fingerprints.push(oblivious_select_u128(should_write, hash, existing));
            j += 1;
        }

        let grows = oblivious_and(is_target, has_space);
        let new_count = oblivious_add_u64(insert_pos, grows);
        succeeded = oblivious_or(succeeded, grows);
        proof {
            assert(bucket@ == reg0.buckets[b as int]);
            if is_target && has_space {
                assert(fingerprints@ =~= bucket.fingerprints@.update(insert_pos as int, hash));
            } else {
                assert(fingerprints@ =~= bucket.fingerprints@);
            }
        }
        new_buckets.push(RegistryBucket { fingerprints, count: new_count });
        b += 1;
    }

    proof {
        if succeeded {
            lemma_sum_counts_bound(reg0.buckets, reg0.slot_capacity());
        }
    }
    let total_users = oblivious_add_u64(registry.total_users, succeeded);
    let r = GlobalRegistry { buckets: new_buckets, total_users };
    proof {
        if reg0.has_space_for(hash) {
            assert(r@ =~~= insert_registry(reg0, hash));
        } else {
            assert(r@ =~~= reg0);
        }
        lemma_insert_preserves_wf(reg0, hash);
    }
    r
}

} // verus!
