//! Registry bootstrap, bucket assignment, and the size reveal.

use vstd::prelude::*;

use crate::model::bucket_of;
use crate::model::empty_registry;
use crate::model::lemma_sum_counts_zero;
use crate::model::revealed_size;
use crate::types::GlobalRegistry;
use crate::types::RegistryBucket;

verus! {

/// Deterministic bucket assignment: modular reduction of the fingerprint by
/// the number of buckets. The reduction is a fixed arithmetic operation, so it
/// leaks nothing through control flow; the resulting index is itself derived
/// from a secret and stays secret downstream.
pub fn bucket_index(hash: u128, num_buckets: u64) -> (r: u64)
    requires
        1 <= num_buckets,
    ensures
        r == bucket_of(hash, num_buckets as int),
        r < num_buckets,
{
    let index = hash % (num_buckets as u128);
    proof {
        assert(index < num_buckets as u128);
    }
    index as u64
}

/// Bootstrap a registry: `num_buckets` buckets of `bucket_size` slots each,
/// every slot cleared, every count zero. Must run once before any insertion
/// or intersection against this registry.
pub fn init_registry(num_buckets: usize, bucket_size: usize) -> (r: GlobalRegistry)
    requires
        1 <= num_buckets,
        num_buckets * bucket_size <= u64::MAX,
    ensures
        r@ == empty_registry(num_buckets as int, bucket_size as int),
        r@.wf(),
{
    let ghost target = empty_registry(num_buckets as int, bucket_size as int);
    let mut buckets: Vec<RegistryBucket> = Vec::new();
    let mut b: usize = 0;
    while b < num_buckets
        invariant
            b <= num_buckets,
            buckets@.len() == b,
            forall|k: int| 0 <= k < b ==> (#[trigger] buckets@[k])@ == target.buckets[k],
            target == empty_registry(num_buckets as int, bucket_size as int),
        decreases num_buckets - b,
    {
        let mut fingerprints: Vec<u128> = Vec::new();
        let mut j: usize = 0;
        while j < bucket_size
            invariant
                j <= bucket_size,
                fingerprints@.len() == j,
                forall|k: int| 0 <= k < j ==> fingerprints@[k] == 0u128,
            decreases bucket_size - j,
        {
            fingerprints.push(0u128);
            j += 1;
        }
        proof {
            assert(fingerprints@ =~= Seq::new(bucket_size as nat, |k: int| 0u128));
        }
        buckets.push(RegistryBucket { fingerprints, count: 0 });
        b += 1;
    }
    let r = GlobalRegistry { buckets, total_users: 0 };
    proof {
        assert(r@ =~~= target);
        lemma_sum_counts_zero(r@.buckets);
    }
    r
}

/// The single declassification point of the core: disclose the aggregate
/// user total and nothing else. No bucket content, count, or distribution
/// enters the result.
pub fn reveal_registry_size(registry: &GlobalRegistry) -> (r: u64)
    ensures
        r == revealed_size(registry@),
{
    registry.total_users
}

} // verus!
