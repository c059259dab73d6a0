//! Mathematical model of the registry and of the matching engine.
//!
//! Every executable operation is pinned to a function over these ghost
//! values: the registry as a sequence of bucket views, a client batch as a
//! sequence of fingerprints with an active count, and the match outcome as a
//! sequence of flags. The executable code is proved equal to this model.

use vstd::prelude::*;

verus! {

/// One bucket of the registry: a fixed row of fingerprint slots and the
/// number of leading slots that are occupied.
#[verifier::ext_equal]
pub ghost struct BucketView {
    pub fingerprints: Seq<u128>,
    pub count: u64,
}

/// The whole registry: its buckets and the running total of users whose
/// insertion succeeded.
#[verifier::ext_equal]
pub ghost struct RegistryView {
    pub buckets: Seq<BucketView>,
    pub total_users: u64,
}

/// A client batch: a fixed row of fingerprint slots, of which the first
/// `count` are real contacts and the rest are padding.
#[verifier::ext_equal]
pub ghost struct BatchView {
    pub hashes: Seq<u128>,
    pub count: u64,
}

/// The outcome of an intersection: one flag per batch slot and the number of
/// flags that are set.
#[verifier::ext_equal]
pub ghost struct MatchView {
    pub matched: Seq<bool>,
    pub match_count: u64,
}

/// Deterministic bucket assignment: a fingerprint lands in bucket
/// `hash mod num_buckets`.
pub open spec fn bucket_of(hash: u128, num_buckets: int) -> int {
    hash as int % num_buckets
}

/// Sum of the occupancy counts over a row of buckets.
pub open spec fn sum_counts(buckets: Seq<BucketView>) -> int
    decreases buckets.len(),
{
    if buckets.len() == 0 {
        0
    } else {
        sum_counts(buckets.drop_last()) + buckets.last().count
    }
}

impl BucketView {
    /// The bucket invariant: the occupancy count never exceeds the number of
    /// slots.
    pub open spec fn wf(self) -> bool {
        self.count <= self.fingerprints.len()
    }

    /// Whether `hash` is stored in an occupied slot of this bucket.
    pub open spec fn contains(self, hash: u128) -> bool {
        exists|j: int|
            0 <= j < self.fingerprints.len() && j < self.count && self.fingerprints[j] == hash
    }

    /// Whether `hash` is stored in an occupied slot with index below `upto`.
    /// Scanning a bucket slot by slot establishes this bound step by step.
    pub open spec fn contains_below(self, hash: u128, upto: int) -> bool {
        exists|j: int| 0 <= j < upto && j < self.count && self.fingerprints[j] == hash
    }
}

impl RegistryView {
    /// Number of buckets.
    pub open spec fn num_buckets(self) -> int {
        self.buckets.len() as int
    }

    /// Slots per bucket; every bucket of a well-formed registry has this many.
    pub open spec fn slot_capacity(self) -> int {
        self.buckets[0].fingerprints.len() as int
    }

    /// The registry invariant: at least one bucket, a uniform number of slots
    /// per bucket, occupancy within capacity, a total capacity that fits the
    /// user counter, and a user counter that equals the number of occupied
    /// slots (each successful insertion fills exactly one).
    pub open spec fn wf(self) -> bool {
        &&& self.buckets.len() >= 1
        &&& forall|b: int|
            0 <= b < self.buckets.len() ==> (#[trigger] self.buckets[b]).fingerprints.len()
                == self.slot_capacity()
        &&& forall|b: int| 0 <= b < self.buckets.len() ==> (#[trigger] self.buckets[b]).wf()
        &&& self.num_buckets() * self.slot_capacity() <= u64::MAX
        &&& self.total_users == sum_counts(self.buckets)
    }

    /// The bucket a fingerprint is assigned to.
    pub open spec fn target_bucket(self, hash: u128) -> int {
        bucket_of(hash, self.num_buckets())
    }

    /// Whether the bucket assigned to `hash` still has a free slot.
    pub open spec fn has_space_for(self, hash: u128) -> bool {
        self.buckets[self.target_bucket(hash)].count
            < self.buckets[self.target_bucket(hash)].fingerprints.len()
    }

    /// Whether `hash` is registered: stored in an occupied slot of its
    /// assigned bucket. A copy of `hash` sitting in any other bucket does not
    /// count, which is what makes the target-bucket guard of the intersector
    /// load-bearing.
    pub open spec fn registered(self, hash: u128) -> bool {
        self.buckets[self.target_bucket(hash)].contains(hash)
    }
}

impl BatchView {
    /// The batch invariant: the active count never exceeds the number of
    /// slots. A batch that breaks it is rejected before the oblivious
    /// algorithm runs.
    pub open spec fn wf(self) -> bool {
        self.count <= self.hashes.len()
    }
}

/// A freshly bootstrapped registry: every slot cleared, every count zero.
pub open spec fn empty_registry(num_buckets: int, bucket_size: int) -> RegistryView {
    RegistryView {
        buckets: Seq::new(
            num_buckets as nat,
            |b: int|
                BucketView {
                    fingerprints: Seq::new(bucket_size as nat, |j: int| 0u128),
                    count: 0u64,
                },
        ),
        total_users: 0u64,
    }
}

/// The bucket row after inserting `hash`, bucket by bucket: only the target
/// bucket changes, and only when it has space; the fingerprint lands in the
/// slot indexed by the old count.
pub open spec fn bucket_after_insert(reg: RegistryView, hash: u128, b: int) -> BucketView {
    if b == reg.target_bucket(hash) && reg.has_space_for(hash) {
        BucketView {
            fingerprints: reg.buckets[b].fingerprints.update(reg.buckets[b].count as int, hash),
            count: (reg.buckets[b].count + 1) as u64,
        }
    } else {
        reg.buckets[b]
    }
}

/// The registry after one insertion. When the target bucket has space the
/// fingerprint is stored and both the bucket count and the user total rise by
/// one; when it is full the insertion is dropped and the registry is
/// unchanged (the caller observes only that the total did not move).
pub open spec fn insert_registry(reg: RegistryView, hash: u128) -> RegistryView {
    if reg.has_space_for(hash) {
        RegistryView {
            buckets: Seq::new(reg.buckets.len(), |b: int| bucket_after_insert(reg, hash, b)),
            total_users: (reg.total_users + 1) as u64,
        }
    } else {
        reg
    }
}

/// The match flag for batch slot `i`: set exactly when the slot is active
/// (below the batch count) and its fingerprint is registered.
pub open spec fn match_flag(reg: RegistryView, batch: BatchView, i: int) -> bool {
    i < batch.count && reg.registered(batch.hashes[i])
}

/// The full row of match flags, one per batch slot, padding included
/// (padding slots are never matched).
pub open spec fn match_flags(reg: RegistryView, batch: BatchView) -> Seq<bool> {
    Seq::new(batch.hashes.len(), |i: int| match_flag(reg, batch, i))
}

/// How many flags of a row are set.
pub open spec fn count_true(flags: Seq<bool>) -> int
    decreases flags.len(),
{
    if flags.len() == 0 {
        0
    } else {
        count_true(flags.drop_last()) + if flags.last() {
            1int
        } else {
            0int
        }
    }
}

/// What the size-reveal operation declassifies: the user total and nothing
/// else.
pub open spec fn revealed_size(reg: RegistryView) -> u64 {
    reg.total_users
}

/// Appending a flag to a row adds exactly that flag to the tally.
pub proof fn lemma_count_true_push(flags: Seq<bool>, flag: bool)
    ensures
        count_true(flags.push(flag)) == count_true(flags) + if flag {
            1int
        } else {
            0int
        },
{
    assert(flags.push(flag).drop_last() =~= flags);
}

/// A row of empty buckets sums to zero.
pub proof fn lemma_sum_counts_zero(buckets: Seq<BucketView>)
    requires
        forall|b: int| 0 <= b < buckets.len() ==> (#[trigger] buckets[b]).count == 0,
    ensures
        sum_counts(buckets) == 0,
    decreases buckets.len(),
{
    if buckets.len() > 0 {
        lemma_sum_counts_zero(buckets.drop_last());
    }
}

/// Replacing one bucket moves the sum by the difference of the two counts.
pub proof fn lemma_sum_counts_update(buckets: Seq<BucketView>, t: int, replacement: BucketView)
    requires
        0 <= t < buckets.len(),
    ensures
        sum_counts(buckets.update(t, replacement)) == sum_counts(buckets) - buckets[t].count
            + replacement.count,
    decreases buckets.len(),
{
    let updated = buckets.update(t, replacement);
    if t == buckets.len() - 1 {
        assert(updated.drop_last() =~= buckets.drop_last());
    } else {
        assert(updated.drop_last() =~= buckets.drop_last().update(t, replacement));
        lemma_sum_counts_update(buckets.drop_last(), t, replacement);
    }
}

/// A row whose counts all stay within `cap` sums to at most `len * cap`;
/// strictly less as soon as one bucket is below `cap`.
pub proof fn lemma_sum_counts_bound(buckets: Seq<BucketView>, cap: int)
    requires
        forall|b: int| 0 <= b < buckets.len() ==> (#[trigger] buckets[b]).count <= cap,
    ensures
        sum_counts(buckets) <= buckets.len() * cap,
        forall|t: int|
            0 <= t < buckets.len() && (#[trigger] buckets[t]).count < cap ==> sum_counts(buckets)
                < buckets.len() * cap,
    decreases buckets.len(),
{
    if buckets.len() == 0 {
    } else {
        let len = buckets.len() as int;
        lemma_sum_counts_bound(buckets.drop_last(), cap);
        assert((len - 1) * cap + cap == len * cap) by (nonlinear_arith);
        assert forall|t: int|
            0 <= t < buckets.len() && (#[trigger] buckets[t]).count < cap implies sum_counts(
            buckets,
        ) < buckets.len() * cap by {
            if t < len - 1 {
                assert(buckets.drop_last()[t] == buckets[t]);
            }
        }
    }
}

} // verus!
