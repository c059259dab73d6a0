//! Executable data types of the engine, each abstracted by a ghost view.
//!
//! The shapes are fixed at bootstrap time and never change: a registry keeps
//! its number of buckets and slots per bucket, a batch keeps its number of
//! slots. Occupancy and activity are tracked by explicit counts, so that the
//! algorithms can iterate over the full fixed shape regardless of how much of
//! it is in use.

use vstd::prelude::*;

use crate::model::BatchView;
use crate::model::BucketView;
use crate::model::MatchView;
use crate::model::RegistryView;

verus! {

/// A single contact fingerprint: a salted hash already reduced to a fixed
/// 128-bit scalar by the upstream hashing layer.
#[derive(Clone, Copy)]
pub struct ContactHash {
    pub hash: u128,
}

/// A client's contact list submitted for intersection. The first `count`
/// slots of `hashes` are real contacts; the rest are padding and must never
/// influence the match result.
pub struct ClientContacts {
    pub hashes: Vec<u128>,
    pub count: u64,
}

/// One bucket of the global registry: fingerprint slots plus the number of
/// leading slots that are occupied. Slots at or beyond `count` are logically
/// unused, whatever value they hold.
pub struct RegistryBucket {
    pub fingerprints: Vec<u128>,
    pub count: u64,
}

/// The global user registry: a fixed row of buckets and the running total of
/// users whose insertion succeeded.
pub struct GlobalRegistry {
    pub buckets: Vec<RegistryBucket>,
    pub total_users: u64,
}

/// The outcome of an intersection: one flag per batch slot (padding slots are
/// always unset) and the number of set flags.
pub struct MatchResult {
    pub matched: Vec<bool>,
    pub match_count: u64,
}

impl View for RegistryBucket {
    type V = BucketView;

    open spec fn view(&self) -> BucketView {
        BucketView { fingerprints: self.fingerprints@, count: self.count }
    }
}

impl View for GlobalRegistry {
    type V = RegistryView;

    open spec fn view(&self) -> RegistryView {
        RegistryView {
            buckets: self.buckets@.map_values(|bucket: RegistryBucket| bucket@),
            total_users: self.total_users,
        }
    }
}

impl View for ClientContacts {
    type V = BatchView;

    open spec fn view(&self) -> BatchView {
        BatchView { hashes: self.hashes@, count: self.count }
    }
}

impl View for MatchResult {
    type V = MatchView;

    open spec fn view(&self) -> MatchView {
        MatchView { matched: self.matched@, match_count: self.match_count }
    }
}

/// Why an operation rejected its input before the oblivious algorithm ran.
/// Shape checks are public: a batch's slot count is not a secret.
#[derive(Clone, Copy, Debug, PartialEq, Eq, Structural)]
pub enum PsiError {
    /// The batch declares more active contacts than it has slots.
    MalformedBatch,
}

} // verus!
