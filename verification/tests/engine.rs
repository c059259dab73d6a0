//! Scenario tests for the oblivious matching engine on concrete values.

use blind_link::insert::register_user;
use blind_link::intersect::intersect_contacts;
use blind_link::registry::bucket_index;
use blind_link::registry::init_registry;
use blind_link::registry::reveal_registry_size;
use blind_link::types::ClientContacts;
use blind_link::types::ContactHash;
use blind_link::types::GlobalRegistry;
use blind_link::types::MatchResult;
use blind_link::types::PsiError;
use blind_link::types::RegistryBucket;

fn batch(hashes: Vec<u128>, count: u64) -> ClientContacts {
    ClientContacts { hashes, count }
}

fn intersect_ok(contacts: &ClientContacts, registry: &GlobalRegistry) -> MatchResult {
    intersect_contacts(contacts, registry).expect("well-formed batch must be accepted")
}

#[test]
fn init_registry_shape() {
    let reg = init_registry(4, 16);
    assert_eq!(reg.buckets.len(), 4);
    for bucket in &reg.buckets {
        assert_eq!(bucket.fingerprints.len(), 16);
        assert_eq!(bucket.count, 0);
        assert!(bucket.fingerprints.iter().all(|&fp| fp == 0));
    }
    assert_eq!(reg.total_users, 0);
    assert_eq!(reveal_registry_size(&reg), 0);
}

#[test]
fn bucket_assignment_is_modular() {
    assert_eq!(bucket_index(10, 4), 10 % 4);
    assert_eq!(bucket_index(14, 4), 2);
    assert_eq!(bucket_index(18, 4), 2);
    assert_eq!(bucket_index(99, 4), 3);
    assert_eq!(bucket_index(0, 8), 0);
    assert_eq!(bucket_index(u128::MAX, 8), (u128::MAX % 8) as u64);
    assert_eq!(bucket_index(7, 1), 0);
}

#[test]
fn registered_fingerprint_matches() {
    let reg = init_registry(8, 4);
    let reg = register_user(ContactHash { hash: 0xfeed }, reg);
    let stored_bucket = bucket_index(0xfeed, 8) as usize;
    assert_eq!(reg.buckets[stored_bucket].count, 1);
    assert_eq!(reg.buckets[stored_bucket].fingerprints[0], 0xfeed);

    let result = intersect_ok(&batch(vec![0xfeed, 0xbeef], 2), &reg);
    assert_eq!(result.matched, vec![true, false]);
    assert_eq!(result.match_count, 1);
}

#[test]
fn end_to_end_small_registry() {
    // Four buckets of two slots; 10, 14 and 18 all land in bucket 2.
    let reg = init_registry(4, 2);
    let reg = register_user(ContactHash { hash: 10 }, reg);
    let reg = register_user(ContactHash { hash: 14 }, reg);
    assert_eq!(reg.buckets[2].count, 2);
    assert_eq!(reg.total_users, 2);

    // The bucket is full: the third insertion is dropped.
    let reg = register_user(ContactHash { hash: 18 }, reg);
    assert_eq!(reg.buckets[2].count, 2);
    assert_eq!(reg.buckets[2].fingerprints, vec![10, 14]);
    assert_eq!(reg.total_users, 2);
    assert_eq!(reveal_registry_size(&reg), 2);

    // 10 is stored, 18 was never stored, 99 is absent.
    let result = intersect_ok(&batch(vec![10, 18, 99], 3), &reg);
    assert_eq!(result.matched, vec![true, false, false]);
    assert_eq!(result.match_count, 1);
}

#[test]
fn intersect_is_deterministic() {
    let reg = init_registry(4, 4);
    let reg = register_user(ContactHash { hash: 21 }, reg);
    let reg = register_user(ContactHash { hash: 34 }, reg);
    let contacts = batch(vec![34, 7, 21, 0], 3);

    let first = intersect_ok(&contacts, &reg);
    let second = intersect_ok(&contacts, &reg);
    assert_eq!(first.matched, second.matched);
    assert_eq!(first.match_count, second.match_count);
    assert_eq!(first.matched, vec![true, false, true, false]);
    assert_eq!(first.match_count, 2);
}

#[test]
fn padding_slots_do_not_affect_the_result() {
    let reg = init_registry(4, 4);
    let reg = register_user(ContactHash { hash: 5 }, reg);
    let reg = register_user(ContactHash { hash: 6 }, reg);

    // Same two active contacts; the two padding slots differ, and in the
    // second batch they even hold registered fingerprints.
    let quiet = intersect_ok(&batch(vec![5, 9, 0, 0], 2), &reg);
    let noisy = intersect_ok(&batch(vec![5, 9, 6, 5], 2), &reg);
    assert_eq!(quiet.matched, noisy.matched);
    assert_eq!(quiet.match_count, noisy.match_count);
    assert_eq!(quiet.matched, vec![true, false, false, false]);
    assert_eq!(quiet.match_count, 1);
}

#[test]
fn cross_bucket_copy_never_matches() {
    // 11 belongs in bucket 11 % 4 == 3. Corrupt the registry so that 11 sits
    // only in bucket 1: the target-bucket guard must turn the query into a
    // miss even though the fingerprint is stored somewhere.
    let corrupted = GlobalRegistry {
        buckets: vec![
            RegistryBucket { fingerprints: vec![0, 0], count: 0 },
            RegistryBucket { fingerprints: vec![11, 0], count: 1 },
            RegistryBucket { fingerprints: vec![0, 0], count: 0 },
            RegistryBucket { fingerprints: vec![0, 0], count: 0 },
        ],
        total_users: 1,
    };
    let result = intersect_ok(&batch(vec![11], 1), &corrupted);
    assert_eq!(result.matched, vec![false]);
    assert_eq!(result.match_count, 0);

    // Control: the same fingerprint stored in its assigned bucket is found.
    let proper = GlobalRegistry {
        buckets: vec![
            RegistryBucket { fingerprints: vec![0, 0], count: 0 },
            RegistryBucket { fingerprints: vec![0, 0], count: 0 },
            RegistryBucket { fingerprints: vec![0, 0], count: 0 },
            RegistryBucket { fingerprints: vec![11, 0], count: 1 },
        ],
        total_users: 1,
    };
    let result = intersect_ok(&batch(vec![11], 1), &proper);
    assert_eq!(result.matched, vec![true]);
    assert_eq!(result.match_count, 1);
}

#[test]
fn capacity_respecting_insert() {
    // Three slots per bucket; four distinct fingerprints, all congruent to
    // 1 modulo 4, so all aimed at bucket 1.
    let mut reg = init_registry(4, 3);
    for hash in [1u128, 5, 9, 13] {
        reg = register_user(ContactHash { hash }, reg);
    }
    assert_eq!(reg.buckets[1].count, 3);
    assert_eq!(reg.buckets[1].fingerprints, vec![1, 5, 9]);
    assert_eq!(reg.total_users, 3);

    // The overflowing fingerprint is absent from any subsequent intersection.
    let result = intersect_ok(&batch(vec![1, 5, 9, 13], 4), &reg);
    assert_eq!(result.matched, vec![true, true, true, false]);
    assert_eq!(result.match_count, 3);
}

#[test]
fn counter_counts_only_successful_insertions() {
    // One bucket of two slots: of five insertions only the first two succeed.
    let mut reg = init_registry(1, 2);
    for hash in [100u128, 200, 300, 400, 500] {
        reg = register_user(ContactHash { hash }, reg);
    }
    assert_eq!(reg.total_users, 2);
    assert_eq!(reveal_registry_size(&reg), 2);
}

#[test]
fn reveal_size_ignores_bucket_contents() {
    // Two registries with the same user total but different contents and
    // different bucket distributions reveal the same number.
    let first = {
        let reg = init_registry(4, 4);
        let reg = register_user(ContactHash { hash: 8 }, reg);
        register_user(ContactHash { hash: 3 }, reg)
    };
    let second = {
        let reg = init_registry(4, 4);
        let reg = register_user(ContactHash { hash: 777 }, reg);
        register_user(ContactHash { hash: 778 }, reg)
    };
    assert_ne!(first.buckets[0].fingerprints, second.buckets[0].fingerprints);
    assert_eq!(reveal_registry_size(&first), reveal_registry_size(&second));
    assert_eq!(reveal_registry_size(&first), 2);
}

#[test]
fn malformed_batch_is_rejected() {
    let reg = init_registry(4, 2);
    let oversized = batch(vec![1, 2, 3], 4);
    match intersect_contacts(&oversized, &reg) {
        Err(err) => assert_eq!(err, PsiError::MalformedBatch),
        Ok(_) => panic!("oversized batch must be rejected"),
    }
    // The boundary case count == slots is well formed.
    assert!(intersect_contacts(&batch(vec![1, 2, 3], 3), &reg).is_ok());
}

#[test]
fn empty_batch_matches_nothing() {
    let reg = init_registry(4, 2);
    let reg = register_user(ContactHash { hash: 42 }, reg);
    // Every slot is padding, even though slot 0 holds a registered value.
    let result = intersect_ok(&batch(vec![42, 42], 0), &reg);
    assert_eq!(result.matched, vec![false, false]);
    assert_eq!(result.match_count, 0);
}

#[test]
fn cleared_slots_never_match_a_zero_query() {
    // Bucket 0 holds one real entry (4) and otherwise cleared slots. A query
    // for fingerprint 0 aims at bucket 0, whose unused slots hold the value
    // 0, but they are beyond the occupancy count and must not match.
    let reg = init_registry(4, 4);
    let reg = register_user(ContactHash { hash: 4 }, reg);
    let result = intersect_ok(&batch(vec![0], 1), &reg);
    assert_eq!(result.matched, vec![false]);
    assert_eq!(result.match_count, 0);

    // A genuinely registered zero fingerprint, by contrast, is found.
    let reg = register_user(ContactHash { hash: 0 }, reg);
    let result = intersect_ok(&batch(vec![0], 1), &reg);
    assert_eq!(result.matched, vec![true]);
    assert_eq!(result.match_count, 1);
}

#[test]
fn deployment_shape_batch() {
    // Deployment-sized shapes: four buckets of sixteen slots, a sixteen-slot
    // batch of which five contacts are active.
    let mut reg = init_registry(4, 16);
    for hash in [0x1111u128, 0x2222, 0x3333, 0x4444, 0x5555, 0x6666] {
        reg = register_user(ContactHash { hash }, reg);
    }
    assert_eq!(reveal_registry_size(&reg), 6);

    let mut hashes = vec![0x1111u128, 0xdead, 0x3333, 0x5555, 0xbeef];
    hashes.resize(16, 0);
    let result = intersect_ok(&batch(hashes, 5), &reg);
    let mut expected = vec![true, false, true, true, false];
    expected.resize(16, false);
    assert_eq!(result.matched, expected);
    assert_eq!(result.match_count, 3);
}

#[test]
fn duplicate_queries_each_count() {
    let reg = init_registry(4, 4);
    let reg = register_user(ContactHash { hash: 77 }, reg);
    let result = intersect_ok(&batch(vec![77, 77, 77], 3), &reg);
    assert_eq!(result.matched, vec![true, true, true]);
    assert_eq!(result.match_count, 3);
}
