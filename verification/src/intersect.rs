//! Oblivious intersection of a client batch against the registry.
//!
//! Every batch slot is compared against every slot of every bucket, in a
//! fixed order independent of the batch's true count, of the buckets'
//! occupancy, and of any comparison outcome. A per-slot activity flag, a
//! per-bucket target flag, and a per-registry-slot occupancy flag gate the
//! accumulated result instead of the loop bounds, so neither the count nor
//! the assigned buckets leak through the execution shape.

use vstd::prelude::*;

use crate::model::count_true;
use crate::model::lemma_count_true_push;
use crate::model::match_flag;
use crate::model::match_flags;
use crate::registry::bucket_index;
use crate::select::oblivious_add_u64;
use crate::select::oblivious_and;
use crate::select::oblivious_or;
use crate::types::ClientContacts;
use crate::types::GlobalRegistry;
use crate::types::MatchResult;
use crate::types::PsiError;

verus! {

/// Match a client batch against the registry. Each active batch slot is
/// flagged exactly when its fingerprint is registered (stored in an occupied
/// slot of its assigned bucket); padding slots are never flagged, whatever
/// they hold. A batch that declares more active contacts than it has slots is
/// rejected before the oblivious scan runs — a public shape check.
pub fn intersect_contacts(client_contacts: &ClientContacts, registry: &GlobalRegistry) -> (r:
    Result<MatchResult, PsiError>)
    requires
        registry@.num_buckets() >= 1,
    ensures
        match r {
            Ok(m) => {
                &&& client_contacts@.wf()
                &&& m@.matched == match_flags(registry@, client_contacts@)
                &&& m@.match_count == count_true(match_flags(registry@, client_contacts@))
            },
            Err(e) => !client_contacts@.wf() && e == PsiError::MalformedBatch,
        },
{
    let max_contacts = client_contacts.hashes.len();
    if client_contacts.count > (max_contacts as u64) {
        return Err(PsiError::MalformedBatch);
    }

    let ghost reg0 = registry@;
    let ghost batch = client_contacts@;
    let num_buckets = registry.buckets.len();
    let mut matched: Vec<bool> = Vec::new();
    let mut match_count: u64 = 0;
    let mut i: usize = 0;
    while i < max_contacts
        invariant
            reg0 == registry@,
            batch == client_contacts@,
            num_buckets == reg0.buckets.len(),
            num_buckets >= 1,
            max_contacts == batch.hashes.len(),
            batch.count <= max_contacts,
            i <= max_contacts,
            matched@.len() == i,
            forall|k: int| 0 <= k < i ==> matched@[k] == match_flag(reg0, batch, k),
            match_count == count_true(matched@),
            match_count <= i,
        decreases max_contacts - i,
    {
        let active = (i as u64) < client_contacts.count;
        let contact_hash = client_contacts.hashes[i];
        let b_idx = bucket_index(contact_hash, num_buckets as u64);
        let ghost tb = reg0.target_bucket(contact_hash);

        let mut found = false;
        let mut b: usize = 0;
        while b < num_buckets
            invariant
                reg0 == registry@,
                num_buckets == reg0.buckets.len(),
                b <= num_buckets,
                b_idx == tb,
                tb == reg0.target_bucket(contact_hash),
                0 <= tb < num_buckets,
                found == (tb < b && reg0.buckets[tb].contains(contact_hash)),
            decreases num_buckets - b,
        {
            let bucket = &registry.buckets[b];
            let is_target_bucket = (b as u64) == b_idx;
            let bucket_len = bucket.fingerprints.len();

            let mut j: usize = 0;
            while j < bucket_len
                invariant
                    reg0 == registry@,
                    num_buckets == reg0.buckets.len(),
                    0 <= b < num_buckets,
                    0 <= tb < num_buckets,
                    bucket_len == bucket.fingerprints@.len(),
                    bucket@ == reg0.buckets[b as int],
                    is_target_bucket == (b as int == tb),
                    j <= bucket_len,
                    found == ((tb < b && reg0.buckets[tb].contains(contact_hash)) || (
                    is_target_bucket && reg0.buckets[b as int].contains_below(
                        contact_hash,
                        j as int,
                    ))),
                decreases bucket_len - j,
            {
                let slot_active = (j as u64) < bucket.count;
                let eq = contact_hash == bucket.fingerprints[j];
                let is_match = oblivious_and(oblivious_and(is_target_bucket, slot_active), eq);
                found = oblivious_or(found, is_match);
                proof {
                    if is_match {
                        assert(j < reg0.buckets[b as int].count);
                        assert(reg0.buckets[b as int].fingerprints[j as int] == contact_hash);
                        assert(reg0.buckets[b as int].contains_below(contact_hash, j + 1));
                    }
                }
                j += 1;
            }
            proof {
                if is_target_bucket {
                    assert(reg0.buckets[b as int].contains_below(contact_hash, bucket_len as int)
                        == reg0.buckets[b as int].contains(contact_hash));
                }
            }
            b += 1;
        }

        let matched_flag = oblivious_and(active, found);
        let ghost flags_so_far = matched@;
        matched.push(matched_flag);
        proof {
            assert(matched_flag == match_flag(reg0, batch, i as int));
            lemma_count_true_push(flags_so_far, matched_flag);
        }
        match_count = oblivious_add_u64(match_count, matched_flag);
        i += 1;
    }
    proof {
        assert(matched@ =~= match_flags(reg0, batch));
    }
    Ok(MatchResult { matched, match_count })
}

} // verus!
