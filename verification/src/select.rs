//! Branch-free selection and flag arithmetic.
//!
//! The engine never branches on a secret-derived boolean. Wherever the
//! algorithm would act conditionally, it computes both alternatives and
//! combines them through these primitives, so the executed instruction
//! sequence is the same whatever the condition. In the multi-party
//! deployment the substrate performs the same combination on secret shares;
//! these functions are its plain-value counterpart, and they are the only
//! place where a selection condition is consumed.

use vstd::prelude::*;

verus! {

/// Select between two fingerprints as a data operation: the condition becomes
/// a 0/1 mask and both inputs enter the arithmetic unconditionally.
pub fn oblivious_select_u128(cond: bool, a: u128, b: u128) -> (r: u128)
    ensures
        r == if cond {
            a
        } else {
            b
        },
{
    let mask: u128 = cond as u128;
    proof {
        if cond {
            assert(a * mask == a && b * (1 - mask) == 0);
        } else {
            assert(a * mask == 0 && b * (1 - mask) == b);
        }
    }
    a * mask + b * (1 - mask)
}

/// Conjunction of two flags as a data operation: both flags become 0/1 words
/// and are multiplied, with no short-circuit evaluation.
pub fn oblivious_and(a: bool, b: bool) -> (r: bool)
    ensures
        r == (a && b),
{
    proof {
        if a {
            assert((1u8 * (b as u8) == 1) == b);
        } else {
            assert(0u8 * (b as u8) == 0);
        }
    }
    (a as u8) * (b as u8) == 1
}

/// Disjunction of two flags as a data operation: both flags become 0/1 words
/// and are added, with no short-circuit evaluation.
pub fn oblivious_or(a: bool, b: bool) -> (r: bool)
    ensures
        r == (a || b),
{
    (a as u8) + (b as u8) >= 1
}

/// Add a flag to a counter as a data operation: the condition becomes a 0/1
/// increment, so the addition happens whatever the condition.
pub fn oblivious_add_u64(x: u64, cond: bool) -> (r: u64)
    requires
        cond ==> x < u64::MAX,
    ensures
        r == x + if cond {
            1int
        } else {
            0int
        },
{
    x + cond as u64
}

} // verus!
