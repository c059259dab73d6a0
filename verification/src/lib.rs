//! Privacy-preserving set intersection over a bucketed fingerprint registry.
//!
//! A client's hashed contact identifiers (128-bit fingerprints) are matched
//! against a shared global registry. The matching engine is *oblivious*: every
//! operation runs over a fixed iteration shape, independent of the secret
//! values, so that no comparison result ever changes control flow, loop
//! bounds, or memory-access patterns. Secret-dependent choices are expressed
//! as data operations (selects and flag arithmetic), never as branches.
//!
//! The library is the algorithmic core alone: it consumes and produces plain
//! typed values. Encryption, secret sharing, ledger storage and transport
//! belong to the surrounding layers.

pub mod insert;
pub mod intersect;
pub mod laws;
pub mod model;
pub mod registry;
pub mod select;
pub mod types;
