//! Typesafe construction, signing and finalization of the transactions of a
//! multi-party vault custody protocol: funds move from a deposit (vault)
//! output through an unvaulting step, and from there are either spent,
//! cancelled back to a vault, or swept to an emergency destination, each step
//! co-signed by a quorum of participants and optionally fee-bumped.

pub mod bytes;
pub mod decode;
pub mod encode;
pub mod error;
pub mod hashes;
pub mod laws;
pub mod policy;
pub mod record;
pub mod satisfier;
pub mod script;
pub mod sighash;
pub mod sigmap;
pub mod skeleton;
pub mod transactions;
pub mod txins;
pub mod txouts;

use vstd::prelude::*;

verus! {

/// Sequence number making a transaction replaceable by fee.
pub const RBF_SEQUENCE: u32 = 0xFFFF_FFFD;

} // verus!
