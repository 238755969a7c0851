//! A verified implementation of the SipHash-c-d keyed pseudorandom function
//! over byte strings, producing a 64-bit or 128-bit digest.
//!
//! The round counts `c` (compression) and `d` (finalization) are const
//! generic parameters; the canonical pairs are `c = 2, d = 4` and
//! `c = 4, d = 8`.  Both a one-shot interface ([`SipHash::with_key`]) and an
//! incremental feed/finish interface are provided, and the two are proved to
//! agree for every way of splitting a message across feed calls.

use vstd::prelude::*;

pub mod hasher;
pub mod iter;
pub mod laws;
pub mod model;
pub mod residue;
pub mod siphash;
pub mod siphashkey;
pub mod state;

pub use crate::siphash::SipHash;
pub use crate::siphash::SipHash24;
pub use crate::siphash::SipHash48;

pub use crate::siphash::Hash128;
pub use crate::siphash::Hash64;

pub use crate::siphashkey::SipHashKey;

verus! {

/// The error reported when key material is converted to the two 64-bit key
/// halves and fewer than 16 bytes are available.  Carries the actual number
/// of bytes received.
#[derive(Debug, PartialEq, Eq, Structural)]
pub enum SipError {
    KeyTooShort(usize),
}

} // verus!
