//! Conversion of user-supplied key material into the two 64-bit key
//! halves, the only fallible step of the library.

use vstd::prelude::*;

use crate::iter::slice_to_u64;
use crate::model::spec_le64;
use crate::SipError;

verus! {

/// The two 64-bit key halves `(k0, k1)`, the little-endian interpretation
/// of a 16-byte key.
#[derive(Debug, Copy, Clone)]
pub struct SipHashKey(pub u64, pub u64);

impl SipHashKey {
    /// The key halves taken directly as two 64-bit integers.
    pub fn from_pair(k0: u64, k1: u64) -> (r: Self)
        ensures
            r.0 == k0,
            r.1 == k1,
    {
        SipHashKey(k0, k1)
    }

    /// The key halves of a 128-bit integer: `k0` is the high half, `k1`
    /// the low half.
    pub fn from_u128(key: u128) -> (r: Self)
        ensures
            r.0 == (key >> 64) as u64,
            r.1 == ((key << 64) >> 64) as u64,
    {
        let k0 = (key >> 64) as u64;
        let k1 = ((key << 64) >> 64) as u64;
        SipHashKey(k0, k1)
    }

    /// The key halves of a 16-byte array, read little-endian.
    pub fn from_array(key: &[u8; 16]) -> (r: Self)
        ensures
            r.0 == spec_le64(key@.subrange(0, 8)),
            r.1 == spec_le64(key@.subrange(8, 16)),
    {
        let s = key.as_slice();
        SipHashKey(slice_to_u64(&s[0..8]), slice_to_u64(&s[8..16]))
    }

    /// The key halves of a byte slice, read little-endian from its first
    /// 16 bytes.  A slice of fewer than 16 bytes is rejected with
    /// `KeyTooShort` carrying the actual length; 16 or more bytes succeed,
    /// any beyond the first 16 ignored.
    pub fn from_slice(key: &[u8]) -> (r: Result<Self, SipError>)
        ensures
            key@.len() < 16 ==> r == Err::<SipHashKey, SipError>(
                SipError::KeyTooShort(key@.len() as usize),
            ),
            key@.len() >= 16 ==> {
                &&& r matches Ok(k)
                &&& k.0 == spec_le64(key@.subrange(0, 8))
                &&& k.1 == spec_le64(key@.subrange(8, 16))
            },
    {
        if key.len() < 16 {
            Err(SipError::KeyTooShort(key.len()))
        } else {
            Ok(SipHashKey(slice_to_u64(&key[0..8]), slice_to_u64(&key[8..16])))
        }
    }
}

} // verus!
