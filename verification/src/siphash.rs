//! The hashing façade: one-shot SipHash-c-d computation over a whole
//! message, in the 64-bit and the 128-bit output modes.

use core::marker::PhantomData;

use vstd::prelude::*;

use crate::iter::MessageChunk;
use crate::model::{
    lemma_compress_seq_push, spec_compress_seq, spec_siphash128, spec_siphash64,
    spec_stream_init, spec_stream_wf, StreamView,
};
use crate::residue::Residue;
use crate::siphashkey::SipHashKey;
use crate::state::State;

verus! {

/// Selects the 64-bit output mode.
pub struct Hash64;

/// Selects the 128-bit output mode.
pub struct Hash128;

/// A SipHash-c-d computation: the lane state plus the residue buffer of
/// the incremental interface.  The output width is fixed by the marker
/// type `T` at construction.
pub struct SipHash<const C: u8, const D: u8, T> {
    pub state: State<C, D>,
    pub residue: Residue,
    pub output: PhantomData<T>,
}

impl<const C: u8, const D: u8, T> View for SipHash<C, D, T> {
    type V = StreamView;

    open spec fn view(&self) -> StreamView {
        StreamView {
            lanes: self.state@,
            residue: self.residue.bytes(),
            total: self.residue.total_length as nat,
        }
    }
}

impl<const C: u8, const D: u8, T> SipHash<C, D, T> {
    /// The residue buffer is well formed and holds fewer than eight bytes.
    pub open spec fn wf(self) -> bool {
        &&& self.residue.wf()
        &&& self.residue.length < 8
    }

    /// A fresh computation under `key`: initial lanes, empty residue.
    pub fn new(key: SipHashKey) -> (r: Self)
        ensures
            r.wf(),
            r@ == spec_stream_init(key.0, key.1),
    {
        let r = SipHash { state: State::new(key.0, key.1), residue: Residue::new(), output: PhantomData };
        proof {
            assert(r@ =~= spec_stream_init(key.0, key.1));
        }
        r
    }

    /// Compresses every message word of `msg` — all full eight-byte
    /// groups, then the padded final word — into the lane state.  The
    /// residue buffer plays no part in the one-shot path.
    fn compression(&mut self, msg: &[u8])
        ensures
            final(self).state@ == spec_compress_seq(
                old(self).state@,
                crate::model::spec_message_words(msg@),
                C as nat,
            ),
            final(self).residue == old(self).residue,
    {
        let ghost s0 = self.state@;
        let ghost words = crate::model::spec_message_words(msg@);
        let mut it = MessageChunk::new(msg);
        loop
            invariant
                it.wf(),
                it.msg@ == msg@,
                it.emitted() <= words.len(),
                words == it.words(),
                self.state@ == spec_compress_seq(s0, words.take(it.emitted() as int), C as nat),
                self.residue == old(self).residue,
            ensures
                it.emitted() == words.len(),
                self.state@ == spec_compress_seq(s0, words.take(it.emitted() as int), C as nat),
                self.residue == old(self).residue,
            decreases words.len() - it.emitted(),
        {
            let ghost k = it.emitted();
            match it.next() {
                Some(m_i) => {
                    proof {
                        lemma_compress_seq_push(s0, words.take(k as int), words[k as int], C as nat);
                        assert(words.take(k as int).push(words[k as int]) =~= words.take(
                            k as int + 1,
                        ));
                    }
                    self.state.compress_chunk(m_i);
                }
                None => {
                    break;
                }
            }
        }
        proof {
            assert(words.take(words.len() as int) =~= words);
        }
    }
}

impl<const C: u8, const D: u8> SipHash<C, D, Hash64> {
    /// The SipHash-c-d 64-bit digest of `msg` under `key`: compression of
    /// every message word, then one finalization pass with constant 0xFF
    /// on lane 2.
    pub fn with_key(key: SipHashKey, msg: &[u8]) -> (r: u64)
        ensures
            r == spec_siphash64(key.0, key.1, msg@, C as nat, D as nat),
    {
        let mut siphash = SipHash::<C, D, Hash64>::new(key);
        siphash.compression(msg);
        siphash.state.finalization(2, 0xFF)
    }
}

impl<const C: u8, const D: u8> SipHash<C, D, Hash128> {
    /// The SipHash-c-d 128-bit digest of `msg` under `key`: lane 1 takes
    /// the extra 0xEE XOR before compression, and two sequential
    /// finalization passes over one shared lane vector give the low and
    /// the high 64 bits.
    pub fn with_key(key: SipHashKey, msg: &[u8]) -> (r: u128)
        ensures
            r == spec_siphash128(key.0, key.1, msg@, C as nat, D as nat),
    {
        let mut siphash = SipHash::<C, D, Hash128>::new(key);

        siphash.state.hash128_additional();

        siphash.compression(msg);

        let u0 = siphash.state.finalization(2, 0xEE) as u128;
        let u1 = siphash.state.finalization(1, 0xDD) as u128;

        (u1 << 64) | u0
    }
}

/// The `siphash_2_4` 64-bit hash computation.
pub type SipHash24 = SipHash<2, 4, Hash64>;

/// The `siphash_4_8` 64-bit hash computation.
pub type SipHash48 = SipHash<4, 8, Hash64>;

} // verus!
