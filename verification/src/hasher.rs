//! The incremental interface in the 64-bit output mode: feed message
//! bytes in pieces of any size with `write`, read the digest at any point
//! with `finish`.  `finish` never disturbs the live state, so it can be
//! called repeatedly and the stream continued afterwards.

use vstd::prelude::*;

use crate::iter::slice_to_u64;
use crate::model::{
    lemma_compress_seq_push, lemma_le_words_take_succ, spec_compress_seq, spec_feed,
    spec_finish64, spec_le_bytes, spec_le_words, spec_pad_bytes,
};
use crate::siphash::{Hash64, SipHash};

verus! {

impl<const C: u8, const D: u8> SipHash<C, D, Hash64> {
    /// Feeds `bytes` to the stream: tops off the residue buffer, flushes
    /// it as one message word when it fills, compresses all following
    /// aligned eight-byte groups directly, and buffers the trailing
    /// remainder.  A no-op on empty input.
    pub fn write(&mut self, bytes: &[u8])
        requires
            old(self).wf(),
            old(self).residue.total_length + bytes@.len() <= usize::MAX,
        ensures
            final(self).wf(),
            final(self)@ == spec_feed(old(self)@, bytes@, C as nat),
    {
        let ghost v0 = old(self)@;
        let ghost all = v0.residue + bytes@;
        if bytes.len() == 0 {
            proof {
                assert(all =~= v0.residue);
                assert(all.take(0) =~= Seq::<u8>::empty());
                assert(spec_le_words(all.take(0)).len() == 0);
                assert(all.skip(0) =~= v0.residue);
                assert(self@ =~= spec_feed(v0, bytes@, C as nat));
            }
            return;
        }

        self.residue.total_length = self.residue.total_length + bytes.len();

        let added = self.residue.push(bytes);

        if self.residue.is_full() {
            let m_i = slice_to_u64(self.residue.data.as_slice());
            proof {
                assert(self.residue.bytes() =~= self.residue.data@);
                assert(self.residue.bytes() =~= all.take(8));
            }
            self.residue.clear();
            self.state.compress_chunk(m_i);
            proof {
                assert(all.take(0) =~= Seq::<u8>::empty());
                assert(spec_le_words(all.take(0)).len() == 0);
                assert(spec_compress_seq(v0.lanes, spec_le_words(all.take(0)), C as nat)
                    == v0.lanes);
                lemma_le_words_take_succ(all, 0);
                assert(all.subrange(0, 8) =~= all.take(8));
                lemma_compress_seq_push(v0.lanes, spec_le_words(all.take(0)), m_i, C as nat);
                assert(spec_le_words(all.take(0)).push(m_i) =~= spec_le_words(all.take(8)));
            }

            // all remaining fully aligned eight-byte groups, compressed
            // directly, bypassing the residue
            let n = (bytes.len() - added) / 8;
            for i in 0..n
                invariant
                    self.wf(),
                    self.residue.length == 0,
                    self.residue.bytes() =~= Seq::<u8>::empty(),
                    self.residue.total_length == v0.total + bytes@.len(),
                    added == 8 - v0.residue.len(),
                    v0.residue.len() < 8,
                    added <= bytes@.len(),
                    n == (bytes@.len() - added) / 8,
                    all == v0.residue + bytes@,
                    self.state@ == spec_compress_seq(
                        v0.lanes,
                        spec_le_words(all.take(8 + 8 * i)),
                        C as nat,
                    ),
            {
                let w = slice_to_u64(&bytes[added + 8 * i..added + 8 * i + 8]);
                proof {
                    assert(all.subrange(8 + 8 * i, 8 + 8 * i + 8) =~= bytes@.subrange(
                        added + 8 * i,
                        added + 8 * i + 8,
                    ));
                    lemma_le_words_take_succ(all, (1 + i) as nat);
                    lemma_compress_seq_push(
                        v0.lanes,
                        spec_le_words(all.take(8 + 8 * i)),
                        w,
                        C as nat,
                    );
                }
                self.state.compress_chunk(w);
            }

            // the trailing remainder, fewer than eight bytes, re-buffered
            let tail = added + 8 * n;
            let _ = self.residue.push(&bytes[tail..bytes.len()]);
            proof {
                let cut = (8 * (all.len() / 8)) as int;
                assert(all.len() == 8 + (bytes@.len() - added));
                assert(cut == 8 + 8 * n);
                assert(self.residue.bytes() =~= all.skip(cut));
                assert(self@ =~= spec_feed(v0, bytes@, C as nat));
            }
        } else {
            proof {
                let cut = (8 * (all.len() / 8)) as int;
                assert(all.len() < 8);
                assert(cut == 0);
                assert(all.take(0) =~= Seq::<u8>::empty());
                assert(spec_le_words(all.take(0)).len() == 0);
                assert(spec_compress_seq(v0.lanes, spec_le_words(all.take(0)), C as nat)
                    == v0.lanes);
                assert(self.residue.bytes() =~= all.skip(0));
                assert(self@ =~= spec_feed(v0, bytes@, C as nat));
            }
        }
    }

    /// The 64-bit digest of everything fed so far.  It works on a private
    /// copy of the lane state and only reads the residue, so repeated
    /// calls return the same digest and the stream can be continued.
    pub fn finish(&self) -> (r: u64)
        requires
            self.wf(),
        ensures
            r == spec_finish64(self@, C as nat, D as nat),
    {
        let mut state = self.state;

        let mut last_block: [u8; 8] = self.residue.data;
        last_block[7] = (self.residue.total_length % 256) as u8;
        proof {
            assert(last_block@ =~= spec_pad_bytes(
                self.residue.bytes(),
                self.residue.total_length as nat,
            ));
        }
        let m_i = slice_to_u64(last_block.as_slice());
        state.compress_chunk(m_i);

        state.finalization(2, 0xFF)
    }

    /// Feeds the eight bytes of `x`, least significant first.
    pub fn write_u64(&mut self, x: u64)
        requires
            old(self).wf(),
            old(self).residue.total_length + 8 <= usize::MAX,
        ensures
            final(self).wf(),
            final(self)@ == spec_feed(old(self)@, spec_le_bytes(x), C as nat),
    {
        let buf: [u8; 8] = [
            x as u8,
            (x >> 8) as u8,
            (x >> 16) as u8,
            (x >> 24) as u8,
            (x >> 32) as u8,
            (x >> 40) as u8,
            (x >> 48) as u8,
            (x >> 56) as u8,
        ];
        proof {
            assert(buf@ =~= spec_le_bytes(x));
        }
        self.write(buf.as_slice());
    }
}

} // verus!
