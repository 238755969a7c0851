//! The message chunker: a single-pass cursor that turns a byte slice into
//! its sequence of 8-byte little-endian message words, ending with the
//! always-present padded word.

use vstd::prelude::*;

use crate::model::{spec_le64, spec_message_words, spec_pad_bytes};

verus! {

/// The unsigned 64-bit value of an 8-byte slice read little-endian.
pub fn slice_to_u64(s: &[u8]) -> (r: u64)
    requires
        s@.len() == 8,
    ensures
        r == spec_le64(s@),
{
    (s[0] as u64) + (s[1] as u64) * 0x100 + (s[2] as u64) * 0x1_0000 + (s[3] as u64) * 0x100_0000
        + (s[4] as u64) * 0x1_0000_0000 + (s[5] as u64) * 0x100_0000_0000 + (s[6] as u64)
        * 0x1_0000_0000_0000 + (s[7] as u64) * 0x100_0000_0000_0000
}

/// A cursor over the message words of a byte slice.  It emits one word per
/// full eight-byte group, in order, then exactly one padded word, then
/// nothing.
pub struct MessageChunk<'a> {
    pub msg: &'a [u8],
    pub pos: usize,
    pub done: bool,
}

impl<'a> MessageChunk<'a> {
    /// The complete word sequence this cursor emits.
    pub open spec fn words(self) -> Seq<u64> {
        spec_message_words(self.msg@)
    }

    /// How many words have been emitted so far.
    pub open spec fn emitted(self) -> nat {
        if self.done {
            self.words().len()
        } else {
            (self.pos / 8) as nat
        }
    }

    /// The cursor sits on an eight-byte boundary within the full groups,
    /// and is exhausted only after the padded word went out.
    pub open spec fn wf(self) -> bool {
        &&& self.pos % 8 == 0
        &&& self.pos <= 8 * (self.msg@.len() / 8)
        &&& (self.done ==> self.pos == 8 * (self.msg@.len() / 8))
    }

    /// A fresh cursor over `msg`, with no word emitted yet.
    pub fn new(msg: &'a [u8]) -> (it: Self)
        ensures
            it.wf(),
            it.msg@ == msg@,
            it.emitted() == 0,
    {
        MessageChunk { msg, pos: 0, done: false }
    }

    /// The next message word: the `emitted()`-th element of `words()`, or
    /// `None` once all words are out.
    pub fn next(&mut self) -> (r: Option<u64>)
        requires
            old(self).wf(),
        ensures
            final(self).wf(),
            final(self).msg == old(self).msg,
            old(self).emitted() < old(self).words().len() ==> {
                &&& r == Some(old(self).words()[old(self).emitted() as int])
                &&& final(self).emitted() == old(self).emitted() + 1
            },
            old(self).emitted() >= old(self).words().len() ==> {
                &&& r is None
                &&& *final(self) == *old(self)
            },
    {
        let len = self.msg.len();
        let cut = (len / 8) * 8;
        if self.done {
            None
        } else if self.pos < cut {
            let ghost k = self.pos as int / 8;
            let w = slice_to_u64(&self.msg[self.pos..self.pos + 8]);
            proof {
                assert(self.msg@.take(cut as int).subrange(8 * k, 8 * k + 8) =~= self.msg@.subrange(
                    self.pos as int,
                    self.pos as int + 8,
                ));
                assert(self.words()[k] == spec_le64(
                    self.msg@.subrange(self.pos as int, self.pos as int + 8),
                ));
            }
            self.pos = self.pos + 8;
            Some(w)
        } else {
            let mut last: [u8; 8] = [0; 8];
            let rem = len - cut;
            for j in 0..rem
                invariant
                    rem == len - cut,
                    cut == self.pos,
                    self.msg@.len() == len,
                    rem < 8,
                    forall|i: int| 0 <= i < j ==> last@[i] == self.msg@[cut + i],
                    forall|i: int| j <= i < 8 ==> last@[i] == 0,
            {
                last[j] = self.msg[cut + j];
            }
            last[7] = (len % 256) as u8;
            proof {
                assert(last@ =~= spec_pad_bytes(self.msg@.skip(cut as int), self.msg@.len()));
                assert(self.words()[cut as int / 8] == spec_le64(
                    spec_pad_bytes(self.msg@.skip(cut as int), self.msg@.len()),
                ));
            }
            let w = slice_to_u64(last.as_slice());
            self.done = true;
            Some(w)
        }
    }
}

} // verus!
