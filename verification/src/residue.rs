//! The residue buffer: at most seven not-yet-compressed message bytes plus
//! the running total of all bytes received, carried between incremental
//! feed calls.

use vstd::prelude::*;

verus! {

/// At most eight buffered message bytes (`data[..length]`), with the
/// cumulative byte count of every feed since construction.
pub struct Residue {
    pub length: usize,
    pub data: [u8; 8],
    pub total_length: usize,
}

impl Residue {
    /// The buffered bytes.
    pub open spec fn bytes(self) -> Seq<u8> {
        self.data@.take(self.length as int)
    }

    /// The fill offset never passes eight, and the slots beyond it stay
    /// zero, so the buffer is always ready to become a padded final block.
    pub open spec fn wf(self) -> bool {
        &&& self.length <= 8
        &&& forall|i: int| self.length <= i < 8 ==> self.data@[i] == 0
    }

    /// An empty residue with a zeroed buffer and a zero running total.
    pub fn new() -> (r: Self)
        ensures
            r.wf(),
            r.length == 0,
            r.total_length == 0,
            r.bytes() == Seq::<u8>::empty(),
    {
        let r = Residue { length: 0, data: [0; 8], total_length: 0 };
        proof {
            assert(r.bytes() =~= Seq::<u8>::empty());
        }
        r
    }

    /// Empties the buffer, keeping the running total.
    pub fn clear(&mut self)
        ensures
            final(self).wf(),
            final(self).length == 0,
            final(self).total_length == old(self).total_length,
            final(self).bytes() == Seq::<u8>::empty(),
    {
        self.length = 0;
        self.data = [0; 8];
        proof {
            assert(self.bytes() =~= Seq::<u8>::empty());
        }
    }

    /// Appends one byte at the current fill offset.
    pub fn push_byte(&mut self, x: u8)
        requires
            old(self).wf(),
            old(self).length < 8,
        ensures
            final(self).wf(),
            final(self).length == old(self).length + 1,
            final(self).total_length == old(self).total_length,
            final(self).bytes() == old(self).bytes().push(x),
    {
        self.data[self.length] = x;
        self.length = self.length + 1;
        proof {
            assert(self.bytes() =~= old(self).bytes().push(x));
        }
    }

    /// Copies bytes from the front of `bytes` into the buffer until it
    /// holds eight bytes or the input is exhausted; returns how many were
    /// consumed.
    pub fn push(&mut self, bytes: &[u8]) -> (consumed: usize)
        requires
            old(self).wf(),
        ensures
            final(self).wf(),
            final(self).total_length == old(self).total_length,
            final(self).length == old(self).length + consumed,
            final(self).bytes() == old(self).bytes() + bytes@.take(consumed as int),
            old(self).length + bytes@.len() >= 8 ==> final(self).length == 8,
            old(self).length + bytes@.len() < 8 ==> consumed == bytes@.len(),
    {
        let mut i: usize = 0;
        proof {
            assert(self.bytes() =~= old(self).bytes() + bytes@.take(0));
        }
        while self.length < 8 && i < bytes.len()
            invariant
                self.wf(),
                i <= bytes@.len(),
                self.total_length == old(self).total_length,
                self.length == old(self).length + i,
                self.bytes() == old(self).bytes() + bytes@.take(i as int),
            decreases bytes@.len() - i,
        {
            self.push_byte(bytes[i]);
            i = i + 1;
            proof {
                assert(self.bytes() =~= old(self).bytes() + bytes@.take(i as int));
            }
        }
        i
    }

    /// True exactly when the buffer holds eight bytes and must be
    /// compressed as one message word before more input is taken.
    pub fn is_full(&self) -> (b: bool)
        ensures
            b == (self.length == 8),
    {
        self.length == 8
    }
}

impl Default for Residue {
    /// An empty residue, as [`Residue::new`] builds it.
    fn default() -> (r: Self)
        ensures
            r.wf(),
            r.length == 0,
            r.total_length == 0,
            r.bytes() == Seq::<u8>::empty(),
    {
        Residue::new()
    }
}

} // verus!
