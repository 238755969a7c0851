//! The round engine and algorithm state: the four 64-bit lanes, one
//! SipRound, per-word compression, and finalization.

use vstd::prelude::*;

use crate::model::{
    spec_compress, spec_final_lanes, spec_finalize, spec_init, spec_rotl, spec_round,
    spec_rounds, Lanes,
};
use crate::model::lemma_rounds_succ;

verus! {

/// Rotation of a 64-bit word left by `n` bits.
fn rotl(x: u64, n: u64) -> (r: u64)
    requires
        0 < n < 64,
    ensures
        r == spec_rotl(x, n),
{
    (x << n) | (x >> (64 - n))
}

/// The internal state of a SipHash-c-d computation: four 64-bit lanes,
/// mixed by `C` rounds per compressed word and `D` rounds per
/// finalization pass.
#[derive(Copy, Clone)]
pub struct State<const C: u8, const D: u8> {
    pub v0: u64,
    pub v1: u64,
    pub v2: u64,
    pub v3: u64,
}

impl<const C: u8, const D: u8> View for State<C, D> {
    type V = Lanes;

    open spec fn view(&self) -> Lanes {
        (self.v0, self.v1, self.v2, self.v3)
    }
}

impl<const C: u8, const D: u8> State<C, D> {
    /// Initialization from the two key halves, via the four fixed XOR
    /// constants.
    pub fn new(k0: u64, k1: u64) -> (s: Self)
        ensures
            s@ == spec_init(k0, k1),
    {
        State {
            v0: k0 ^ 0x736f6d6570736575,
            v1: k1 ^ 0x646f72616e646f6d,
            v2: k0 ^ 0x6c7967656e657261,
            v3: k1 ^ 0x7465646279746573,
        }
    }

    /// One SipRound: the fixed sequence of fourteen add, rotate and XOR
    /// operations over the lanes.
    fn sip_round(&mut self)
        ensures
            final(self)@ == spec_round(old(self)@),
    {
        self.v0 = self.v0.wrapping_add(self.v1);
        self.v2 = self.v2.wrapping_add(self.v3);
        self.v1 = rotl(self.v1, 13);
        self.v3 = rotl(self.v3, 16);
        self.v1 = self.v1 ^ self.v0;
        self.v3 = self.v3 ^ self.v2;

        self.v0 = rotl(self.v0, 32);

        self.v2 = self.v2.wrapping_add(self.v1);
        self.v0 = self.v0.wrapping_add(self.v3);
        self.v1 = rotl(self.v1, 17);
        self.v3 = rotl(self.v3, 21);
        self.v1 = self.v1 ^ self.v2;
        self.v3 = self.v3 ^ self.v0;

        self.v2 = rotl(self.v2, 32);
    }

    /// `n` successive SipRounds.
    fn rounds(&mut self, n: u8)
        ensures
            final(self)@ == spec_rounds(old(self)@, n as nat),
    {
        for i in 0..n
            invariant
                self@ == spec_rounds(old(self)@, i as nat),
        {
            proof {
                lemma_rounds_succ(old(self)@, i as nat);
            }
            self.sip_round();
        }
    }

    /// Compression of one message word `m_i`: XOR into lane 3, `C`
    /// rounds, XOR into lane 0.
    pub fn compress_chunk(&mut self, m_i: u64)
        ensures
            final(self)@ == spec_compress(old(self)@, m_i, C as nat),
    {
        self.v3 = self.v3 ^ m_i;
        self.rounds(C);
        self.v0 = self.v0 ^ m_i;
    }

    /// One finalization pass: XOR the constant `u` into lane `i`, apply
    /// `D` rounds, and return the XOR of the four lanes.
    pub fn finalization(&mut self, i: usize, u: u64) -> (r: u64)
        requires
            i == 1 || i == 2,
        ensures
            final(self)@ == spec_final_lanes(old(self)@, i as int, u, D as nat),
            r == spec_finalize(old(self)@, i as int, u, D as nat),
    {
        if i == 1 {
            self.v1 = self.v1 ^ u;
        } else {
            self.v2 = self.v2 ^ u;
        }
        self.rounds(D);
        self.v0 ^ self.v1 ^ self.v2 ^ self.v3
    }

    /// The extra step of the 128-bit output mode, applied once between
    /// initialization and the first compression: XOR 0xEE into lane 1.
    pub fn hash128_additional(&mut self)
        ensures
            final(self)@ == (old(self)@.0, old(self)@.1 ^ 0xEE, old(self)@.2, old(self)@.3),
    {
        self.v1 = self.v1 ^ 0xEE;
    }
}

} // verus!
