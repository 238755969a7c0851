//! The mathematical model of SipHash-c-d: the lane vector, the round
//! function, little-endian word assembly, the padding scheme, and the
//! complete 64-bit and 128-bit digests as functions of key and message.
//!
//! Every executable function of the crate is specified against these
//! definitions.

use vstd::prelude::*;

verus! {

/// The four 64-bit lanes `(v0, v1, v2, v3)` that form the algorithm state.
pub type Lanes = (u64, u64, u64, u64);

/// Addition modulo 2^64, the `+` of the ARX network.
pub open spec fn spec_wadd(x: u64, y: u64) -> u64 {
    if x + y > u64::MAX {
        (x + y - 0x1_0000_0000_0000_0000) as u64
    } else {
        (x + y) as u64
    }
}

/// Rotation of a 64-bit word left by `n` bits, for `0 < n < 64`.
pub open spec fn spec_rotl(x: u64, n: u64) -> u64
    recommends
        0 < n < 64,
{
    (x << n) | (x >> ((64 - n) as u64))
}

/// One SipRound: the fixed add-rotate-xor mixing step over the four lanes.
pub open spec fn spec_round(v: Lanes) -> Lanes {
    let v0 = spec_wadd(v.0, v.1);
    let v2 = spec_wadd(v.2, v.3);
    let v1 = spec_rotl(v.1, 13) ^ v0;
    let v3 = spec_rotl(v.3, 16) ^ v2;
    let v0 = spec_rotl(v0, 32);
    let v2 = spec_wadd(v2, v1);
    let v0 = spec_wadd(v0, v3);
    let v1 = spec_rotl(v1, 17) ^ v2;
    let v3 = spec_rotl(v3, 21) ^ v0;
    let v2 = spec_rotl(v2, 32);
    (v0, v1, v2, v3)
}

/// `n` successive applications of [`spec_round`].
pub open spec fn spec_rounds(v: Lanes, n: nat) -> Lanes
    decreases n,
{
    if n == 0 {
        v
    } else {
        spec_rounds(spec_round(v), (n - 1) as nat)
    }
}

/// Applying one more round after `n` rounds is the same as applying the
/// round function to the result of `n` rounds.
pub proof fn lemma_rounds_succ(v: Lanes, n: nat)
    ensures
        spec_rounds(v, n + 1) == spec_round(spec_rounds(v, n)),
    decreases n,
{
    if n == 0 {
        assert(spec_rounds(v, 1) == spec_rounds(spec_round(v), 0));
    } else {
        lemma_rounds_succ(spec_round(v), (n - 1) as nat);
        assert(spec_rounds(v, n + 1) == spec_rounds(spec_round(v), n));
    }
}

/// The initial lanes: the two key halves XORed with the four fixed constants.
pub open spec fn spec_init(k0: u64, k1: u64) -> Lanes {
    (
        k0 ^ 0x736f6d6570736575,
        k1 ^ 0x646f72616e646f6d,
        k0 ^ 0x6c7967656e657261,
        k1 ^ 0x7465646279746573,
    )
}

/// Compression of one message word: XOR into lane 3, `c` rounds, XOR into
/// lane 0.
pub open spec fn spec_compress(v: Lanes, m: u64, c: nat) -> Lanes {
    let w = spec_rounds((v.0, v.1, v.2, v.3 ^ m), c);
    (w.0 ^ m, w.1, w.2, w.3)
}

/// Compression of a sequence of message words, in order.
pub open spec fn spec_compress_seq(v: Lanes, ws: Seq<u64>, c: nat) -> Lanes
    decreases ws.len(),
{
    if ws.len() == 0 {
        v
    } else {
        spec_compress_seq(spec_compress(v, ws[0], c), ws.drop_first(), c)
    }
}

/// XOR of the constant `u` into lane `i`, the injection point of
/// finalization; `i` is 1 or 2.
pub open spec fn spec_xor_lane(v: Lanes, i: int, u: u64) -> Lanes
    recommends
        i == 1 || i == 2,
{
    if i == 1 {
        (v.0, v.1 ^ u, v.2, v.3)
    } else {
        (v.0, v.1, v.2 ^ u, v.3)
    }
}

/// The lanes after one finalization pass: inject `u` into lane `i`, then
/// apply `d` rounds.
pub open spec fn spec_final_lanes(v: Lanes, i: int, u: u64, d: nat) -> Lanes {
    spec_rounds(spec_xor_lane(v, i, u), d)
}

/// The 64-bit value a finalization pass returns: the XOR of the four lanes
/// after the pass.
pub open spec fn spec_finalize(v: Lanes, i: int, u: u64, d: nat) -> u64 {
    let w = spec_final_lanes(v, i, u, d);
    w.0 ^ w.1 ^ w.2 ^ w.3
}

/// The unsigned 64-bit value of eight bytes read little-endian.
pub open spec fn spec_le64(s: Seq<u8>) -> u64
    recommends
        s.len() == 8,
{
    (s[0] + s[1] * 0x100 + s[2] * 0x1_0000 + s[3] * 0x100_0000 + s[4] * 0x1_0000_0000
        + s[5] * 0x100_0000_0000 + s[6] * 0x1_0000_0000_0000 + s[7]
        * 0x100_0000_0000_0000) as u64
}

/// The eight bytes of a 64-bit value, least significant first.
pub open spec fn spec_le_bytes(x: u64) -> Seq<u8> {
    seq![
        x as u8,
        (x >> 8) as u8,
        (x >> 16) as u8,
        (x >> 24) as u8,
        (x >> 32) as u8,
        (x >> 40) as u8,
        (x >> 48) as u8,
        (x >> 56) as u8,
    ]
}

/// The little-endian words of a byte sequence whose length is a multiple
/// of eight.
pub open spec fn spec_le_words(s: Seq<u8>) -> Seq<u64>
    recommends
        s.len() % 8 == 0,
{
    Seq::new(s.len() / 8, |i: int| spec_le64(s.subrange(8 * i, 8 * i + 8)))
}

/// The padded final block: the 0 to 7 residue bytes left-aligned into an
/// eight-byte zero buffer, with byte index 7 overwritten by the total
/// message length modulo 256.
pub open spec fn spec_pad_bytes(residue: Seq<u8>, total: nat) -> Seq<u8>
    recommends
        residue.len() < 8,
{
    Seq::new(
        8,
        |i: int|
            if i == 7 {
                (total % 256) as u8
            } else if i < residue.len() {
                residue[i]
            } else {
                0u8
            },
    )
}

/// The complete word sequence of a message: one word per full eight-byte
/// group, then always exactly one padded word.
pub open spec fn spec_message_words(msg: Seq<u8>) -> Seq<u64> {
    let cut = 8 * (msg.len() / 8);
    spec_le_words(msg.take(cut as int)).push(
        spec_le64(spec_pad_bytes(msg.skip(cut as int), msg.len())),
    )
}

/// Compressing a concatenation of word sequences is compressing the first,
/// then the second, from the resulting lanes.
pub proof fn lemma_compress_seq_append(v: Lanes, w1: Seq<u64>, w2: Seq<u64>, c: nat)
    ensures
        spec_compress_seq(v, w1 + w2, c) == spec_compress_seq(spec_compress_seq(v, w1, c), w2, c),
    decreases w1.len(),
{
    if w1.len() == 0 {
        assert(w1 + w2 =~= w2);
    } else {
        assert((w1 + w2)[0] == w1[0]);
        assert((w1 + w2).drop_first() =~= w1.drop_first() + w2);
        lemma_compress_seq_append(spec_compress(v, w1[0], c), w1.drop_first(), w2, c);
    }
}

/// Compressing one more word after a sequence is one compression step from
/// the lanes the sequence left.
pub proof fn lemma_compress_seq_push(v: Lanes, ws: Seq<u64>, w: u64, c: nat)
    ensures
        spec_compress_seq(v, ws.push(w), c) == spec_compress(spec_compress_seq(v, ws, c), w, c),
{
    let single = seq![w];
    assert(ws.push(w) =~= ws + single);
    lemma_compress_seq_append(v, ws, single, c);
    let x = spec_compress_seq(v, ws, c);
    assert(single.drop_first() =~= Seq::<u64>::empty());
    assert(spec_compress_seq(spec_compress(x, single[0], c), single.drop_first(), c)
        == spec_compress(x, w, c));
}

/// The words of a concatenation whose first part is eight-byte aligned are
/// the words of the first part followed by the words of the second.
pub proof fn lemma_le_words_append(x: Seq<u8>, y: Seq<u8>)
    requires
        x.len() % 8 == 0,
    ensures
        spec_le_words(x + y) == spec_le_words(x) + spec_le_words(y),
{
    let lhs = spec_le_words(x + y);
    let rhs = spec_le_words(x) + spec_le_words(y);
    let a = x.len() / 8;
    assert((x + y).len() / 8 == a + y.len() / 8) by {
        assert((x + y).len() == 8 * a + y.len());
    }
    assert forall|i: int| 0 <= i < lhs.len() implies lhs[i] == rhs[i] by {
        if i < a {
            assert((x + y).subrange(8 * i, 8 * i + 8) =~= x.subrange(8 * i, 8 * i + 8));
        } else {
            assert((x + y).subrange(8 * i, 8 * i + 8) =~= y.subrange(
                8 * (i - a),
                8 * (i - a) + 8,
            ));
        }
    }
    assert(lhs =~= rhs);
}

/// Taking one more eight-byte group adds exactly its word at the end.
pub proof fn lemma_le_words_take_succ(s: Seq<u8>, k: nat)
    requires
        8 * (k + 1) <= s.len(),
    ensures
        spec_le_words(s.take(8 * (k + 1) as int)) == spec_le_words(s.take(8 * k as int)).push(
            spec_le64(s.subrange(8 * k as int, 8 * k as int + 8)),
        ),
    decreases k,
{
    let x = s.take(8 * k as int);
    let g = s.subrange(8 * k as int, 8 * k as int + 8);
    assert(s.take(8 * (k + 1) as int) =~= x + g);
    lemma_le_words_append(x, g);
    assert(g.subrange(0, 8) =~= g);
    assert(spec_le_words(g) =~= seq![spec_le64(g)]);
    assert(spec_le_words(x) + seq![spec_le64(g)] =~= spec_le_words(x).push(spec_le64(g)));
}

/// The state of an incremental hashing stream: the current lanes, the
/// buffered residue bytes, and the total byte count received so far.
#[verifier::ext_equal]
pub ghost struct StreamView {
    pub lanes: Lanes,
    pub residue: Seq<u8>,
    pub total: nat,
}

/// A stream is well formed when fewer than eight bytes are buffered.
pub open spec fn spec_stream_wf(v: StreamView) -> bool {
    v.residue.len() < 8
}

/// A fresh stream under the key halves `k0`, `k1`: initial lanes, nothing
/// buffered, nothing counted.
pub open spec fn spec_stream_init(k0: u64, k1: u64) -> StreamView {
    StreamView { lanes: spec_init(k0, k1), residue: Seq::empty(), total: 0 }
}

/// Feeding bytes to a stream: every full eight-byte group of the residue
/// followed by the new bytes is compressed, the rest stays buffered, and
/// the total grows by the number of bytes fed.
pub open spec fn spec_feed(v: StreamView, bytes: Seq<u8>, c: nat) -> StreamView {
    let all = v.residue + bytes;
    let cut = 8 * (all.len() / 8);
    StreamView {
        lanes: spec_compress_seq(v.lanes, spec_le_words(all.take(cut as int)), c),
        residue: all.skip(cut as int),
        total: v.total + bytes.len(),
    }
}

/// The 64-bit digest a stream yields when finished now: the residue padded
/// with the total length is compressed as the final word, then one
/// finalization pass runs.  The stream itself is left untouched.
pub open spec fn spec_finish64(v: StreamView, c: nat, d: nat) -> u64 {
    spec_finalize(
        spec_compress(v.lanes, spec_le64(spec_pad_bytes(v.residue, v.total)), c),
        2,
        0xFF,
        d,
    )
}

/// The SipHash-c-d 64-bit digest of `msg` under the key halves `k0`, `k1`.
pub open spec fn spec_siphash64(k0: u64, k1: u64, msg: Seq<u8>, c: nat, d: nat) -> u64 {
    spec_finalize(
        spec_compress_seq(spec_init(k0, k1), spec_message_words(msg), c),
        2,
        0xFF,
        d,
    )
}

/// The SipHash-c-d 128-bit digest: lane 1 is additionally XORed with 0xEE
/// before compression, and two sequential finalization passes over one
/// shared lane vector give the low and high halves.
pub open spec fn spec_siphash128(k0: u64, k1: u64, msg: Seq<u8>, c: nat, d: nat) -> u128 {
    let v = spec_init(k0, k1);
    let v = (v.0, v.1 ^ 0xEE, v.2, v.3);
    let v = spec_compress_seq(v, spec_message_words(msg), c);
    let low = spec_finalize(v, 2, 0xEE, d);
    let high = spec_finalize(spec_final_lanes(v, 2, 0xEE, d), 1, 0xDD, d);
    ((high as u128) << 64) | (low as u128)
}

} // verus!
