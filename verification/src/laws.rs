//! The laws of the incremental interface, proved over the model: feeding a
//! message in any pieces agrees with feeding it whole, the stream agrees
//! with the one-shot digest, and every message compresses to exactly one
//! word more than its full eight-byte groups.

use vstd::prelude::*;

use crate::model::{
    lemma_compress_seq_append, lemma_compress_seq_push, lemma_le_words_append,
    spec_compress_seq, spec_feed, spec_finish64, spec_le_words, spec_message_words,
    spec_siphash64, spec_stream_init, spec_stream_wf, StreamView,
};

verus! {

/// Feeding an empty piece leaves a well-formed stream exactly as it was.
pub proof fn lemma_feed_empty(v: StreamView, c: nat)
    requires
        spec_stream_wf(v),
    ensures
        spec_feed(v, Seq::<u8>::empty(), c) == v,
{
    let all = v.residue + Seq::<u8>::empty();
    assert(all =~= v.residue);
    let cut = (8 * (all.len() / 8)) as int;
    assert(cut == 0);
    assert(all.take(0) =~= Seq::<u8>::empty());
    assert(spec_le_words(all.take(0)).len() == 0);
    assert(spec_compress_seq(v.lanes, spec_le_words(all.take(0)), c) == v.lanes) by {
        lemma_compress_seq_take_zero(v.lanes, spec_le_words(all.take(0)), c);
    }
    assert(all.skip(0) =~= v.residue);
    assert(spec_feed(v, Seq::<u8>::empty(), c) =~= v);
}

proof fn lemma_compress_seq_take_zero(lanes: crate::model::Lanes, ws: Seq<u64>, c: nat)
    requires
        ws.len() == 0,
    ensures
        spec_compress_seq(lanes, ws, c) == lanes,
{
}

/// Splitting invariant, step form: feeding `a` and then `b` leaves a
/// stream exactly as feeding the concatenation `a ++ b` at once does.
pub proof fn lemma_feed_append(v: StreamView, a: Seq<u8>, b: Seq<u8>, c: nat)
    ensures
        spec_feed(spec_feed(v, a, c), b, c) == spec_feed(v, a + b, c),
{
    let all1 = v.residue + a;
    let cut1 = (8 * (all1.len() / 8)) as int;
    let v1 = spec_feed(v, a, c);
    let all2 = v1.residue + b;
    let cut2 = (8 * (all2.len() / 8)) as int;
    let all = v.residue + (a + b);
    let cut = (8 * (all.len() / 8)) as int;

    assert(all =~= all1 + b);
    assert(v1.residue == all1.skip(cut1));
    assert(all1.skip(cut1).len() == all1.len() - cut1);

    assert(cut == cut1 + cut2) by {
        assert(all.len() == all1.len() + b.len());
        assert(all2.len() == (all1.len() - cut1) + b.len());
        assert(all1.len() == 8 * (all1.len() / 8) + all1.len() % 8);
        assert(all.len() == 8 * (all.len() / 8) + all.len() % 8);
        assert(all2.len() == 8 * (all2.len() / 8) + all2.len() % 8);
        assert(all.len() % 8 == all2.len() % 8) by (nonlinear_arith)
            requires
                all.len() == all1.len() + b.len(),
                all2.len() == (all1.len() - cut1) + b.len(),
                cut1 == 8 * (all1.len() / 8),
                all1.len() >= 0,
                b.len() >= 0,
        ;
    }

    assert(all.take(cut) =~= all1.take(cut1) + all2.take(cut2)) by {
        assert forall|i: int| 0 <= i < cut implies all.take(cut)[i] == (all1.take(cut1)
            + all2.take(cut2))[i] by {
            if i < cut1 {
                assert(all[i] == all1[i]);
            } else {
                assert((all1.take(cut1) + all2.take(cut2))[i] == all2[i - cut1]);
                if i - cut1 < all1.len() - cut1 {
                    assert(all2[i - cut1] == all1.skip(cut1)[i - cut1]);
                    assert(all1.skip(cut1)[i - cut1] == all1[i]);
                    assert(all[i] == all1[i]);
                } else {
                    assert(all2[i - cut1] == b[i - all1.len()]);
                    assert(all[i] == b[i - all1.len()]);
                }
            }
        }
    }

    lemma_le_words_append(all1.take(cut1), all2.take(cut2));
    lemma_compress_seq_append(
        v.lanes,
        spec_le_words(all1.take(cut1)),
        spec_le_words(all2.take(cut2)),
        c,
    );

    assert(all.skip(cut) =~= all2.skip(cut2)) by {
        assert forall|j: int| 0 <= j < all.len() - cut implies all.skip(cut)[j] == all2.skip(
            cut2,
        )[j] by {
            assert(all.skip(cut)[j] == all[cut + j]);
            assert(all2.skip(cut2)[j] == all2[cut2 + j]);
            if cut2 + j < all1.len() - cut1 {
                assert(all2[cut2 + j] == all1[cut1 + cut2 + j]);
                assert(all[cut + j] == all1[cut + j]);
            } else {
                assert(all2[cut2 + j] == b[cut2 + j - (all1.len() - cut1)]);
                assert(all[cut + j] == b[cut + j - all1.len()]);
            }
        }
    }

    assert(spec_feed(spec_feed(v, a, c), b, c) =~= spec_feed(v, a + b, c));
}

/// A stream fed piece by piece, in order.
pub open spec fn spec_feed_all(v: StreamView, pieces: Seq<Seq<u8>>, c: nat) -> StreamView
    decreases pieces.len(),
{
    if pieces.len() == 0 {
        v
    } else {
        spec_feed_all(spec_feed(v, pieces[0], c), pieces.drop_first(), c)
    }
}

/// Splitting invariant, general form: however a message is partitioned
/// into pieces, feeding the pieces one by one leaves a stream exactly as
/// feeding the whole message at once does.
pub proof fn lemma_feed_all_flatten(v: StreamView, pieces: Seq<Seq<u8>>, c: nat)
    requires
        spec_stream_wf(v),
    ensures
        spec_feed_all(v, pieces, c) == spec_feed(v, pieces.flatten(), c),
    decreases pieces.len(),
{
    if pieces.len() == 0 {
        lemma_feed_empty(v, c);
    } else {
        lemma_feed_wf(v, pieces[0], c);
        lemma_feed_all_flatten(spec_feed(v, pieces[0], c), pieces.drop_first(), c);
        lemma_feed_append(v, pieces[0], pieces.drop_first().flatten(), c);
    }
}

/// A fed stream is well formed: fewer than eight bytes stay buffered.
pub proof fn lemma_feed_wf(v: StreamView, bytes: Seq<u8>, c: nat)
    ensures
        spec_stream_wf(spec_feed(v, bytes, c)),
{
    let all = v.residue + bytes;
    let cut = (8 * (all.len() / 8)) as int;
    assert(cut <= all.len() && all.len() - cut < 8);
    assert(all.skip(cut).len() == all.len() - cut);
}

/// The incremental path agrees with the one-shot digest: feeding `msg` to
/// a fresh stream and finishing yields exactly the SipHash-c-d 64-bit
/// digest of `msg`.
pub proof fn lemma_stream_matches_one_shot(k0: u64, k1: u64, msg: Seq<u8>, c: nat, d: nat)
    ensures
        spec_finish64(spec_feed(spec_stream_init(k0, k1), msg, c), c, d) == spec_siphash64(
            k0,
            k1,
            msg,
            c,
            d,
        ),
{
    let v = spec_stream_init(k0, k1);
    let all = v.residue + msg;
    assert(all =~= msg);
    let cut = (8 * (msg.len() / 8)) as int;
    assert(all.take(cut) =~= msg.take(cut));
    assert(all.skip(cut) =~= msg.skip(cut));
    let pad = crate::model::spec_le64(crate::model::spec_pad_bytes(msg.skip(cut), msg.len()));
    lemma_compress_seq_push(v.lanes, spec_le_words(msg.take(cut)), pad, c);
}

/// Idempotent finish: the digest is a function of the stream alone, so
/// two digests read from the same stream with no feed between them are
/// identical, and the stream can be continued afterwards unchanged.
pub proof fn lemma_finish_idempotent(v: StreamView, r1: u64, r2: u64, c: nat, d: nat)
    requires
        r1 == spec_finish64(v, c, d),
        r2 == spec_finish64(v, c, d),
    ensures
        r1 == r2,
{
}

/// Padding invariant: a message of length `L` compresses to exactly
/// `L / 8 + 1` words — one per full eight-byte group and always one
/// padded word more.
pub proof fn lemma_message_word_count(msg: Seq<u8>)
    ensures
        spec_message_words(msg).len() == msg.len() / 8 + 1,
{
    let cut = (8 * (msg.len() / 8)) as int;
    assert(cut <= msg.len());
    assert(msg.take(cut).len() == cut);
}

} // verus!
