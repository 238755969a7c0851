use siphash_c_d::siphash::{Hash64, SipHash, SipHash24, SipHash48};
use siphash_c_d::siphashkey::SipHashKey;

fn test_key() -> SipHashKey {
    SipHashKey::from_pair(0x0706050403020100, 0x0f0e0d0c0b0a0908)
}

#[test]
// feeding a message in pieces, for every split point, agrees with the
// one-shot digest
fn test_every_two_piece_split() {
    let msg: Vec<u8> = (0..23u8).collect();
    let one_shot = SipHash24::with_key(test_key(), &msg);

    for split in 0..=msg.len() {
        let mut h = SipHash24::new(test_key());
        h.write(&msg[..split]);
        h.write(&msg[split..]);
        assert_eq!(h.finish(), one_shot);
    }
}

#[test]
// one byte per feed call agrees with the one-shot digest
fn test_byte_by_byte() {
    let msg: Vec<u8> = (0..37u8).collect();
    let one_shot = SipHash24::with_key(test_key(), &msg);

    let mut h = SipHash24::new(test_key());
    for b in &msg {
        h.write(&[*b]);
    }
    assert_eq!(h.finish(), one_shot);
}

#[test]
// an immediate finish with no feed is the digest of the empty message
fn test_finish_without_feed() {
    let h = SipHash24::new(test_key());
    assert_eq!(h.finish(), SipHash24::with_key(test_key(), &[]));
}

#[test]
// finish is idempotent: two calls with no feed between them agree
fn test_finish_twice() {
    let mut h = SipHash24::new(test_key());
    h.write(&[1, 2, 3, 4, 5, 6, 7, 8, 9]);
    let first = h.finish();
    let second = h.finish();
    assert_eq!(first, second);
}

#[test]
// feeding after finish continues the stream as if finish had not happened
fn test_feed_after_finish() {
    let mut h = SipHash24::new(test_key());
    h.write(&[1, 2, 3]);
    let _ = h.finish();
    h.write(&[4, 5, 6, 7, 8, 9, 10]);
    assert_eq!(
        h.finish(),
        SipHash24::with_key(test_key(), &[1, 2, 3, 4, 5, 6, 7, 8, 9, 10])
    );
}

#[test]
// the splitting invariant holds for other round counts too
fn test_siphash48_stream() {
    let msg: Vec<u8> = (0..29u8).collect();
    let one_shot = SipHash48::with_key(test_key(), &msg);

    let mut h = SipHash48::new(test_key());
    h.write(&msg[..5]);
    h.write(&msg[5..20]);
    h.write(&msg[20..]);
    assert_eq!(h.finish(), one_shot);
}

#[test]
// empty feeds anywhere in the stream change nothing
fn test_empty_feeds() {
    let mut h = SipHash::<2, 4, Hash64>::new(test_key());
    h.write(&[]);
    h.write(&[10, 11, 12]);
    h.write(&[]);
    assert_eq!(h.finish(), SipHash24::with_key(test_key(), &[10, 11, 12]));
}
