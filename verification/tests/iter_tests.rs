use siphash_c_d::iter::{slice_to_u64, MessageChunk};

#[test]
// 2 chunks: one full group and the padded word
fn test_iterator_1() {
    let msg: &[u8] = &[0, 1, 2, 3, 4, 5, 6, 7, 8, 9, 10, 11, 12, 13, 14];
    assert_eq!(msg.len(), 15);

    // first block
    let chunks = MessageChunk::new(&msg);
    let mut iter = chunks;

    let m1 = iter.next().unwrap();
    assert_eq!(m1, 0x0706050403020100);

    let m2 = iter.next().unwrap();
    assert_eq!(m2, 0x0f0e0d0c0b0a0908);

    assert!(iter.next().is_none());
}

#[test]
// 3 chunks
fn test_iterator_2() {
    let msg: &[u8] = &[0, 1, 2, 3, 4, 5, 6, 7, 8, 9, 10, 11, 12, 13, 14, 15];
    assert_eq!(msg.len(), 16);

    // first block
    let chunks = MessageChunk::new(&msg);
    let mut iter = chunks;

    let m1 = iter.next().unwrap();
    assert_eq!(m1, 0x0706050403020100);

    let m2 = iter.next().unwrap();
    assert_eq!(m2, 0x0f0e0d0c0b0a0908);

    let m3 = iter.next().unwrap();
    assert_eq!(m3, 0x1000000000000000);

    assert!(iter.next().is_none());
}

#[test]
// 1 chunk
fn test_iterator_3() {
    let msg: &[u8] = &[0xAF];
    assert_eq!(msg.len(), 1);

    // first block
    let chunks = MessageChunk::new(&msg);
    let mut iter = chunks;

    let m1 = iter.next().unwrap();
    assert_eq!(m1, 0x01000000000000AF);

    assert!(iter.next().is_none());
}

#[test]
fn test_empty_msg() {
    let msg: &[u8] = &[];

    // first block
    let chunks = MessageChunk::new(&msg);
    let mut iter = chunks;

    let m1 = iter.next().unwrap();
    assert_eq!(m1, 0);

    assert!(iter.next().is_none());
}

#[test]
fn test_slice_to_u64() {
    assert_eq!(slice_to_u64(&[0, 1, 2, 3, 4, 5, 6, 7]), 0x0706050403020100);
}

#[test]
// a message of length L always yields L / 8 + 1 words
fn test_word_count() {
    for len in [0usize, 1, 7, 8, 9, 15, 16, 17, 24] {
        let msg: Vec<u8> = (0..len as u8).collect();
        let mut iter = MessageChunk::new(&msg);
        let mut count: usize = 0;
        while iter.next().is_some() {
            count += 1;
        }
        assert_eq!(count, len / 8 + 1);
    }
}
