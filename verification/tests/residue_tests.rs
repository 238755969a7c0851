use siphash_c_d::residue::Residue;

#[test]
fn test_push_byte() {
    let mut r = Residue::default();
    r.push_byte(0xFF);

    assert_eq!(r.length, 1);
    assert_eq!(&r.data, &[0xFF, 0, 0, 0, 0, 0, 0, 0]);

    r.push_byte(0xFE);
    assert_eq!(r.length, 2);
    assert_eq!(&r.data, &[0xFF, 0xFE, 0, 0, 0, 0, 0, 0]);
}

#[test]
fn test_push() {
    let mut r = Residue::default();
    let msg = &[10_u8, 11, 12];

    r.push(msg);
    assert_eq!(r.length, 3);
    assert_eq!(&r.data, &[10, 11, 12, 0, 0, 0, 0, 0]);

    r.push(msg);
    assert_eq!(r.length, 6);
    assert_eq!(&r.data, &[10, 11, 12, 10, 11, 12, 0, 0]);

    r.push(msg);
    assert_eq!(r.length, 8);
    assert_eq!(&r.data, &[10, 11, 12, 10, 11, 12, 10, 11]);
}

#[test]
fn test_push_consumed_counts() {
    let mut r = Residue::default();
    assert_eq!(r.push(&[1, 2, 3, 4, 5]), 5);
    assert!(!r.is_full());
    assert_eq!(r.push(&[6, 7, 8, 9, 10]), 3);
    assert!(r.is_full());
    assert_eq!(r.push(&[11]), 0);
    assert_eq!(&r.data, &[1, 2, 3, 4, 5, 6, 7, 8]);
}
