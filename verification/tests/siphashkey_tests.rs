use siphash_c_d::siphashkey::SipHashKey;
use siphash_c_d::SipError;

#[test]
fn test_from_tuple() {
    let s = SipHashKey::from_pair(0x0706050403020100, 0x0f0e0d0c0b0a0908);
    assert_eq!(s.0, 0x0706050403020100);
    assert_eq!(s.1, 0x0f0e0d0c0b0a0908);
}

#[test]
fn test_from_vec() {
    let key: Vec<_> = (0..=15_u8).collect();

    let s = SipHashKey::from_slice(&key).unwrap();
    assert_eq!(s.0, 0x0706050403020100);
    assert_eq!(s.1, 0x0f0e0d0c0b0a0908);
}

#[test]
fn test_from_slice() {
    let key = "\x00\x01\x02\x03\x04\x05\x06\x07\x08\x09\x0A\x0B\x0C\x0D\x0E\x0F".as_bytes();
    let s = SipHashKey::from_slice(key).unwrap();
    assert_eq!(s.0, 0x0706050403020100);
    assert_eq!(s.1, 0x0f0e0d0c0b0a0908);
}

#[test]
fn test_from_wrong_slice() {
    // key is not 16 bytes => Err
    let key = "\x00\x01\x02".as_bytes();
    let s = SipHashKey::from_slice(key);
    assert!(s.is_err());
    let err = s.unwrap_err();
    assert!(matches!(err, SipError::KeyTooShort(x) if x == 3));
}

#[test]
fn test_from_wrong_vec() {
    // key is not 16 bytes => Err
    let key = vec![0_u8, 1, 2];
    let s = SipHashKey::from_slice(&key);
    assert!(s.is_err());
    let err = s.unwrap_err();
    assert!(matches!(err, SipError::KeyTooShort(x) if x == 3));
}

#[test]
fn test_from_array() {
    let v: Vec<_> = (0..=15_u8).collect();
    let key: [u8; 16] = v.try_into().unwrap();

    let s = SipHashKey::from_array(&key);
    assert_eq!(s.0, 0x0706050403020100);
    assert_eq!(s.1, 0x0f0e0d0c0b0a0908);
}

#[test]
fn test_from_u128() {
    let key: u128 = 0x0706050403020100_0f0e0d0c0b0a0908;

    let s = SipHashKey::from_u128(key);
    assert_eq!(s.0, 0x0706050403020100);
    assert_eq!(s.1, 0x0f0e0d0c0b0a0908);
}

#[test]
// a 17-byte key succeeds and only the first 16 bytes count
fn test_long_key_uses_first_16() {
    let long: Vec<u8> = (0..17u8).collect();
    let short: Vec<u8> = (0..16u8).collect();

    let a = SipHashKey::from_slice(&long).unwrap();
    let b = SipHashKey::from_slice(&short).unwrap();
    assert_eq!(a.0, b.0);
    assert_eq!(a.1, b.1);
}

#[test]
// every too-short length is rejected with the actual length
fn test_short_key_lengths() {
    for len in 0..16usize {
        let key: Vec<u8> = vec![0xAB; len];
        let s = SipHashKey::from_slice(&key);
        assert!(matches!(s, Err(SipError::KeyTooShort(x)) if x == len));
    }
}
