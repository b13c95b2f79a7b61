use smog::primitives::{Blake3, ChaCha12Blake3Cipher, Cipher};
use smog::crypto::{byte, bytes, hash, hkdf, hmac};

fn hex(b: &[u8]) -> String {
    b.iter().map(|x| format!("{:02x}", x)).collect()
}

#[test]
fn hash_golden_vector() {
    assert_eq!(
        hex(&hash(b"Hash algo Blake3.")),
        "c7b22a885b1933272f19224c4abfc5e1e449853b2d94d198225cddff8e90f90c"
    );
}

#[test]
fn keyed_hash_golden_vector() {
    assert_eq!(
        hex(&hmac(&[0u8; 32], b"Hash algo Blake3.")),
        "95136750e7f67f232da0c298aca2ed6b76a83f99eb94a247013c7a1d559b07ae"
    );
}

#[test]
fn hkdf_is_deterministic_and_prefix_consistent() {
    let ck = [7u8; 32];
    let ikm = [3u8; 32];
    let (mut a1, mut a2, mut a3) = ([0u8; 32], [0u8; 32], [0xaau8; 32]);
    hkdf(&ck, &ikm, 2, &mut a1, &mut a2, &mut a3);
    assert_eq!(a3, [0xaau8; 32]);
    let (mut b1, mut b2, mut b3) = ([0u8; 32], [0u8; 32], [0u8; 32]);
    hkdf(&ck, &ikm, 2, &mut b1, &mut b2, &mut b3);
    assert_eq!((a1, a2), (b1, b2));
    let (mut c1, mut c2, mut c3) = ([0u8; 32], [0u8; 32], [0u8; 32]);
    hkdf(&ck, &ikm, 3, &mut c1, &mut c2, &mut c3);
    assert_eq!((a1, a2), (c1, c2));
    assert_ne!(c3, [0u8; 32]);
    assert_ne!(c1, c2);
}

#[test]
fn hkdf_follows_its_definition() {
    let ck = [1u8; 32];
    let ikm = [2u8; 32];
    let (mut o1, mut o2, mut o3) = ([0u8; 32], [0u8; 32], [0u8; 32]);
    hkdf(&ck, &ikm, 3, &mut o1, &mut o2, &mut o3);
    let temp = hmac(&ck, &ikm);
    assert_eq!(o1, hmac(&temp, &[1]));
    let mut m2 = o1.to_vec();
    m2.push(2);
    assert_eq!(o2, hmac(&temp, &m2));
    let mut m3 = o2.to_vec();
    m3.push(3);
    assert_eq!(o3, hmac(&temp, &m3));
}

#[test]
fn single_bytes() {
    assert_eq!(byte(5), [5]);
    assert_eq!(bytes(9), vec![9]);
}

#[test]
fn blake3_suite_hkdf_gives_three_outputs_unless_two_are_asked() {
    let (a, b, c) = <Blake3 as smog::primitives::Hash>::hkdf([1u8; 32], [2u8; 32], 2);
    assert!(a.is_some() && b.is_some() && c.is_none());
    let (a3, b3, c3) = <Blake3 as smog::primitives::Hash>::hkdf([1u8; 32], [2u8; 32], 3);
    assert_eq!((a, b), (a3, b3));
    assert!(c3.is_some());
    let (_, _, c4) = <Blake3 as smog::primitives::Hash>::hkdf([1u8; 32], [2u8; 32], 4);
    assert_eq!(c4, c3);
}

#[test]
fn chacha_suite_round_trips_on_u64_nonces() {
    let c = ChaCha12Blake3Cipher;
    let ct = c.encrypt([3u8; 32], 0x0102030405060708, b"ad", b"msg");
    assert_eq!(c.decrypt([3u8; 32], 0x0102030405060708, b"ad", &ct), Some(b"msg".to_vec()));
    assert_eq!(c.decrypt([3u8; 32], 0x0102030405060709, b"ad", &ct), None);
}
