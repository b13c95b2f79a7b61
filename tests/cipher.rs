use smog::cipher_state::{CipherError, CipherState};

#[test]
fn encrypt_then_decrypt_round_trips() {
    let key = [42u8; 32];
    let mut tx = CipherState::init(key);
    let mut rx = CipherState::init(key);
    for msg in [&b"hello"[..], &b""[..], &[0u8; 100][..]] {
        let ct = tx.encrypt_with_ad(b"ad", msg).unwrap();
        assert_eq!(ct.len(), msg.len() + 32);

        assert_eq!(rx.decrypt_with_ad(b"ad", &ct), Ok(msg.to_vec()));
    }
}

#[test]
fn wrong_ad_fails_and_keeps_the_nonce() {
    let key = [1u8; 32];
    let mut tx = CipherState::init(key);
    let mut rx = CipherState::init(key);
    let ct = tx.encrypt_with_ad(b"right", b"payload").unwrap();
    assert_eq!(rx.decrypt_with_ad(b"wrong", &ct), Err(CipherError::AuthenticationFailure));
    assert_eq!(rx.decrypt_with_ad(b"right", &ct), Ok(b"payload".to_vec()));
}

#[test]
fn flipped_byte_fails_and_keeps_the_nonce() {
    let key = [9u8; 32];
    let mut tx = CipherState::init(key);
    let mut rx = CipherState::init(key);
    let ct = tx.encrypt_with_ad(b"", b"secret").unwrap();
    let mut bad = ct.clone();
    bad[0] ^= 1;
    assert_eq!(rx.decrypt_with_ad(b"", &bad), Err(CipherError::AuthenticationFailure));
    assert_eq!(rx.decrypt_with_ad(b"", &ct), Ok(b"secret".to_vec()));
}

#[test]
fn short_ciphertext_fails() {
    let mut rx = CipherState::init([3u8; 32]);
    assert_eq!(rx.decrypt_with_ad(b"", &[0u8; 31]), Err(CipherError::AuthenticationFailure));
}

#[test]
fn nonce_advances_between_messages() {
    let mut tx = CipherState::init([5u8; 32]);
    let a = tx.encrypt_with_ad(b"", b"same").unwrap();
    let b = tx.encrypt_with_ad(b"", b"same").unwrap();
    assert_ne!(a, b);
    let mut rx = CipherState::init([5u8; 32]);
    assert_eq!(rx.decrypt_with_ad(b"", &b), Err(CipherError::AuthenticationFailure));
    assert_eq!(rx.decrypt_with_ad(b"", &a), Ok(b"same".to_vec()));
    assert_eq!(rx.decrypt_with_ad(b"", &b), Ok(b"same".to_vec()));
}

#[test]
fn nonce_carries_across_bytes() {
    let mut tx = CipherState::init([6u8; 32]);
    let mut rx = CipherState::init([6u8; 32]);
    let mut n = [0u8; 32];
    n[0] = 255;
    tx.set_nonce(n);
    let ct = tx.encrypt_with_ad(b"", b"x").unwrap();
    let mut next = [0u8; 32];
    next[1] = 1;
    let mut before = [0u8; 32];
    before[0] = 255;
    rx.set_nonce(before);
    assert_eq!(rx.decrypt_with_ad(b"", &ct), Ok(b"x".to_vec()));
    let mut other = CipherState::init([6u8; 32]);
    other.set_nonce(next);
    assert_eq!(other.decrypt_with_ad(b"", &ct), Err(CipherError::AuthenticationFailure));
}

#[test]
fn without_key_data_passes_through() {
    let mut c = CipherState::new();
    assert!(!c.has_key());
    assert_eq!(c.encrypt_with_ad(b"ad", b"plain"), Ok(b"plain".to_vec()));
    assert_eq!(c.decrypt_with_ad(b"ad", b"plain"), Ok(b"plain".to_vec()));
    c.init_key([1u8; 32]);
    assert!(c.has_key());
    assert_ne!(c.encrypt_with_ad(b"ad", b"plain"), Ok(b"plain".to_vec()));
}

#[test]
fn rekey_changes_the_key_and_keeps_the_nonce() {
    let mut a = CipherState::init([8u8; 32]);
    let mut b = CipherState::init([8u8; 32]);
    a.rekey();
    assert_ne!(a.key_bytes(), [8u8; 32]);
    let ct = a.encrypt_with_ad(b"", b"m").unwrap();
    assert_eq!(b.decrypt_with_ad(b"", &ct), Err(CipherError::AuthenticationFailure));
    b.rekey();
    assert_eq!(b.decrypt_with_ad(b"", &ct), Ok(b"m".to_vec()));
}

#[test]
fn exhausted_nonce_is_refused() {
    let mut tx = CipherState::init([2u8; 32]);
    tx.set_nonce([255u8; 32]);
    assert!(tx.nonce_exhausted());
    assert_eq!(tx.encrypt_with_ad(b"", b"m"), Err(CipherError::NonceExhausted));
    assert_eq!(tx.decrypt_with_ad(b"", &[0u8; 40]), Err(CipherError::NonceExhausted));
    let mut almost = [255u8; 32];
    almost[0] = 254;
    tx.set_nonce(almost);
    assert!(!tx.nonce_exhausted());
    assert!(tx.encrypt_with_ad(b"", b"m").is_ok());
    assert!(tx.nonce_exhausted());
    assert_eq!(tx.encrypt_with_ad(b"", b"m"), Err(CipherError::NonceExhausted));
}

#[test]
fn decrypting_without_key_passes_long_input_through() {
    let mut c = CipherState::new();
    let big = vec![7u8; 100];
    assert_eq!(c.decrypt_with_ad(b"", &big), Ok(big.clone()));
}
