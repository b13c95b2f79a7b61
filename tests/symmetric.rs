use smog::crypto::hash;
use smog::symmetric_state::SymmetricState;

const NAME: &str = "Noise_IKpsk2_25519_ChaChaPoly_BLAKE3";

fn started(name: &str) -> SymmetricState {
    let mut s = SymmetricState::new();
    s.init(name);
    s
}

#[test]
fn init_hashes_a_long_name_and_keeps_a_digest_sized_one() {
    let s = started(NAME);
    assert_eq!(s.get_handshake_hash(), hash(NAME.as_bytes()));
    let exact = "0123456789abcdef0123456789abcdef";
    let t = started(exact);
    assert_eq!(&t.get_handshake_hash()[..], exact.as_bytes());
    assert!(!t.has_key());
}

#[test]
fn mix_hash_appends_to_the_transcript() {
    let mut s = started(NAME);
    let h0 = s.get_handshake_hash();
    s.mix_hash(b"data");
    let mut buf = h0.to_vec();
    buf.extend_from_slice(b"data");
    assert_eq!(s.get_handshake_hash(), hash(&buf));
}

#[test]
fn peers_in_lockstep_agree() {
    let mut a = started(NAME);
    let mut b = started(NAME);
    for s in [&mut a, &mut b] {
        s.mix_hash(b"prologue");
        s.mix_key(&[1u8; 32]);
    }
    let ct = a.encrypt_and_hash(b"first").unwrap();
    assert_ne!(ct, b"first".to_vec());
    assert_eq!(b.decrypt_and_hash(&ct), Ok(b"first".to_vec()));
    for s in [&mut a, &mut b] {
        s.mix_key_and_hash(&[2u8; 32]);
    }
    let ct = b.encrypt_and_hash(b"second").unwrap();
    assert_eq!(a.decrypt_and_hash(&ct), Ok(b"second".to_vec()));
    assert_eq!(a.get_handshake_hash(), b.get_handshake_hash());

    let (mut a_send, mut a_recv) = a.split();
    let (mut b_recv, mut b_send) = b.split();
    let m = a_send.encrypt_with_ad(b"", b"transport").unwrap();
    assert_eq!(b_recv.decrypt_with_ad(b"", &m), Ok(b"transport".to_vec()));
    let m = b_send.encrypt_with_ad(b"", b"reply").unwrap();
    assert_eq!(a_recv.decrypt_with_ad(b"", &m), Ok(b"reply".to_vec()));
}

#[test]
fn failed_decrypt_leaves_the_transcript() {
    let mut a = started(NAME);
    let mut b = started(NAME);
    a.mix_key(&[4u8; 32]);
    b.mix_key(&[4u8; 32]);
    let mut ct = a.encrypt_and_hash(b"msg").unwrap();
    let h = b.get_handshake_hash();
    ct[0] ^= 0x80;
    assert!(b.decrypt_and_hash(&ct).is_err());
    assert_eq!(b.get_handshake_hash(), h);
}

#[test]
fn without_key_payload_is_plain_but_hashed() {
    let mut a = started(NAME);
    let h0 = a.get_handshake_hash();
    let ct = a.encrypt_and_hash(b"clear").unwrap();
    assert_eq!(ct, b"clear".to_vec());
    let mut buf = h0.to_vec();
    buf.extend_from_slice(b"clear");
    assert_eq!(a.get_handshake_hash(), hash(&buf));
}
