use smog::crypto::public_key;
use smog::handshake_state::{HandshakeError, HandshakePattern, HandshakeState, Keys};

const NAME: &str = "Noise_XXpsk3_25519_ChaChaPoly_BLAKE3";
const IK_NAME: &str = "Noise_IKpsk2_25519_ChaChaPoly_BLAKE3";

fn secrets(seed: u8) -> ([u8; 32], [u8; 32]) {
    ([seed; 32], [seed.wrapping_add(100); 32])
}

#[test]
fn xx_psk3_runs_to_completion() {
    let psk = Some([7u8; 32]);
    let ik = Keys::new(secrets(1), (None, None));
    let rk = Keys::new(secrets(2), (None, None));
    let mut ini = HandshakeState::init(NAME, HandshakePattern::xx_psk3(), true, b"pro", ik, psk).unwrap();
    let mut res = HandshakeState::init(NAME, HandshakePattern::xx_psk3(), false, b"pro", rk, psk).unwrap();

    assert_eq!(res.write_message(b""), Err(HandshakeError::WrongTurn));
    let m1 = ini.write_message(b"one").unwrap();
    assert_eq!(m1.len(), 32 + 3 + 32);
    assert_eq!(res.read_message(&m1), Ok(b"one".to_vec()));
    let m2 = res.write_message(b"two").unwrap();
    assert_eq!(m2.len(), 32 + 64 + 3 + 32);
    assert_eq!(ini.read_message(&m2), Ok(b"two".to_vec()));
    let m3 = ini.write_message(b"three").unwrap();
    assert_eq!(res.read_message(&m3), Ok(b"three".to_vec()));
    assert!(ini.is_finished() && res.is_finished());
    assert_eq!(ini.get_handshake_hash(), res.get_handshake_hash());
    assert_eq!(ini.write_message(b""), Err(HandshakeError::WrongTurn));

    let (mut i_send, mut i_recv) = ini.split();
    let (mut r_recv, mut r_send) = res.split();
    let c = i_send.encrypt_with_ad(b"", b"ping").unwrap();
    assert_eq!(r_recv.decrypt_with_ad(b"", &c), Ok(b"ping".to_vec()));
    let c = r_send.encrypt_with_ad(b"", b"pong").unwrap();
    assert_eq!(i_recv.decrypt_with_ad(b"", &c), Ok(b"pong".to_vec()));
}

#[test]
fn ik_psk2_runs_to_completion() {
    let psk = Some([9u8; 32]);
    let (rs, re) = secrets(4);
    let ik = Keys::new(secrets(3), (Some(public_key(&rs)), None));
    let rk = Keys::new((rs, re), (None, None));
    let mut ini = HandshakeState::init(IK_NAME, HandshakePattern::ik_psk2(), true, b"", ik, psk).unwrap();
    let mut res = HandshakeState::init(IK_NAME, HandshakePattern::ik_psk2(), false, b"", rk, psk).unwrap();
    let m1 = ini.write_message(b"early data").unwrap();
    assert_eq!(res.read_message(&m1), Ok(b"early data".to_vec()));
    let m2 = res.write_message(b"").unwrap();
    assert_eq!(ini.read_message(&m2), Ok(Vec::new()));
    assert_eq!(ini.get_handshake_hash(), res.get_handshake_hash());
}

#[test]
fn ik_initiator_needs_the_responder_key() {
    let ik = Keys::new(secrets(3), (None, None));
    let r = HandshakeState::init(IK_NAME, HandshakePattern::ik_psk2(), true, b"", ik, None);
    assert!(matches!(r, Err(HandshakeError::MissingKey)));
}

#[test]
fn psk_token_without_psk_fails() {
    let (rs, re) = secrets(4);
    let ik = Keys::new(secrets(3), (Some(public_key(&rs)), None));
    let rk = Keys::new((rs, re), (None, None));
    let mut ini = HandshakeState::init(IK_NAME, HandshakePattern::ik_psk2(), true, b"", ik, None).unwrap();
    let mut res = HandshakeState::init(IK_NAME, HandshakePattern::ik_psk2(), false, b"", rk, None).unwrap();
    let m1 = ini.write_message(b"").unwrap();
    assert_eq!(res.read_message(&m1), Ok(Vec::new()));
    assert_eq!(res.write_message(b""), Err(HandshakeError::MissingPsk));
}

#[test]
fn mismatched_psk_is_detected() {
    let (rs, re) = secrets(4);
    let ik = Keys::new(secrets(3), (Some(public_key(&rs)), None));
    let rk = Keys::new((rs, re), (None, None));
    let mut ini = HandshakeState::init(IK_NAME, HandshakePattern::ik_psk2(), true, b"", ik, Some([1u8; 32])).unwrap();
    let mut res = HandshakeState::init(IK_NAME, HandshakePattern::ik_psk2(), false, b"", rk, Some([2u8; 32])).unwrap();
    let m1 = ini.write_message(b"").unwrap();
    assert_eq!(res.read_message(&m1), Ok(Vec::new()));
    let m2 = res.write_message(b"").unwrap();
    assert_eq!(ini.read_message(&m2), Err(HandshakeError::AuthenticationFailure));
}

#[test]
fn truncated_message_is_too_short() {
    let ik = Keys::new(secrets(1), (None, None));
    let rk = Keys::new(secrets(2), (None, None));
    let mut ini = HandshakeState::init(NAME, HandshakePattern::xx_psk3(), true, b"", ik, None).unwrap();
    let mut res = HandshakeState::init(NAME, HandshakePattern::xx_psk3(), false, b"", rk, None).unwrap();
    let m1 = ini.write_message(b"").unwrap();
    assert_eq!(res.read_message(&m1[..20]), Err(HandshakeError::MessageTooShort));
}
