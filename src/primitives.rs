//! Capability interfaces for the cryptographic primitives, so that a
//! ciphersuite can be chosen when a connection is set up, and the suite this
//! library provides: X25519, BLAKE3 and ChaCha12-BLAKE3.
use vstd::prelude::*;

use crate::crypto::{aead_decrypt, aead_encrypt, dh, generate_keypair, hash, hkdf, hmac};

verus! {

/// Diffie-Hellman key agreement.
pub trait DH {
    type Secret;

    type Public;

    type Shared;

    /// A fresh key pair.
    fn generate_keypair() -> (Self::Secret, Self::Public);

    /// The shared secret of a local secret key and a remote public key.
    fn dh(keypair: Self::Secret, public_key: Self::Public) -> Self::Shared;
}

/// Hashing, keyed hashing and key derivation.
pub trait Hash {
    type Hash;

    type HMAC;

    /// The digest of `input`.
    fn hash(input: &[u8]) -> Self::Hash;

    /// The keyed hash of `data` under `k`.
    fn hmac_hash(k: Self::Hash, data: &[u8]) -> Self::HMAC;

    /// Key-derivation outputs from the chaining key and the input key
    /// material: two when `num` is 2, three otherwise.
    fn hkdf(ck: Self::HMAC, input: Self::Hash, num: u8) -> (
        Option<Self::HMAC>,
        Option<Self::HMAC>,
        Option<Self::HMAC>,
    );
}

/// Authenticated encryption with associated data.
pub trait Cipher {
    /// The ciphertext of `plaintext` under key `k` and nonce `n`.
    fn encrypt(&self, k: [u8; 32], n: u64, ad: &[u8], plaintext: &[u8]) -> Vec<u8>
        requires
            plaintext@.len() < crate::crypto::MAX_PLAINTEXT,
    ;

    /// The plaintext, or `None` when authentication fails or the input is
    /// longer than any encryption produces.
    fn decrypt(&self, k: [u8; 32], n: u64, ad: &[u8], ciphertext: &[u8]) -> Option<Vec<u8>>;

    /// A new key derived from `k`.
    fn rekey(&self, k: [u8; 32], n: u64) -> [u8; 32];
}

/// X25519 key agreement.
pub struct X25519;

impl DH for X25519 {
    type Secret = [u8; 32];

    type Public = [u8; 32];

    type Shared = [u8; 32];

    fn generate_keypair() -> ([u8; 32], [u8; 32]) {
        generate_keypair()
    }

    fn dh(keypair: [u8; 32], public_key: [u8; 32]) -> [u8; 32] {
        dh(&keypair, &public_key)
    }
}

/// BLAKE3 hashing, with HKDF over its keyed mode.
pub struct Blake3;

impl Hash for Blake3 {
    type Hash = [u8; 32];

    type HMAC = [u8; 32];

    fn hash(input: &[u8]) -> [u8; 32] {
        hash(input)
    }

    fn hmac_hash(k: [u8; 32], data: &[u8]) -> [u8; 32] {
        hmac(&k, data)
    }

    fn hkdf(ck: [u8; 32], input: [u8; 32], num: u8) -> (
        Option<[u8; 32]>,
        Option<[u8; 32]>,
        Option<[u8; 32]>,
    ) {
        let mut out1 = [0u8; 32];
        let mut out2 = [0u8; 32];
        let mut out3 = [0u8; 32];
        hkdf(&ck, input.as_slice(), num, &mut out1, &mut out2, &mut out3);
        if num != 2 {
            (Some(out1), Some(out2), Some(out3))
        } else {
            (Some(out1), Some(out2), None)
        }
    }
}

/// ChaCha12-BLAKE3; a 64-bit nonce fills the low bytes of its 32-byte nonce.
pub struct ChaCha12Blake3Cipher;

/// The 32-byte nonce whose low eight bytes are `n`, least significant first.
fn wide_nonce(n: u64) -> (r: [u8; 32])
    ensures
        r@[0] == n as u8,
        r@[1] == (n >> 8u64) as u8,
        r@[2] == (n >> 16u64) as u8,
        r@[3] == (n >> 24u64) as u8,
        r@[4] == (n >> 32u64) as u8,
        r@[5] == (n >> 40u64) as u8,
        r@[6] == (n >> 48u64) as u8,
        r@[7] == (n >> 56u64) as u8,
        forall|i: int| 8 <= i < 32 ==> r@[i] == 0,
{
    let mut r = [0u8; 32];
    r[0] = n as u8;
    r[1] = (n >> 8) as u8;
    r[2] = (n >> 16) as u8;
    r[3] = (n >> 24) as u8;
    r[4] = (n >> 32) as u8;
    r[5] = (n >> 40) as u8;
    r[6] = (n >> 48) as u8;
    r[7] = (n >> 56) as u8;
    r
}

impl Cipher for ChaCha12Blake3Cipher {
    fn encrypt(&self, k: [u8; 32], n: u64, ad: &[u8], plaintext: &[u8]) -> Vec<u8> {
        aead_encrypt(&k, &wide_nonce(n), ad, plaintext)
    }

    fn decrypt(&self, k: [u8; 32], n: u64, ad: &[u8], ciphertext: &[u8]) -> Option<Vec<u8>> {
        if ciphertext.len() as u64 >= crate::crypto::MAX_PLAINTEXT + crate::crypto::TAGLEN as u64 {
            return None;
        }
        aead_decrypt(&k, &wide_nonce(n), ad, ciphertext)
    }

    fn rekey(&self, k: [u8; 32], n: u64) -> [u8; 32] {
        let mut state = crate::cipher_state::CipherState::init(k);
        state.rekey();
        state.key_bytes()
    }
}

} // verus!
