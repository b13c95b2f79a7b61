//! The cryptographic primitives the engine is built on: BLAKE3 for hashing
//! and keyed hashing, ChaCha12-BLAKE3 for authenticated encryption, X25519
//! for key agreement. Key derivation (HKDF) is written here over the keyed hash.
use vstd::prelude::*;

verus! {

/// Length in bytes of a digest, a key and a Diffie-Hellman output.
pub const HASHLEN: usize = 32;

/// Length in bytes of a Diffie-Hellman shared secret.
pub const DHLEN: usize = 32;

/// Length in bytes of the authentication tag that encryption appends.
pub const TAGLEN: usize = 32;

/// Longest plaintext that one (key, nonce) pair can encrypt.
pub const MAX_PLAINTEXT: u64 = 274877906880;

/// The X25519 base point (u = 9), from which public keys are computed.
pub const X25519_BASEPOINT: [u8; 32] = [
    9u8, 0u8, 0u8, 0u8, 0u8, 0u8, 0u8, 0u8, 0u8, 0u8, 0u8, 0u8, 0u8, 0u8, 0u8, 0u8,
    0u8, 0u8, 0u8, 0u8, 0u8, 0u8, 0u8, 0u8, 0u8, 0u8, 0u8, 0u8, 0u8, 0u8, 0u8, 0u8,
];

/// The BLAKE3 digest of `data`.
pub uninterp spec fn blake3_hash(data: Seq<u8>) -> Seq<u8>;

/// The BLAKE3 keyed hash of `data` under `key`.
pub uninterp spec fn blake3_keyed_hash(key: Seq<u8>, data: Seq<u8>) -> Seq<u8>;

/// ChaCha12-BLAKE3 encryption of `plaintext`: ciphertext followed by the tag.
pub uninterp spec fn aead_seal(key: Seq<u8>, nonce: Seq<u8>, ad: Seq<u8>, plaintext: Seq<u8>) -> Seq<u8>;

/// ChaCha12-BLAKE3 decryption: the plaintext, or `None` when the tag does
/// not authenticate.
pub uninterp spec fn aead_open(key: Seq<u8>, nonce: Seq<u8>, ad: Seq<u8>, ciphertext: Seq<u8>) -> Option<Seq<u8>>;

/// The X25519 function on scalar `k` and u-coordinate `u`.
pub uninterp spec fn x25519_of(k: Seq<u8>, u: Seq<u8>) -> Seq<u8>;

/// Relies on `blake3::hash`: the 32-byte BLAKE3 digest of `data`.
#[verifier::external_body]
pub fn hash(data: &[u8]) -> (r: [u8; 32])
    ensures
        r@ == blake3_hash(data@),
{
    *blake3::hash(data).as_bytes()
}

/// Relies on `blake3::keyed_hash`: the 32-byte BLAKE3 keyed hash of `data`
/// under `key`, used as the MAC of the key derivation.
#[verifier::external_body]
pub fn hmac(key: &[u8; 32], data: &[u8]) -> (r: [u8; 32])
    ensures
        r@ == blake3_keyed_hash(key@, data@),
{
    *blake3::keyed_hash(key, data).as_bytes()
}

/// Relies on `chacha12_blake3::ChaCha12Blake3::new` and `encrypt`: the
/// ciphertext is as long as the plaintext, followed by a 32-byte tag. The
/// crate panics on a plaintext of `MAX_PLAINTEXT` bytes or more.
#[verifier::external_body]
pub(crate) fn aead_encrypt(key: &[u8; 32], nonce: &[u8; 32], ad: &[u8], plaintext: &[u8]) -> (r: Vec<u8>)
    requires
        plaintext@.len() < MAX_PLAINTEXT,
    ensures
        r@ == aead_seal(key@, nonce@, ad@, plaintext@),
        r@.len() == plaintext@.len() + TAGLEN,
{
    chacha12_blake3::ChaCha12Blake3::new(*key).encrypt(nonce, plaintext, ad)
}

/// Relies on `chacha12_blake3::ChaCha12Blake3::new` and `decrypt`: fails on
/// an input shorter than the tag; a plaintext is the input without its tag;
/// and it returns the plaintext of anything that `encrypt` produced under the
/// same key, nonce and associated data. Its keystream ends, and the crate
/// panics, once the body reaches `MAX_PLAINTEXT` bytes.
#[verifier::external_body]
pub(crate) fn aead_decrypt(key: &[u8; 32], nonce: &[u8; 32], ad: &[u8], ciphertext: &[u8]) -> (r: Option<Vec<u8>>)
    requires
        ciphertext@.len() < MAX_PLAINTEXT + TAGLEN,
    ensures
        r is Some <==> aead_open(key@, nonce@, ad@, ciphertext@) is Some,
        r is Some ==> aead_open(key@, nonce@, ad@, ciphertext@) == Some(r->Some_0@),
        r is Some ==> r->Some_0@.len() + TAGLEN == ciphertext@.len(),
        ciphertext@.len() < TAGLEN ==> r is None,
        forall|p: Seq<u8>|
            ciphertext@ == #[trigger] aead_seal(key@, nonce@, ad@, p) ==> r is Some && r->Some_0@
                == p,
{
    chacha12_blake3::ChaCha12Blake3::new(*key).decrypt(nonce, ciphertext, ad).ok()
}

/// Relies on `x25519_dalek::x25519`: the X25519 function of a secret scalar
/// and a public u-coordinate.
#[verifier::external_body]
pub fn dh(secret: &[u8; 32], public: &[u8; 32]) -> (r: [u8; 32])
    ensures
        r@ == x25519_of(secret@, public@),
{
    x25519_dalek::x25519(*secret, *public)
}

/// Relies on `rand::random`: 32 bytes from the thread-local generator.
#[verifier::external_body]
fn random_bytes() -> (r: [u8; 32]) {
    rand::random()
}

/// HKDF's intermediate key: the keyed hash of the input key material under
/// the chaining key.
pub open spec fn hkdf_temp_key(ck: Seq<u8>, ikm: Seq<u8>) -> Seq<u8> {
    blake3_keyed_hash(ck, ikm)
}

/// First HKDF output: `keyed_hash(temp_key, 0x01)`.
pub open spec fn hkdf_output1(ck: Seq<u8>, ikm: Seq<u8>) -> Seq<u8> {
    blake3_keyed_hash(hkdf_temp_key(ck, ikm), seq![1u8])
}

/// Second HKDF output: `keyed_hash(temp_key, output1 || 0x02)`.
pub open spec fn hkdf_output2(ck: Seq<u8>, ikm: Seq<u8>) -> Seq<u8> {
    blake3_keyed_hash(hkdf_temp_key(ck, ikm), hkdf_output1(ck, ikm) + seq![2u8])
}

/// Third HKDF output: `keyed_hash(temp_key, output2 || 0x03)`.
pub open spec fn hkdf_output3(ck: Seq<u8>, ikm: Seq<u8>) -> Seq<u8> {
    blake3_keyed_hash(hkdf_temp_key(ck, ikm), hkdf_output2(ck, ikm) + seq![3u8])
}

/// The one-byte array holding `n`.
pub fn byte(n: u8) -> (r: [u8; 1])
    ensures
        r@ == seq![n],
{
    let r = [n];
    assert(r@ =~= seq![n]);
    r
}

/// A one-byte buffer holding `n`.
pub fn bytes(n: u8) -> (r: Vec<u8>)
    ensures
        r@ == seq![n],
{
    let mut r: Vec<u8> = Vec::new();
    r.push(n);
    assert(r@ =~= seq![n]);
    r
}

/// `a` followed by the byte `b`.
fn append_byte(a: &[u8; 32], b: u8) -> (r: Vec<u8>)
    ensures
        r@ == a@ + seq![b],
{
    let mut r: Vec<u8> = Vec::new();
    let mut i: usize = 0;
    while i < 32
        invariant
            i <= 32,
            r@ == a@.take(i as int),
        decreases 32 - i,
    {
        r.push(a[i]);
        assert(a@.take(i + 1) =~= a@.take(i as int).push(a@[i as int]));
        i = i + 1;
    }
    assert(a@.take(32) =~= a@);
    r.push(b);
    r
}

/// HKDF over the keyed hash: `out1` and `out2` receive the first two
/// outputs; with `num_out` other than 2, `out3` receives the third, and
/// otherwise it is left as it was.
pub fn hkdf(
    chaining_key: &[u8; 32],
    input_key_material: &[u8],
    num_out: u8,
    out1: &mut [u8; 32],
    out2: &mut [u8; 32],
    out3: &mut [u8; 32],
)
    ensures
        final(out1)@ == hkdf_output1(chaining_key@, input_key_material@),
        final(out2)@ == hkdf_output2(chaining_key@, input_key_material@),
        num_out == 2 ==> *final(out3) == *old(out3),
        num_out != 2 ==> final(out3)@ == hkdf_output3(chaining_key@, input_key_material@),
        (final(out1)@, final(out2)@, final(out3)@) == hkdf_outputs(
            chaining_key@,
            input_key_material@,
            num_out,
            old(out3)@,
        ),
{
    let temp_key = hmac(chaining_key, input_key_material);
    let one = byte(1);
    let output1 = hmac(&temp_key, &one);
    *out1 = output1;
    let buf1 = append_byte(&output1, 2);
    let output2 = hmac(&temp_key, buf1.as_slice());
    *out2 = output2;
    if num_out == 2 {
        return;
    }
    let buf2 = append_byte(&output2, 3);
    let output3 = hmac(&temp_key, buf2.as_slice());
    *out3 = output3;
}

/// The three output buffers after `hkdf(ck, ikm, num_out, ..)`, given what
/// the third held before.
pub open spec fn hkdf_outputs(ck: Seq<u8>, ikm: Seq<u8>, num_out: u8, out3_before: Seq<u8>) -> (
    Seq<u8>,
    Seq<u8>,
    Seq<u8>,
) {
    (
        hkdf_output1(ck, ikm),
        hkdf_output2(ck, ikm),
        if num_out == 2 {
            out3_before
        } else {
            hkdf_output3(ck, ikm)
        },
    )
}

/// Key derivation depends on the chaining key and input key material
/// alone: two calls asking for two outputs agree whatever the buffers held,
/// and asking for three gives the same first two outputs as asking for two.
pub proof fn lemma_hkdf_deterministic(ck: Seq<u8>, ikm: Seq<u8>, a: Seq<u8>, b: Seq<u8>)
    ensures
        hkdf_outputs(ck, ikm, 2, a).0 == hkdf_outputs(ck, ikm, 2, b).0,
        hkdf_outputs(ck, ikm, 2, a).1 == hkdf_outputs(ck, ikm, 2, b).1,
        hkdf_outputs(ck, ikm, 3, a).0 == hkdf_outputs(ck, ikm, 2, b).0,
        hkdf_outputs(ck, ikm, 3, a).1 == hkdf_outputs(ck, ikm, 2, b).1,
{
}

/// The public key of `secret`: X25519 of it and the base point.
pub fn public_key(secret: &[u8; 32]) -> (r: [u8; 32])
    ensures
        r@ == x25519_of(secret@, X25519_BASEPOINT@),
{
    dh(secret, &X25519_BASEPOINT)
}

/// A fresh random secret and its public key.
pub fn generate_keypair() -> (r: ([u8; 32], [u8; 32]))
    ensures
        r.1@ == x25519_of(r.0@, X25519_BASEPOINT@),
{
    let secret = random_bytes();
    let public = public_key(&secret);
    (secret, public)
}

/// A copy of `s` in a new buffer.
pub fn copy_bytes(s: &[u8]) -> (r: Vec<u8>)
    ensures
        r@ == s@,
{
    let mut r: Vec<u8> = Vec::new();
    let mut i: usize = 0;
    while i < s.len()
        invariant
            i <= s@.len(),
            r@ == s@.take(i as int),
        decreases s@.len() - i,
    {
        r.push(s[i]);
        assert(s@.take(i + 1) =~= s@.take(i as int).push(s@[i as int]));
        i = i + 1;
    }
    assert(s@.take(s@.len() as int) =~= s@);
    r
}

/// The bytes `b[start..end]` in a new buffer.
pub(crate) fn copy_range(b: &[u8], start: usize, end: usize) -> (r: Vec<u8>)
    requires
        start <= end <= b@.len(),
    ensures
        r@ == b@.subrange(start as int, end as int),
{
    let mut r: Vec<u8> = Vec::new();
    let mut i: usize = start;
    while i < end
        invariant
            start <= i <= end,
            end <= b@.len(),
            r@ == b@.subrange(start as int, i as int),
        decreases end - i,
    {
        r.push(b[i]);
        assert(b@.subrange(start as int, i + 1) =~= b@.subrange(start as int, i as int).push(
            b@[i as int],
        ));
        i = i + 1;
    }
    r
}

} // verus!
