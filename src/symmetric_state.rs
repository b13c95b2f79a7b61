//! The symmetric state: the chaining key, the running handshake hash, and
//! the cipher state that encrypts handshake payloads.
use vstd::prelude::*;
use vstd::string::StringSliceAdditionalSpecFns;

use crate::cipher_state::{
    advanced, decrypt_output, encrypt_output, exhausted, oversized, zero_nonce, CipherError, CipherState,
    CipherStateView,
};
use crate::crypto::{
    blake3_hash, copy_bytes, hash, hkdf, hkdf_output1, hkdf_output2, hkdf_output3, HASHLEN,
    MAX_PLAINTEXT, TAGLEN,
};

verus! {

/// What a symmetric state holds.
pub ghost struct SymmetricStateView {
    pub ck: Seq<u8>,
    pub h: Seq<u8>,
    pub cipher: CipherStateView,
}

/// The handshake hash after mixing in `data`: `Hash(h || data)`.
pub open spec fn mix_hash_of(h: Seq<u8>, data: Seq<u8>) -> Seq<u8> {
    blake3_hash(h + data)
}

/// A cipher state keyed with `k`, nonce zero.
pub open spec fn keyed_cipher(k: Seq<u8>) -> CipherStateView {
    CipherStateView { key: Some(k), nonce: zero_nonce() }
}

/// The first handshake hash for `protocol_name`: the name itself when it is
/// exactly a digest long, its hash otherwise.
pub open spec fn initial_hash(protocol_name: Seq<u8>) -> Seq<u8> {
    if protocol_name.len() == HASHLEN {
        protocol_name
    } else {
        blake3_hash(protocol_name)
    }
}

/// The state right after `init(protocol_name)`.
pub open spec fn initialized(protocol_name: Seq<u8>) -> SymmetricStateView {
    SymmetricStateView {
        ck: initial_hash(protocol_name),
        h: initial_hash(protocol_name),
        cipher: CipherStateView { key: None, nonce: zero_nonce() },
    }
}

/// `v` after `mix_key(ikm)`.
pub open spec fn after_mix_key(v: SymmetricStateView, ikm: Seq<u8>) -> SymmetricStateView {
    SymmetricStateView {
        ck: hkdf_output1(v.ck, ikm),
        h: v.h,
        cipher: keyed_cipher(hkdf_output2(v.ck, ikm)),
    }
}

/// `v` after `mix_hash(data)`.
pub open spec fn after_mix_hash(v: SymmetricStateView, data: Seq<u8>) -> SymmetricStateView {
    SymmetricStateView { ck: v.ck, h: mix_hash_of(v.h, data), cipher: v.cipher }
}

/// `v` after `mix_key_and_hash(ikm)`.
pub open spec fn after_mix_key_and_hash(v: SymmetricStateView, ikm: Seq<u8>) -> SymmetricStateView {
    SymmetricStateView {
        ck: hkdf_output1(v.ck, ikm),
        h: mix_hash_of(v.h, hkdf_output2(v.ck, ikm)),
        cipher: keyed_cipher(hkdf_output3(v.ck, ikm)),
    }
}

/// The ciphertext that `encrypt_and_hash(plaintext)` returns from `v`.
pub open spec fn sealed_payload(v: SymmetricStateView, plaintext: Seq<u8>) -> Seq<u8> {
    encrypt_output(v.cipher, v.h, plaintext)
}

/// `v` after `encrypt_and_hash(plaintext)`: the ciphertext is mixed into
/// the hash.
pub open spec fn after_encrypt_and_hash(v: SymmetricStateView, plaintext: Seq<u8>) -> SymmetricStateView {
    SymmetricStateView {
        ck: v.ck,
        h: mix_hash_of(v.h, sealed_payload(v, plaintext)),
        cipher: advanced(v.cipher),
    }
}

/// `v` after a successful `decrypt_and_hash(ciphertext)`: the ciphertext,
/// not the plaintext, is mixed into the hash.
pub open spec fn after_decrypt_and_hash(v: SymmetricStateView, ciphertext: Seq<u8>) -> SymmetricStateView {
    SymmetricStateView { ck: v.ck, h: mix_hash_of(v.h, ciphertext), cipher: advanced(v.cipher) }
}

/// The two transport cipher states that `split` derives from `v`.
pub open spec fn split_of(v: SymmetricStateView) -> (CipherStateView, CipherStateView) {
    (keyed_cipher(hkdf_output1(v.ck, seq![])), keyed_cipher(hkdf_output2(v.ck, seq![])))
}

/// The chaining key, the handshake hash and the embedded cipher state of one
/// party during a handshake.
pub struct SymmetricState {
    cipher_state: CipherState,
    ck: [u8; 32],
    h: [u8; 32],
}

impl View for SymmetricState {
    type V = SymmetricStateView;

    closed spec fn view(&self) -> SymmetricStateView {
        SymmetricStateView { ck: self.ck@, h: self.h@, cipher: self.cipher_state@ }
    }
}

impl SymmetricState {
    /// A state with zero chaining key and hash and a cipher state without key.
    pub fn new() -> (r: Self)
        ensures
            r@ == (SymmetricStateView {
                ck: zero_nonce(),
                h: zero_nonce(),
                cipher: CipherStateView { key: None, nonce: zero_nonce() },
            }),
    {
        let r = SymmetricState { cipher_state: CipherState::new(), ck: [0u8; 32], h: [0u8; 32] };
        assert(r.ck@ =~= zero_nonce());
        r
    }

    /// Starts a handshake for `protocol_name`: the hash and the chaining key
    /// both become the name (when it is a digest long) or its hash, and the
    /// cipher state loses its key.
    pub fn init(&mut self, protocol_name: &str)
        ensures
            final(self)@ == initialized(protocol_name.spec_bytes()),
    {
        let name = protocol_name.as_bytes();
        if name.len() == HASHLEN {
            let mut h = [0u8; 32];
            let mut i: usize = 0;
            while i < 32
                invariant
                    i <= 32,
                    name@.len() == 32,
                    forall|j: int| 0 <= j < i ==> h@[j] == name@[j],
                decreases 32 - i,
            {
                h[i] = name[i];
                i = i + 1;
            }
            assert(h@ =~= name@);
            self.h = h;
        } else {
            self.h = hash(name);
        }
        self.ck = self.h;
        self.cipher_state = CipherState::new();
    }

    /// Mixes `input_key_material` into the chaining key and keys the cipher
    /// state with the second HKDF output.
    pub fn mix_key(&mut self, input_key_material: &[u8])
        ensures
            final(self)@ == after_mix_key(old(self)@, input_key_material@),
    {
        let mut chaining_key = [0u8; 32];
        let mut temp_k = [0u8; 32];
        let mut unused = [0u8; 32];
        hkdf(&self.ck, input_key_material, 2, &mut chaining_key, &mut temp_k, &mut unused);
        self.ck = chaining_key;
        self.cipher_state.init_key(temp_k);
    }

    /// Mixes `data` into the handshake hash: `h = Hash(h || data)`.
    pub fn mix_hash(&mut self, data: &[u8])
        ensures
            final(self)@ == after_mix_hash(old(self)@, data@),
    {
        let mut buf = copy_bytes(self.h.as_slice());
        let mut tail = copy_bytes(data);
        buf.append(&mut tail);
        self.h = hash(buf.as_slice());
    }

    /// Mixes a pre-shared key into the chaining key and the hash, and keys
    /// the cipher state with the third HKDF output.
    pub fn mix_key_and_hash(&mut self, input_key_material: &[u8])
        ensures
            final(self)@ == after_mix_key_and_hash(old(self)@, input_key_material@),
    {
        let mut chaining_key = [0u8; 32];
        let mut temp_h = [0u8; 32];
        let mut temp_k = [0u8; 32];
        hkdf(&self.ck, input_key_material, 3, &mut chaining_key, &mut temp_h, &mut temp_k);
        self.ck = chaining_key;
        self.mix_hash(temp_h.as_slice());
        self.cipher_state.init_key(temp_k);
    }

    /// Whether the embedded cipher state has a key.
    pub fn has_key(&self) -> (r: bool)
        ensures
            r == self@.cipher.key is Some,
    {
        self.cipher_state.has_key()
    }

    /// The handshake hash, for channel binding once the handshake is over.
    pub fn get_handshake_hash(&self) -> (r: [u8; 32])
        ensures
            r@ == self@.h,
    {
        self.h
    }

    /// Encrypts `plaintext` with the hash as associated data (passing it
    /// through while there is no key), mixes the ciphertext into the hash and
    /// returns it. Refused, with the state unchanged, once the cipher
    /// state's nonce is exhausted.
    pub fn encrypt_and_hash(&mut self, plaintext: &[u8]) -> (r: Result<Vec<u8>, CipherError>)
        requires
            plaintext@.len() < MAX_PLAINTEXT,
        ensures
            exhausted(old(self)@.cipher) ==> r == Err::<Vec<u8>, CipherError>(CipherError::NonceExhausted)
                && final(self)@ == old(self)@,
            !exhausted(old(self)@.cipher) ==> r is Ok && r->Ok_0@ == sealed_payload(old(self)@, plaintext@)
                && final(self)@ == after_encrypt_and_hash(old(self)@, plaintext@),
    {
        match self.cipher_state.encrypt_with_ad(self.h.as_slice(), plaintext) {
            Ok(ciphertext) => {
                self.mix_hash(ciphertext.as_slice());
                Ok(ciphertext)
            },
            Err(e) => Err(e),
        }
    }

    /// Decrypts `ciphertext` with the hash as associated data (passing it
    /// through while there is no key) and mixes the ciphertext into the
    /// hash. On an authentication failure, once the nonce is exhausted, or
    /// for a ciphertext longer than any encryption produces, the state is
    /// left as it was.
    /// Receiving what a peer in the same state sent leaves this state equal
    /// to the peer's.
    pub fn decrypt_and_hash(&mut self, ciphertext: &[u8]) -> (r: Result<Vec<u8>, CipherError>)
        ensures
            exhausted(old(self)@.cipher) ==> r == Err::<Vec<u8>, CipherError>(CipherError::NonceExhausted)
                && final(self)@ == old(self)@,
            !exhausted(old(self)@.cipher) && oversized(old(self)@.cipher, ciphertext@) ==> r == Err::<
                Vec<u8>,
                CipherError,
            >(CipherError::CiphertextTooLong) && final(self)@ == old(self)@,
            !exhausted(old(self)@.cipher) && !oversized(old(self)@.cipher, ciphertext@)
                && decrypt_output(old(self)@.cipher, old(self)@.h, ciphertext@) is Some ==> r is Ok && Some(
                r->Ok_0@,
            ) == decrypt_output(old(self)@.cipher, old(self)@.h, ciphertext@) && final(self)@
                == after_decrypt_and_hash(old(self)@, ciphertext@),
            !exhausted(old(self)@.cipher) && !oversized(old(self)@.cipher, ciphertext@)
                && decrypt_output(old(self)@.cipher, old(self)@.h, ciphertext@) is None ==> r == Err::<
                Vec<u8>,
                CipherError,
            >(CipherError::AuthenticationFailure) && final(self)@ == old(self)@,
            forall|p: Seq<u8>|
                !exhausted(old(self)@.cipher) && !oversized(old(self)@.cipher, ciphertext@) && ciphertext@
                    == #[trigger] sealed_payload(old(self)@, p) ==> r is Ok && r->Ok_0@ == p
                    && final(self)@ == after_encrypt_and_hash(old(self)@, p),
            old(self)@.cipher.key is Some && r is Ok ==> r->Ok_0@.len() + TAGLEN == ciphertext@.len(),
    {
        match self.cipher_state.decrypt_with_ad(self.h.as_slice(), ciphertext) {
            Ok(plaintext) => {
                self.mix_hash(ciphertext);
                Ok(plaintext)
            },
            Err(e) => Err(e),
        }
    }

    /// Derives the two transport cipher states from the chaining key: the
    /// first keyed with the first HKDF output of an empty input, the second
    /// with the second, both with nonce zero.
    pub fn split(&self) -> (r: (CipherState, CipherState))
        ensures
            (r.0@, r.1@) == split_of(self@),
    {
        let mut temp_k1 = [0u8; 32];
        let mut temp_k2 = [0u8; 32];
        let mut unused = [0u8; 32];
        let empty: [u8; 0] = [];
        assert(empty@ =~= Seq::<u8>::empty());
        hkdf(&self.ck, empty.as_slice(), 2, &mut temp_k1, &mut temp_k2, &mut unused);
        let c1 = CipherState::init(temp_k1);
        let c2 = CipherState::init(temp_k2);
        (c1, c2)
    }
}

impl Drop for SymmetricState {
    /// Zeroes the chaining key and the hash before the state is released.
    fn drop(&mut self)
        opens_invariants none
        no_unwind
    {
        let mut i: usize = 0;
        while i < 32
            invariant
                i <= 32,
            decreases 32 - i,
        {
            self.ck[i] = 0;
            self.h[i] = 0;
            i = i + 1;
        }
    }
}

/// One operation that both peers of a handshake apply to their symmetric state.
pub ghost enum HandshakeOp {
    MixHash(Seq<u8>),
    MixKey(Seq<u8>),
    MixKeyAndHash(Seq<u8>),
    /// A payload: the sending peer encrypts it with `encrypt_and_hash`, the
    /// other decrypts the result with `decrypt_and_hash`.
    Payload(Seq<u8>),
}

/// `v` after `op`, for a peer that sends (`sends`) or receives the payloads.
pub open spec fn peer_step(v: SymmetricStateView, op: HandshakeOp, sends: bool) -> SymmetricStateView {
    match op {
        HandshakeOp::MixHash(d) => after_mix_hash(v, d),
        HandshakeOp::MixKey(k) => after_mix_key(v, k),
        HandshakeOp::MixKeyAndHash(k) => after_mix_key_and_hash(v, k),
        HandshakeOp::Payload(p) => if sends {
            after_encrypt_and_hash(v, p)
        } else {
            after_decrypt_and_hash(v, sealed_payload(v, p))
        },
    }
}

/// `v` after `ops`, where `sends[i]` tells whether this peer sends the
/// payload of `ops[i]`.
pub open spec fn peer_run(v: SymmetricStateView, ops: Seq<HandshakeOp>, sends: Seq<bool>) -> SymmetricStateView
    decreases ops.len(),
{
    if ops.len() == 0 || sends.len() == 0 {
        v
    } else {
        peer_run(peer_step(v, ops[0], sends[0]), ops.drop_first(), sends.drop_first())
    }
}

/// Two peers that start from the same state and apply the same operations,
/// each payload encrypted by one and decrypted by the other, end with the
/// same state: the same handshake hash, and `split` gives both the same two
/// transport cipher states.
pub proof fn lemma_peers_in_lockstep(
    v: SymmetricStateView,
    ops: Seq<HandshakeOp>,
    sends_a: Seq<bool>,
    sends_b: Seq<bool>,
)
    requires
        sends_a.len() == ops.len(),
        sends_b.len() == ops.len(),
    ensures
        peer_run(v, ops, sends_a) == peer_run(v, ops, sends_b),
        peer_run(v, ops, sends_a).h == peer_run(v, ops, sends_b).h,
        split_of(peer_run(v, ops, sends_a)) == split_of(peer_run(v, ops, sends_b)),
    decreases ops.len(),
{
    if ops.len() > 0 {
        assert(peer_step(v, ops[0], sends_a[0]) == peer_step(v, ops[0], sends_b[0]));
        lemma_peers_in_lockstep(
            peer_step(v, ops[0], sends_a[0]),
            ops.drop_first(),
            sends_a.drop_first(),
            sends_b.drop_first(),
        );
    }
}

} // verus!
