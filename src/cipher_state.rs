//! The cipher state: a key and a little-endian nonce counter, used for
//! authenticated encryption in one direction.
use vstd::prelude::*;

use crate::crypto::{copy_bytes, aead_decrypt, aead_encrypt, aead_open, aead_seal, MAX_PLAINTEXT, TAGLEN};

verus! {

/// Why a decryption failed.
#[derive(Debug, Clone, Copy, PartialEq, Eq, Structural)]
pub enum CipherError {
    /// The tag did not authenticate the ciphertext and associated data.
    AuthenticationFailure,
    /// The nonce reached its largest value: no further message can be
    /// encrypted or decrypted under this key.
    NonceExhausted,
    /// The ciphertext is longer than any encryption produces.
    CiphertextTooLong,
}

/// The nonce `s` (least significant byte first) plus one, wrapping to zero
/// past the largest value.
pub open spec fn le_increment(s: Seq<u8>) -> Seq<u8>
    decreases s.len(),
{
    if s.len() == 0 {
        s
    } else if s[0] == 255 {
        seq![0u8] + le_increment(s.drop_first())
    } else {
        seq![(s[0] + 1) as u8] + s.drop_first()
    }
}

/// The number that the bytes `s` encode, least significant byte first.
pub open spec fn le_value(s: Seq<u8>) -> nat
    decreases s.len(),
{
    if s.len() == 0 {
        0
    } else {
        s[0] as nat + 256 * le_value(s.drop_first())
    }
}

/// Incrementing a nonce that is not at its largest value adds one to the
/// number it encodes, so successive operations never reuse a nonce.
pub proof fn lemma_nonce_increases(s: Seq<u8>)
    requires
        exists|j: int| 0 <= j < s.len() && s[j] != 255,
    ensures
        le_value(le_increment(s)) == le_value(s) + 1,
    decreases s.len(),
{
    let j = choose|j: int| 0 <= j < s.len() && s[j] != 255;
    let t = s.drop_first();
    if s[0] == 255 {
        assert(j > 0);
        assert(t[j - 1] != 255);
        lemma_nonce_increases(t);
        let r = le_increment(s);
        assert(r[0] == 0u8);
        assert(r.drop_first() =~= le_increment(t));
    } else {
        let r = le_increment(s);
        assert(r.drop_first() =~= t);
    }
}

/// The nonce of a freshly keyed state.
pub open spec fn zero_nonce() -> Seq<u8> {
    Seq::new(32, |i: int| 0u8)
}

/// The all-ones nonce that rekeying encrypts under.
pub open spec fn max_nonce() -> Seq<u8> {
    Seq::new(32, |i: int| 255u8)
}

/// The key that rekeying derives from `k`: the first 32 bytes of the
/// encryption of 32 zero bytes under the largest nonce, with no associated data.
pub open spec fn rekeyed(k: Seq<u8>) -> Seq<u8> {
    aead_seal(k, max_nonce(), seq![], zero_nonce()).take(32)
}

/// A keyed state whose nonce is at its largest value, so that the next
/// operation would reuse a nonce.
pub open spec fn exhausted(v: CipherStateView) -> bool {
    v.key is Some && v.nonce == max_nonce()
}

/// In a keyed state that is not exhausted, the next operation's nonce is
/// one more than the current one: nonces strictly increase and never repeat
/// under one key.
pub proof fn lemma_nonce_strictly_increases(v: CipherStateView)
    requires
        v.key is Some,
        v.nonce.len() == 32,
        !exhausted(v),
    ensures
        le_value(advanced(v).nonce) == le_value(v.nonce) + 1,
{
    if forall|j: int| 0 <= j < v.nonce.len() ==> v.nonce[j] == 255 {
        assert(v.nonce =~= max_nonce());
    }
    lemma_nonce_increases(v.nonce);
}

/// A keyed state is handed a ciphertext longer than any encryption
/// produces (the longest plaintext plus the tag).
pub open spec fn oversized(v: CipherStateView, ciphertext: Seq<u8>) -> bool {
    v.key is Some && ciphertext.len() >= MAX_PLAINTEXT + TAGLEN
}

/// What a cipher state holds: its key, if it has one, and its nonce.
pub ghost struct CipherStateView {
    pub key: Option<Seq<u8>>,
    pub nonce: Seq<u8>,
}

/// The nonce that the next operation under `v` uses.
pub open spec fn next_nonce(v: CipherStateView) -> Seq<u8> {
    le_increment(v.nonce)
}

/// `v` after an operation that consumed a nonce.
pub open spec fn advanced(v: CipherStateView) -> CipherStateView {
    match v.key {
        Some(_) => CipherStateView { key: v.key, nonce: le_increment(v.nonce) },
        None => v,
    }
}

/// What encryption under `v` returns: the plaintext itself without a key.
pub open spec fn encrypt_output(v: CipherStateView, ad: Seq<u8>, plaintext: Seq<u8>) -> Seq<u8> {
    match v.key {
        Some(k) => aead_seal(k, next_nonce(v), ad, plaintext),
        None => plaintext,
    }
}

/// What decryption under `v` returns: the ciphertext itself without a key,
/// `None` when authentication fails.
pub open spec fn decrypt_output(v: CipherStateView, ad: Seq<u8>, ciphertext: Seq<u8>) -> Option<
    Seq<u8>,
> {
    match v.key {
        Some(k) => aead_open(k, next_nonce(v), ad, ciphertext),
        None => Some(ciphertext),
    }
}

/// The key `k` and nonce `n` of a party, used to encrypt or decrypt one
/// direction of traffic.
pub struct CipherState {
    k: [u8; 32],
    n: [u8; 32],
    keyed: bool,
}

impl View for CipherState {
    type V = CipherStateView;

    closed spec fn view(&self) -> CipherStateView {
        CipherStateView { key: if self.keyed { Some(self.k@) } else { None }, nonce: self.n@ }
    }
}

/// Every cipher state's nonce is 32 bytes long.
pub proof fn lemma_nonce_len(c: &CipherState)
    ensures
        c@.nonce.len() == 32,
{
}

impl CipherState {
    /// A state without a key: encryption and decryption pass data through.
    pub fn new() -> (r: Self)
        ensures
            r@.key is None,
            r@.nonce == zero_nonce(),
    {
        let r = CipherState { k: [0u8; 32], n: [0u8; 32], keyed: false };
        assert(r@.nonce =~= zero_nonce());
        r
    }

    /// A state keyed with `k`, nonce zero.
    pub fn init(k: [u8; 32]) -> (r: Self)
        ensures
            r@.key == Some(k@),
            r@.nonce == zero_nonce(),
    {
        let r = CipherState { k, n: [0u8; 32], keyed: true };
        assert(r@.nonce =~= zero_nonce());
        r
    }

    /// Sets the key and resets the nonce to zero.
    pub fn init_key(&mut self, key: [u8; 32])
        ensures
            final(self)@.key == Some(key@),
            final(self)@.nonce == zero_nonce(),
    {
        self.k = key;
        self.n = [0u8; 32];
        self.keyed = true;
        assert(self@.nonce =~= zero_nonce());
    }

    /// The key bytes (all zero while there is no key).
    pub fn key_bytes(&self) -> (r: [u8; 32])
        ensures
            self@.key is Some ==> r@ == self@.key->Some_0,
    {
        self.k
    }

    /// Whether a key was set.
    pub fn has_key(&self) -> (r: bool)
        ensures
            r == self@.key is Some,
    {
        self.keyed
    }

    /// Sets the nonce.
    pub fn set_nonce(&mut self, nonce: [u8; 32])
        ensures
            final(self)@ == (CipherStateView { key: old(self)@.key, nonce: nonce@ }),
    {
        self.n = nonce;
    }

    /// Adds one to the nonce, carrying from the least significant byte.
    pub(crate) fn increase_nonce_le(&mut self)
        ensures
            final(self)@ == (CipherStateView { key: old(self)@.key, nonce: le_increment(old(self)@.nonce) }),
    {
        let ghost n0 = self.n@;
        let mut i: usize = 0;
        let mut carry = true;
        assert(n0.skip(0) =~= n0);
        assert(self.n@.take(0) + le_increment(n0.skip(0)) =~= le_increment(n0));
        while carry && i < 32
            invariant
                i <= 32,
                self.k == old(self).k,
                self.keyed == old(self).keyed,
                n0 == old(self).n@,
                carry ==> self.n@.skip(i as int) == n0.skip(i as int),
                carry ==> self.n@.take(i as int) + le_increment(n0.skip(i as int)) == le_increment(n0),
                !carry ==> self.n@ == le_increment(n0),
            decreases 32 - i + (if carry { 1int } else { 0int }),
        {
            let ghost rest = n0.skip(i as int);
            let ghost before = self.n@;
            assert(rest[0] == self.n[i as int]);
            assert(rest.drop_first() =~= n0.skip(i + 1));
            if self.n[i] == 255 {
                self.n[i] = 0;
                assert(self.n@.skip(i + 1) =~= before.skip(i + 1));
                assert(self.n@.take(i + 1) =~= before.take(i as int) + seq![0u8]);
                assert(self.n@.take(i + 1) + le_increment(n0.skip(i + 1)) =~= before.take(i as int)
                    + le_increment(rest));
                i = i + 1;
            } else {
                self.n[i] = self.n[i] + 1;
                assert(self.n@ =~= before.take(i as int) + le_increment(rest));
                carry = false;
            }
        }
        if carry {
            assert(n0.skip(32) =~= Seq::<u8>::empty());
            assert(self.n@.take(32) =~= self.n@);
        }
    }

    /// Replaces the key by the one derived from it; the nonce is kept. A state
    /// without a key is left as it is.
    pub fn rekey(&mut self)
        ensures
            old(self)@.key is None ==> final(self)@ == old(self)@,
            old(self)@.key is Some ==> final(self)@ == (CipherStateView {
                key: Some(rekeyed(old(self)@.key->Some_0)),
                nonce: old(self)@.nonce,
            }),
    {
        if !self.keyed {
            return;
        }
        let top = [255u8; 32];
        let zeros = [0u8; 32];
        let empty: [u8; 0] = [];
        let sealed = aead_encrypt(&self.k, &top, empty.as_slice(), zeros.as_slice());
        assert(top@ =~= max_nonce());
        assert(zeros@ =~= zero_nonce());
        assert(empty@ =~= Seq::<u8>::empty());
        let mut k = [0u8; 32];
        let mut i: usize = 0;
        while i < 32
            invariant
                i <= 32,
                sealed@.len() == 64,
                forall|j: int| 0 <= j < i ==> k@[j] == sealed@[j],
            decreases 32 - i,
        {
            k[i] = sealed[i];
            i = i + 1;
        }
        assert(k@ =~= sealed@.take(32));
        self.k = k;
    }

    /// Encrypts `plaintext` with `ad` as associated data under the next
    /// nonce. Without a key the plaintext comes back unchanged and the nonce
    /// stays. Refused, with the state unchanged, once the nonce is at its
    /// largest value.
    pub fn encrypt_with_ad(&mut self, ad: &[u8], plaintext: &[u8]) -> (r: Result<Vec<u8>, CipherError>)
        requires
            plaintext@.len() < MAX_PLAINTEXT,
        ensures
            exhausted(old(self)@) ==> r == Err::<Vec<u8>, CipherError>(CipherError::NonceExhausted)
                && final(self)@ == old(self)@,
            !exhausted(old(self)@) ==> r is Ok && r->Ok_0@ == encrypt_output(old(self)@, ad@, plaintext@)
                && final(self)@ == advanced(old(self)@),
    {
        if !self.keyed {
            return Ok(copy_bytes(plaintext));
        }
        if self.nonce_exhausted() {
            return Err(CipherError::NonceExhausted);
        }
        self.increase_nonce_le();
        Ok(aead_encrypt(&self.k, &self.n, ad, plaintext))
    }

    /// Whether the state is keyed and its nonce is at its largest value.
    pub fn nonce_exhausted(&self) -> (r: bool)
        ensures
            r == exhausted(self@),
    {
        if !self.keyed {
            return false;
        }
        let mut i: usize = 0;
        while i < 32
            invariant
                i <= 32,
                forall|j: int| 0 <= j < i ==> self.n@[j] == 255,
            decreases 32 - i,
        {
            if self.n[i] != 255 {
                assert(self.n@[i as int] != max_nonce()[i as int]);
                return false;
            }
            i = i + 1;
        }
        assert(self.n@ =~= max_nonce());
        true
    }

    /// Decrypts `ciphertext` with `ad` as associated data under the next
    /// nonce. Without a key the ciphertext comes back unchanged. When
    /// authentication fails the nonce is rolled back, so that the call can
    /// be retried on other input. Refused, with the state unchanged, once the
    /// nonce is at its largest value, and for a ciphertext longer than any
    /// encryption produces.
    pub fn decrypt_with_ad(&mut self, ad: &[u8], ciphertext: &[u8]) -> (r: Result<Vec<u8>, CipherError>)
        ensures
            exhausted(old(self)@) ==> r == Err::<Vec<u8>, CipherError>(CipherError::NonceExhausted)
                && final(self)@ == old(self)@,
            !exhausted(old(self)@) && oversized(old(self)@, ciphertext@) ==> r == Err::<
                Vec<u8>,
                CipherError,
            >(CipherError::CiphertextTooLong) && final(self)@ == old(self)@,
            !exhausted(old(self)@) && !oversized(old(self)@, ciphertext@) && decrypt_output(
                old(self)@,
                ad@,
                ciphertext@,
            ) is Some ==> r is Ok && Some(r->Ok_0@)
                == decrypt_output(old(self)@, ad@, ciphertext@) && final(self)@ == advanced(
                old(self)@,
            ),
            !exhausted(old(self)@) && !oversized(old(self)@, ciphertext@) && decrypt_output(
                old(self)@,
                ad@,
                ciphertext@,
            ) is None ==> r == Err::<Vec<u8>, CipherError>(
                CipherError::AuthenticationFailure,
            ) && final(self)@ == old(self)@,
            forall|p: Seq<u8>|
                !exhausted(old(self)@) && !oversized(old(self)@, ciphertext@) && ciphertext@
                    == #[trigger] encrypt_output(old(self)@, ad@, p)
                    ==> r is Ok && r->Ok_0@ == p,
            old(self)@.key is Some && ciphertext@.len() < TAGLEN ==> r is Err,
            old(self)@.key is Some && r is Ok ==> r->Ok_0@.len() + TAGLEN == ciphertext@.len(),
    {
        if !self.keyed {
            return Ok(copy_bytes(ciphertext));
        }
        if self.nonce_exhausted() {
            return Err(CipherError::NonceExhausted);
        }
        if ciphertext.len() as u64 >= MAX_PLAINTEXT + TAGLEN as u64 {
            return Err(CipherError::CiphertextTooLong);
        }
        let saved = self.n;
        self.increase_nonce_le();
        match aead_decrypt(&self.k, &self.n, ad, ciphertext) {
            Some(plaintext) => Ok(plaintext),
            None => {
                self.n = saved;
                Err(CipherError::AuthenticationFailure)
            },
        }
    }
}

impl Drop for CipherState {
    /// Zeroes the key and the nonce before the state is released.
    fn drop(&mut self)
        opens_invariants none
        no_unwind
    {
        let mut i: usize = 0;
        while i < 32
            invariant
                i <= 32,
            decreases 32 - i,
        {
            self.k[i] = 0;
            self.n[i] = 0;
            i = i + 1;
        }
        self.keyed = false;
    }
}

} // verus!
