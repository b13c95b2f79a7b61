//! The handshake state: runs the token sequence of a handshake pattern over
//! a symmetric state and the parties' keys, one message at a time, and
//! splits into the two transport cipher states at the end.
use vstd::prelude::*;
use vstd::string::StringSliceAdditionalSpecFns;

use crate::cipher_state::{decrypt_output, exhausted, oversized, CipherError, CipherState, CipherStateView};
use crate::crypto::{
    copy_bytes, copy_range, dh, generate_keypair, public_key, x25519_of, DHLEN, MAX_PLAINTEXT,
    X25519_BASEPOINT,
};
use crate::symmetric_state::{
    after_decrypt_and_hash, after_encrypt_and_hash, after_mix_hash, after_mix_key,
    after_mix_key_and_hash, initialized, sealed_payload, split_of, SymmetricState,
    SymmetricStateView,
};

verus! {

/// A token of a message pattern.
#[derive(Debug, Clone, Copy, PartialEq, Eq)]
pub enum Tokens {
    /// The sender's ephemeral public key.
    E,
    /// The sender's static public key, encrypted once a key is mixed in.
    S,
    Ee,
    Es,
    Se,
    Ss,
    /// The pre-shared key is mixed in.
    Psk(u8),
}

/// The tokens of one message.
#[derive(Debug, Clone, PartialEq, Eq)]
pub struct MessagePattern(pub Vec<Tokens>);

/// A key known before the handshake starts.
#[derive(Debug, Clone, Copy, PartialEq, Eq)]
pub enum PubKey {
    Static,
}

/// The keys known before the first message.
#[derive(Debug, Clone, Copy, PartialEq, Eq)]
pub struct PreMessagePattern {
    pub responder_static: Option<PubKey>,
}

/// A handshake pattern: its name, pre-message and messages, each marked
/// with whether the initiator sends it.
#[derive(Debug, Clone, PartialEq, Eq)]
pub struct HandshakePattern {
    pub name: &'static str,
    pub pre: PreMessagePattern,
    pub messages: Vec<(bool, MessagePattern)>,
}

/// Why a handshake message could not be written or read.
#[derive(Debug, Clone, Copy, PartialEq, Eq, Structural)]
pub enum HandshakeError {
    /// A token needs a remote key that is not known yet.
    MissingKey,
    /// A `psk` token, and no pre-shared key was given.
    MissingPsk,
    /// The message ends before a token's bytes.
    MessageTooShort,
    /// A static key or the payload did not authenticate.
    AuthenticationFailure,
    /// Every message of the pattern was already processed, or the next one
    /// is the peer's to send.
    WrongTurn,
    /// The cipher state's nonce is at its largest value.
    NonceExhausted,
    /// The payload is longer than any encryption produces.
    MessageTooLong,
}

/// A secret key and its public key.
pub open spec fn is_keypair(secret: Seq<u8>, public: Seq<u8>) -> bool {
    public == x25519_of(secret, X25519_BASEPOINT@)
}

/// The local static and ephemeral key pairs, each `(secret, public)`.
pub struct LocalKey {
    s: ([u8; 32], [u8; 32]),
    e: ([u8; 32], [u8; 32]),
}

impl LocalKey {
    pub closed spec fn static_secret(&self) -> Seq<u8> {
        self.s.0@
    }

    pub closed spec fn static_public(&self) -> Seq<u8> {
        self.s.1@
    }

    pub closed spec fn ephemeral_secret(&self) -> Seq<u8> {
        self.e.0@
    }

    pub closed spec fn ephemeral_public(&self) -> Seq<u8> {
        self.e.1@
    }

    /// Each public key belongs to its secret.
    pub open spec fn wf(&self) -> bool {
        is_keypair(self.static_secret(), self.static_public()) && is_keypair(
            self.ephemeral_secret(),
            self.ephemeral_public(),
        )
    }

    /// Fresh random static and ephemeral key pairs.
    pub fn new() -> (r: Self)
        ensures
            r.wf(),
    {
        let s = generate_keypair();
        let e = generate_keypair();
        LocalKey { s, e }
    }

    /// Both key pairs from their secrets.
    pub fn from_secrets(s: [u8; 32], e: [u8; 32]) -> (r: Self)
        ensures
            r.wf(),
            r.static_secret() == s@,
            r.ephemeral_secret() == e@,
    {
        let s_pub = public_key(&s);
        let e_pub = public_key(&e);
        LocalKey { s: (s, s_pub), e: (e, e_pub) }
    }

    /// Replaces the static key pair by the one of `s`.
    pub fn set_s(&mut self, s: [u8; 32])
        ensures
            final(self).static_secret() == s@,
            is_keypair(final(self).static_secret(), final(self).static_public()),
            final(self).ephemeral_secret() == old(self).ephemeral_secret(),
            final(self).ephemeral_public() == old(self).ephemeral_public(),
    {
        let p = public_key(&s);
        self.s = (s, p);
    }

    /// Replaces the ephemeral key pair by the one of `e`.
    pub fn set_e(&mut self, e: [u8; 32])
        ensures
            final(self).ephemeral_secret() == e@,
            is_keypair(final(self).ephemeral_secret(), final(self).ephemeral_public()),
            final(self).static_secret() == old(self).static_secret(),
            final(self).static_public() == old(self).static_public(),
    {
        let p = public_key(&e);
        self.e = (e, p);
    }
}

impl Drop for LocalKey {
    /// Zeroes both secret keys before they are released.
    fn drop(&mut self)
        opens_invariants none
        no_unwind
    {
        let mut i: usize = 0;
        while i < 32
            invariant
                i <= 32,
            decreases 32 - i,
        {
            self.s.0[i] = 0;
            self.e.0[i] = 0;
            i = i + 1;
        }
    }
}

/// The peer's public keys, as far as they are known. Only public keys are
/// ever held here.
pub struct RemoteKey {
    s: Option<[u8; 32]>,
    e: Option<[u8; 32]>,
}

/// The view of an optional key.
pub open spec fn key_view(k: Option<[u8; 32]>) -> Option<Seq<u8>> {
    match k {
        Some(a) => Some(a@),
        None => None,
    }
}

impl RemoteKey {
    pub closed spec fn static_public(&self) -> Option<Seq<u8>> {
        key_view(self.s)
    }

    pub closed spec fn ephemeral_public(&self) -> Option<Seq<u8>> {
        key_view(self.e)
    }

    /// The given public keys.
    pub fn new(s: Option<[u8; 32]>, e: Option<[u8; 32]>) -> (r: Self)
        ensures
            r.static_public() == key_view(s),
            r.ephemeral_public() == key_view(e),
    {
        RemoteKey { s, e }
    }

    /// Records the peer's static public key.
    pub fn set_s(&mut self, s: [u8; 32])
        ensures
            final(self).static_public() == Some(s@),
            final(self).ephemeral_public() == old(self).ephemeral_public(),
    {
        self.s = Some(s);
    }

    /// Records the peer's ephemeral public key.
    pub fn set_e(&mut self, e: [u8; 32])
        ensures
            final(self).ephemeral_public() == Some(e@),
            final(self).static_public() == old(self).static_public(),
    {
        self.e = Some(e);
    }

    /// Whether the peer's static public key is known.
    pub fn has_s(&self) -> (r: bool)
        ensures
            r == self.static_public() is Some,
    {
        self.s.is_some()
    }

    /// Whether the peer's ephemeral public key is known.
    pub fn has_e(&self) -> (r: bool)
        ensures
            r == self.ephemeral_public() is Some,
    {
        self.e.is_some()
    }
}

/// The local key pairs and the peer's public keys.
pub struct Keys {
    pub local_key: LocalKey,
    pub remote_key: RemoteKey,
}

impl Keys {
    /// Local key pairs from their secrets `(static, ephemeral)`, and the
    /// peer's public keys `(static, ephemeral)` where known.
    pub fn new(locals: ([u8; 32], [u8; 32]), remotes: (Option<[u8; 32]>, Option<[u8; 32]>)) -> (r: Self)
        ensures
            r.local_key.wf(),
            r.local_key.static_secret() == locals.0@,
            r.local_key.ephemeral_secret() == locals.1@,
            r.remote_key.static_public() == key_view(remotes.0),
            r.remote_key.ephemeral_public() == key_view(remotes.1),
    {
        Keys {
            local_key: LocalKey::from_secrets(locals.0, locals.1),
            remote_key: RemoteKey::new(remotes.0, remotes.1),
        }
    }
}

/// What a handshake state holds.
pub ghost struct HandshakeView {
    pub sym: SymmetricStateView,
    pub s: Seq<u8>,
    pub s_pub: Seq<u8>,
    pub e: Seq<u8>,
    pub e_pub: Seq<u8>,
    pub rs: Option<Seq<u8>>,
    pub re: Option<Seq<u8>>,
    pub psk: Option<Seq<u8>>,
    pub initiator: bool,
    pub psk_mode: bool,
}

/// `v` with its symmetric state replaced.
pub open spec fn with_sym(v: HandshakeView, sym: SymmetricStateView) -> HandshakeView {
    HandshakeView { sym, ..v }
}

/// The local secret and the remote public key that a Diffie-Hellman token
/// combines, or `None` when the remote key is not known.
pub open spec fn dh_operands(v: HandshakeView, t: Tokens) -> Option<(Seq<u8>, Seq<u8>)> {
    let pick = |secret: Seq<u8>, remote: Option<Seq<u8>>|
        match remote {
            Some(r) => Some((secret, r)),
            None => None,
        };
    match t {
        Tokens::Ee => pick(v.e, v.re),
        Tokens::Es => if v.initiator {
            pick(v.e, v.rs)
        } else {
            pick(v.s, v.re)
        },
        Tokens::Se => if v.initiator {
            pick(v.s, v.re)
        } else {
            pick(v.e, v.rs)
        },
        _ => pick(v.s, v.rs),
    }
}

/// The effect of a token that carries no bytes (a Diffie-Hellman or `psk`
/// token).
pub open spec fn mix_token(v: HandshakeView, t: Tokens) -> Result<HandshakeView, HandshakeError> {
    match t {
        Tokens::Psk(_) => match v.psk {
            Some(k) => Ok(with_sym(v, after_mix_key_and_hash(v.sym, k))),
            None => Err(HandshakeError::MissingPsk),
        },
        _ => match dh_operands(v, t) {
            Some((secret, remote)) => Ok(with_sym(v, after_mix_key(v.sym, x25519_of(secret, remote)))),
            None => Err(HandshakeError::MissingKey),
        },
    }
}

/// The symmetric state after an ephemeral key `e_pub` is sent or received.
pub open spec fn after_ephemeral(sym: SymmetricStateView, e_pub: Seq<u8>, psk_mode: bool) -> SymmetricStateView {
    if psk_mode {
        after_mix_key(after_mix_hash(sym, e_pub), e_pub)
    } else {
        after_mix_hash(sym, e_pub)
    }
}

/// Writing token `t` from `v`: the new state and the bytes it adds.
pub open spec fn write_token_spec(v: HandshakeView, t: Tokens) -> Result<(HandshakeView, Seq<u8>), HandshakeError> {
    match t {
        Tokens::E => Ok((with_sym(v, after_ephemeral(v.sym, v.e_pub, v.psk_mode)), v.e_pub)),
        Tokens::S => if exhausted(v.sym.cipher) {
            Err(HandshakeError::NonceExhausted)
        } else {
            Ok((with_sym(v, after_encrypt_and_hash(v.sym, v.s_pub)), sealed_payload(v.sym, v.s_pub)))
        },
        _ => match mix_token(v, t) {
            Ok(w) => Ok((w, seq![])),
            Err(e) => Err(e),
        },
    }
}

/// `r` with `out` put before its bytes.
pub open spec fn prepend(out: Seq<u8>, r: Result<(HandshakeView, Seq<u8>), HandshakeError>) -> Result<
    (HandshakeView, Seq<u8>),
    HandshakeError,
> {
    match r {
        Ok((w, o)) => Ok((w, out + o)),
        Err(e) => Err(e),
    }
}

/// Writing the tokens `ts` in order from `v`.
pub open spec fn write_tokens_spec(v: HandshakeView, ts: Seq<Tokens>) -> Result<(HandshakeView, Seq<u8>), HandshakeError>
    decreases ts.len(),
{
    if ts.len() == 0 {
        Ok((v, seq![]))
    } else {
        match write_token_spec(v, ts[0]) {
            Ok((w, o)) => prepend(o, write_tokens_spec(w, ts.drop_first())),
            Err(e) => Err(e),
        }
    }
}

/// The number of bytes a static key occupies in a message: the key, and a
/// tag once the cipher state has a key.
pub open spec fn static_len(v: HandshakeView) -> nat {
    if v.sym.cipher.key is Some {
        64
    } else {
        32
    }
}

/// Reading token `t` from the message bytes `m`: the new state and the
/// bytes that remain.
pub open spec fn read_token_spec(v: HandshakeView, t: Tokens, m: Seq<u8>) -> Result<(HandshakeView, Seq<u8>), HandshakeError> {
    match t {
        Tokens::E => if m.len() < DHLEN {
            Err(HandshakeError::MessageTooShort)
        } else {
            let re = m.take(32);
            Ok(
                (
                    HandshakeView { sym: after_ephemeral(v.sym, re, v.psk_mode), re: Some(re), ..v },
                    m.skip(32),
                ),
            )
        },
        Tokens::S => if m.len() < static_len(v) {
            Err(HandshakeError::MessageTooShort)
        } else if exhausted(v.sym.cipher) {
            Err(HandshakeError::NonceExhausted)
        } else {
            let c = m.take(static_len(v) as int);
            match decrypt_output(v.sym.cipher, v.sym.h, c) {
                Some(p) => Ok(
                    (
                        HandshakeView { sym: after_decrypt_and_hash(v.sym, c), rs: Some(p), ..v },
                        m.skip(static_len(v) as int),
                    ),
                ),
                None => Err(HandshakeError::AuthenticationFailure),
            }
        },
        _ => match mix_token(v, t) {
            Ok(w) => Ok((w, m)),
            Err(e) => Err(e),
        },
    }
}

/// Reading the tokens `ts` in order from `v` and the bytes `m`.
pub open spec fn read_tokens_spec(v: HandshakeView, ts: Seq<Tokens>, m: Seq<u8>) -> Result<(HandshakeView, Seq<u8>), HandshakeError>
    decreases ts.len(),
{
    if ts.len() == 0 {
        Ok((v, m))
    } else {
        match read_token_spec(v, ts[0], m) {
            Ok((w, rest)) => read_tokens_spec(w, ts.drop_first(), rest),
            Err(e) => Err(e),
        }
    }
}

/// Whether a message of `ms` holds a `psk` token.
pub open spec fn has_psk(ms: Seq<(bool, Seq<Tokens>)>) -> bool {
    exists|i: int, j: int|
        0 <= i < ms.len() && 0 <= j < ms[i].1.len() && ms[i].1[j] is Psk
}

impl HandshakePattern {
    /// The messages: who sends each, and its tokens.
    pub open spec fn spec_messages(&self) -> Seq<(bool, Seq<Tokens>)> {
        Seq::new(self.messages@.len(), |i: int| (self.messages@[i].0, self.messages@[i].1.0@))
    }
}

/// One party's run of a handshake pattern.
pub struct HandshakeState {
    symmetric_state: SymmetricState,
    keys: Keys,
    initiator: bool,
    messages: Vec<(bool, MessagePattern)>,
    psk: Option<[u8; 32]>,
    psk_mode: bool,
    cursor: usize,
}

impl HandshakeState {
    pub closed spec fn spec_view(&self) -> HandshakeView {
        HandshakeView {
            sym: self.symmetric_state@,
            s: self.keys.local_key.static_secret(),
            s_pub: self.keys.local_key.static_public(),
            e: self.keys.local_key.ephemeral_secret(),
            e_pub: self.keys.local_key.ephemeral_public(),
            rs: self.keys.remote_key.static_public(),
            re: self.keys.remote_key.ephemeral_public(),
            psk: key_view(self.psk),
            initiator: self.initiator,
            psk_mode: self.psk_mode,
        }
    }

    /// The messages of the pattern being run.
    pub closed spec fn spec_messages(&self) -> Seq<(bool, Seq<Tokens>)> {
        Seq::new(self.messages@.len(), |i: int| (self.messages@[i].0, self.messages@[i].1.0@))
    }

    /// How many messages were written or read.
    pub closed spec fn spec_cursor(&self) -> nat {
        self.cursor as nat
    }

    /// Whether this party writes the next message.
    pub open spec fn my_turn(&self) -> bool {
        self.spec_cursor() < self.spec_messages().len() && self.spec_messages()[self.spec_cursor() as int].0
            == self.spec_view().initiator
    }

    /// Whether the peer writes the next message.
    pub open spec fn peer_turn(&self) -> bool {
        self.spec_cursor() < self.spec_messages().len() && self.spec_messages()[self.spec_cursor() as int].0
            != self.spec_view().initiator
    }

    /// The tokens of the next message.
    pub open spec fn next_tokens(&self) -> Seq<Tokens> {
        self.spec_messages()[self.spec_cursor() as int].1
    }
}

proof fn lemma_prepend_twice(a: Seq<u8>, b: Seq<u8>, r: Result<(HandshakeView, Seq<u8>), HandshakeError>)
    ensures
        prepend(a, prepend(b, r)) == prepend(a + b, r),
{
    match r {
        Ok((w, o)) => {
            assert(a + (b + o) =~= (a + b) + o);
        },
        Err(_) => {},
    }
}

/// A copy of the tokens `ts`.
fn copy_tokens(ts: &Vec<Tokens>) -> (r: Vec<Tokens>)
    ensures
        r@ == ts@,
{
    let mut r: Vec<Tokens> = Vec::new();
    let mut i: usize = 0;
    while i < ts.len()
        invariant
            i <= ts@.len(),
            r@ == ts@.take(i as int),
        decreases ts@.len() - i,
    {
        r.push(ts[i]);
        assert(ts@.take(i + 1) =~= ts@.take(i as int).push(ts@[i as int]));
        i = i + 1;
    }
    assert(ts@.take(ts@.len() as int) =~= ts@);
    r
}

/// Whether some message of `ms` holds a `psk` token.
fn pattern_has_psk(ms: &Vec<(bool, MessagePattern)>) -> (r: bool)
    ensures
        r == has_psk(Seq::new(ms@.len(), |i: int| (ms@[i].0, ms@[i].1.0@))),
{
    let ghost spec_ms = Seq::new(ms@.len(), |i: int| (ms@[i].0, ms@[i].1.0@));
    let mut i: usize = 0;
    while i < ms.len()
        invariant
            i <= ms@.len(),
            spec_ms == Seq::new(ms@.len(), |i: int| (ms@[i].0, ms@[i].1.0@)),
            forall|a: int, b: int|
                0 <= a < i && 0 <= b < spec_ms[a].1.len() ==> !(spec_ms[a].1[b] is Psk),
        decreases ms@.len() - i,
    {
        let ts = &ms[i].1.0;
        let mut j: usize = 0;
        while j < ts.len()
            invariant
                i < ms@.len(),
                j <= ts@.len(),
                ts@ == spec_ms[i as int].1,
                spec_ms == Seq::new(ms@.len(), |i: int| (ms@[i].0, ms@[i].1.0@)),
                forall|b: int| 0 <= b < j ==> !(spec_ms[i as int].1[b] is Psk),
            decreases ts@.len() - j,
        {
            if let Tokens::Psk(_) = ts[j] {
                assert(spec_ms[i as int].1[j as int] is Psk);
                return true;
            }
            j = j + 1;
        }
        i = i + 1;
    }
    false
}

impl HandshakeState {
    /// Starts a run of `handshake_pattern` as initiator or responder: the
    /// symmetric state is initialized with `protocol_name`, the prologue is
    /// mixed into the hash, then the responder's static key when the pattern
    /// has it as a pre-message. Fails when the initiator does not know that key.
    pub fn init(
        protocol_name: &str,
        handshake_pattern: HandshakePattern,
        initiator: bool,
        prologue: &[u8],
        keys: Keys,
        psk: Option<[u8; 32]>,
    ) -> (r: Result<HandshakeState, HandshakeError>)
        ensures
            ({
                let sym0 = after_mix_hash(initialized(protocol_name.spec_bytes()), prologue@);
                let pre_key = if initiator {
                    keys.remote_key.static_public()
                } else {
                    Some(keys.local_key.static_public())
                };
                if handshake_pattern.pre.responder_static is Some && pre_key is None {
                    r == Err::<HandshakeState, HandshakeError>(HandshakeError::MissingKey)
                } else {
                    let sym1 = if handshake_pattern.pre.responder_static is Some {
                        after_mix_hash(sym0, pre_key->Some_0)
                    } else {
                        sym0
                    };
                    r is Ok && r->Ok_0.spec_view() == (HandshakeView {
                        sym: sym1,
                        s: keys.local_key.static_secret(),
                        s_pub: keys.local_key.static_public(),
                        e: keys.local_key.ephemeral_secret(),
                        e_pub: keys.local_key.ephemeral_public(),
                        rs: keys.remote_key.static_public(),
                        re: keys.remote_key.ephemeral_public(),
                        psk: key_view(psk),
                        initiator,
                        psk_mode: has_psk(handshake_pattern.spec_messages()),
                    }) && r->Ok_0.spec_messages() == handshake_pattern.spec_messages()
                        && r->Ok_0.spec_cursor() == 0
                }
            }),
    {
        let mut symmetric_state = SymmetricState::new();
        symmetric_state.init(protocol_name);
        symmetric_state.mix_hash(prologue);
        if handshake_pattern.pre.responder_static.is_some() {
            if initiator {
                match keys.remote_key.s {
                    Some(rs) => symmetric_state.mix_hash(rs.as_slice()),
                    None => {
                        return Err(HandshakeError::MissingKey);
                    },
                }
            } else {
                symmetric_state.mix_hash(keys.local_key.s.1.as_slice());
            }
        }
        let psk_mode = pattern_has_psk(&handshake_pattern.messages);
        Ok(HandshakeState {
            symmetric_state,
            keys,
            initiator,
            messages: handshake_pattern.messages,
            psk,
            psk_mode,
            cursor: 0,
        })
    }

    /// The secret and remote public key that a Diffie-Hellman token combines.
    fn dh_pair(&self, t: Tokens) -> (r: Option<([u8; 32], [u8; 32])>)
        ensures
            match dh_operands(self.spec_view(), t) {
                Some((a, b)) => r is Some && r->Some_0.0@ == a && r->Some_0.1@ == b,
                None => r is None,
            },
    {
        let s = self.keys.local_key.s.0;
        let e = self.keys.local_key.e.0;
        let rs = self.keys.remote_key.s;
        let re = self.keys.remote_key.e;
        let (secret, remote) = match t {
            Tokens::Ee => (e, re),
            Tokens::Es => if self.initiator {
                (e, rs)
            } else {
                (s, re)
            },
            Tokens::Se => if self.initiator {
                (s, re)
            } else {
                (e, rs)
            },
            _ => (s, rs),
        };
        match remote {
            Some(k) => Some((secret, k)),
            None => None,
        }
    }

    /// Applies a token that carries no bytes.
    fn mix_token(&mut self, t: Tokens) -> (r: Result<(), HandshakeError>)
        requires
            !(t is E) && !(t is S),
        ensures
            final(self).spec_messages() == old(self).spec_messages(),
            final(self).spec_cursor() == old(self).spec_cursor(),
            match mix_token(old(self).spec_view(), t) {
                Ok(w) => r is Ok && final(self).spec_view() == w,
                Err(e) => r == Err::<(), HandshakeError>(e),
            },
    {
        if let Tokens::Psk(_) = t {
            match self.psk {
                Some(k) => {
                    self.symmetric_state.mix_key_and_hash(k.as_slice());
                    return Ok(());
                },
                None => {
                    return Err(HandshakeError::MissingPsk);
                },
            }
        }
        match self.dh_pair(t) {
            Some((secret, remote)) => {
                let shared = dh(&secret, &remote);
                self.symmetric_state.mix_key(shared.as_slice());
                Ok(())
            },
            None => Err(HandshakeError::MissingKey),
        }
    }

    /// Writes token `t`, appending its bytes to `out`.
    fn write_token(&mut self, t: Tokens, out: &mut Vec<u8>) -> (r: Result<(), HandshakeError>)
        ensures
            final(self).spec_messages() == old(self).spec_messages(),
            final(self).spec_cursor() == old(self).spec_cursor(),
            match write_token_spec(old(self).spec_view(), t) {
                Ok((w, o)) => r is Ok && final(self).spec_view() == w && final(out)@ == old(out)@ + o,
                Err(e) => r == Err::<(), HandshakeError>(e),
            },
    {
        match t {
            Tokens::E => {
                let e_pub = self.keys.local_key.e.1;
                let mut bytes = copy_bytes(e_pub.as_slice());
                out.append(&mut bytes);
                self.symmetric_state.mix_hash(e_pub.as_slice());
                if self.psk_mode {
                    self.symmetric_state.mix_key(e_pub.as_slice());
                }
                Ok(())
            },
            Tokens::S => {
                let s_pub = self.keys.local_key.s.1;
                match self.symmetric_state.encrypt_and_hash(s_pub.as_slice()) {
                    Ok(ct) => {
                        let mut ct = ct;
                        out.append(&mut ct);
                        Ok(())
                    },
                    Err(_) => Err(HandshakeError::NonceExhausted),
                }
            },
            _ => self.mix_token(t),
        }
    }

    /// Reads token `t` from `m` at `pos`, returning where the rest starts.
    fn read_token(&mut self, t: Tokens, m: &[u8], pos: usize) -> (r: Result<usize, HandshakeError>)
        requires
            pos <= m@.len(),
        ensures
            final(self).spec_messages() == old(self).spec_messages(),
            final(self).spec_cursor() == old(self).spec_cursor(),
            match read_token_spec(old(self).spec_view(), t, m@.skip(pos as int)) {
                Ok((w, rest)) => r is Ok && final(self).spec_view() == w && pos <= r->Ok_0 <= m@.len()
                    && m@.skip(r->Ok_0 as int) == rest,
                Err(e) => r == Err::<usize, HandshakeError>(e),
            },
    {
        let ghost rest = m@.skip(pos as int);
        match t {
            Tokens::E => {
                if m.len() - pos < DHLEN {
                    return Err(HandshakeError::MessageTooShort);
                }
                let mut re = [0u8; 32];
                let mut i: usize = 0;
                while i < 32
                    invariant
                        i <= 32,
                        pos + 32 <= m@.len(),
                        m@.len() <= usize::MAX,
                        forall|j: int| 0 <= j < i ==> re@[j] == m@[pos + j],
                    decreases 32 - i,
                {
                    re[i] = m[pos + i];
                    i = i + 1;
                }
                assert(re@ =~= rest.take(32));
                self.symmetric_state.mix_hash(re.as_slice());
                if self.psk_mode {
                    self.symmetric_state.mix_key(re.as_slice());
                }
                self.keys.remote_key.e = Some(re);
                assert(m@.skip(pos + 32) =~= rest.skip(32));
                Ok(pos + 32)
            },
            Tokens::S => {
                let n: usize = if self.symmetric_state.has_key() {
                    64
                } else {
                    32
                };
                if m.len() - pos < n {
                    return Err(HandshakeError::MessageTooShort);
                }
                let c = copy_range(m, pos, pos + n);
                assert(c@ =~= rest.take(n as int));
                match self.symmetric_state.decrypt_and_hash(c.as_slice()) {
                    Ok(p) => {
                        assert(p@.len() == 32);
                        let mut rs = [0u8; 32];
                        let mut i: usize = 0;
                        while i < 32
                            invariant
                                i <= 32,
                                p@.len() == 32,
                                forall|j: int| 0 <= j < i ==> rs@[j] == p@[j],
                            decreases 32 - i,
                        {
                            rs[i] = p[i];
                            i = i + 1;
                        }
                        assert(rs@ =~= p@);
                        self.keys.remote_key.s = Some(rs);
                        assert(m@.skip(pos + n) =~= rest.skip(n as int));
                        Ok(pos + n)
                    },
                    Err(CipherError::NonceExhausted) => Err(HandshakeError::NonceExhausted),
                    Err(CipherError::CiphertextTooLong) => Err(HandshakeError::MessageTooLong),
                    Err(CipherError::AuthenticationFailure) => Err(
                        HandshakeError::AuthenticationFailure,
                    ),
                }
            },
            _ => {
                match self.mix_token(t) {
                    Ok(()) => Ok(pos),
                    Err(e) => Err(e),
                }
            },
        }
    }
}

impl HandshakeState {
    /// Writes the next message: its tokens, then `payload` encrypted (or as
    /// it is while there is no key). Refused when the next message is the
    /// peer's or every message was processed.
    pub fn write_message(&mut self, payload: &[u8]) -> (r: Result<Vec<u8>, HandshakeError>)
        requires
            payload@.len() < MAX_PLAINTEXT,
        ensures
            !old(self).my_turn() ==> r == Err::<Vec<u8>, HandshakeError>(HandshakeError::WrongTurn)
                && final(self).spec_view() == old(self).spec_view(),
            old(self).my_turn() ==> match write_tokens_spec(
                old(self).spec_view(),
                old(self).next_tokens(),
            ) {
                Ok((w, o)) => if exhausted(w.sym.cipher) {
                    r == Err::<Vec<u8>, HandshakeError>(HandshakeError::NonceExhausted)
                } else {
                    r is Ok && r->Ok_0@ == o + sealed_payload(w.sym, payload@)
                    && final(self).spec_view() == with_sym(w, after_encrypt_and_hash(w.sym, payload@))
                    && final(self).spec_cursor() == old(self).spec_cursor() + 1
                    && final(self).spec_messages() == old(self).spec_messages()
                },
                Err(e) => r == Err::<Vec<u8>, HandshakeError>(e),
            },
    {
        if self.cursor >= self.messages.len() || self.messages[self.cursor].0 != self.initiator {
            return Err(HandshakeError::WrongTurn);
        }
        let tokens = copy_tokens(&self.messages[self.cursor].1.0);
        let ghost v0 = self.spec_view();
        let ghost ts = tokens@;
        let ghost msgs = self.spec_messages();
        let ghost cur = self.spec_cursor();
        let mut out: Vec<u8> = Vec::new();
        let mut i: usize = 0;
        assert(ts.skip(0) =~= ts);
        assert(prepend(seq![], write_tokens_spec(v0, ts)) == write_tokens_spec(v0, ts)) by {
            match write_tokens_spec(v0, ts) {
                Ok((w, o)) => {
                    assert(Seq::<u8>::empty() + o =~= o);
                },
                Err(_) => {},
            }
        }
        while i < tokens.len()
            invariant
                i <= ts.len(),
                ts == tokens@,
                self.spec_messages() == msgs,
                self.spec_cursor() == cur,
                v0 == old(self).spec_view(),
                msgs == old(self).spec_messages(),
                cur == old(self).spec_cursor(),
                old(self).my_turn(),
                ts == old(self).next_tokens(),
                write_tokens_spec(v0, ts) == prepend(out@, write_tokens_spec(self.spec_view(), ts.skip(i as int))),
            decreases ts.len() - i,
        {
            let ghost before = self.spec_view();
            let ghost out0 = out@;
            let ghost rest = ts.skip(i as int);
            assert(rest[0] == ts[i as int]);
            assert(rest.drop_first() =~= ts.skip(i + 1));
            match self.write_token(tokens[i], &mut out) {
                Ok(()) => {
                    proof {
                        match write_token_spec(before, ts[i as int]) {
                            Ok((w, o)) => {
                                assert(write_tokens_spec(before, rest) == prepend(
                                    o,
                                    write_tokens_spec(w, ts.skip(i + 1)),
                                ));
                                lemma_prepend_twice(out0, o, write_tokens_spec(w, ts.skip(i + 1)));
                            },
                            Err(_) => {},
                        }
                    }
                },
                Err(e) => {
                    return Err(e);
                },
            }
            i = i + 1;
        }
        assert(ts.skip(ts.len() as int) =~= Seq::<Tokens>::empty());
        match self.symmetric_state.encrypt_and_hash(payload) {
            Ok(ct) => {
                let mut ct = ct;
                out.append(&mut ct);
                self.cursor = self.cursor + 1;
                Ok(out)
            },
            Err(_) => Err(HandshakeError::NonceExhausted),
        }
    }

    /// Reads the next message: its tokens, then the payload, which is
    /// returned decrypted. Refused when the next message is this party's or
    /// every message was processed.
    pub fn read_message(&mut self, message: &[u8]) -> (r: Result<Vec<u8>, HandshakeError>)
        ensures
            !old(self).peer_turn() ==> r == Err::<Vec<u8>, HandshakeError>(HandshakeError::WrongTurn)
                && final(self).spec_view() == old(self).spec_view(),
            old(self).peer_turn() ==> match read_tokens_spec(
                old(self).spec_view(),
                old(self).next_tokens(),
                message@,
            ) {
                Ok((w, rest)) => if exhausted(w.sym.cipher) {
                    r == Err::<Vec<u8>, HandshakeError>(HandshakeError::NonceExhausted)
                } else if oversized(w.sym.cipher, rest) {
                    r == Err::<Vec<u8>, HandshakeError>(HandshakeError::MessageTooLong)
                } else {
                    match decrypt_output(w.sym.cipher, w.sym.h, rest) {
                    Some(p) => r is Ok && r->Ok_0@ == p && final(self).spec_view() == with_sym(
                        w,
                        after_decrypt_and_hash(w.sym, rest),
                    ) && final(self).spec_cursor() == old(self).spec_cursor() + 1
                        && final(self).spec_messages() == old(self).spec_messages(),
                    None => r == Err::<Vec<u8>, HandshakeError>(HandshakeError::AuthenticationFailure),
                    }
                },
                Err(e) => r == Err::<Vec<u8>, HandshakeError>(e),
            },
    {
        if self.cursor >= self.messages.len() || self.messages[self.cursor].0 == self.initiator {
            return Err(HandshakeError::WrongTurn);
        }
        let tokens = copy_tokens(&self.messages[self.cursor].1.0);
        let ghost v0 = self.spec_view();
        let ghost ts = tokens@;
        let ghost msgs = self.spec_messages();
        let ghost cur = self.spec_cursor();
        let mut pos: usize = 0;
        let mut i: usize = 0;
        assert(ts.skip(0) =~= ts);
        assert(message@.skip(0) =~= message@);
        while i < tokens.len()
            invariant
                i <= ts.len(),
                ts == tokens@,
                pos <= message@.len(),
                self.spec_messages() == msgs,
                self.spec_cursor() == cur,
                v0 == old(self).spec_view(),
                msgs == old(self).spec_messages(),
                cur == old(self).spec_cursor(),
                old(self).peer_turn(),
                ts == old(self).next_tokens(),
                read_tokens_spec(v0, ts, message@) == read_tokens_spec(
                    self.spec_view(),
                    ts.skip(i as int),
                    message@.skip(pos as int),
                ),
            decreases ts.len() - i,
        {
            let ghost rest = ts.skip(i as int);
            assert(rest[0] == ts[i as int]);
            assert(rest.drop_first() =~= ts.skip(i + 1));
            match self.read_token(tokens[i], message, pos) {
                Ok(next) => {
                    pos = next;
                },
                Err(e) => {
                    return Err(e);
                },
            }
            i = i + 1;
        }
        assert(ts.skip(ts.len() as int) =~= Seq::<Tokens>::empty());
        let rest = copy_range(message, pos, message.len());
        assert(rest@ =~= message@.skip(pos as int));
        match self.symmetric_state.decrypt_and_hash(rest.as_slice()) {
            Ok(p) => {
                self.cursor = self.cursor + 1;
                Ok(p)
            },
            Err(CipherError::NonceExhausted) => Err(HandshakeError::NonceExhausted),
            Err(CipherError::CiphertextTooLong) => Err(HandshakeError::MessageTooLong),
            Err(CipherError::AuthenticationFailure) => Err(HandshakeError::AuthenticationFailure),
        }
    }

    /// Whether every message of the pattern was written or read.
    pub fn is_finished(&self) -> (r: bool)
        ensures
            r == (self.spec_cursor() >= self.spec_messages().len()),
    {
        self.cursor >= self.messages.len()
    }

    /// The handshake hash.
    pub fn get_handshake_hash(&self) -> (r: [u8; 32])
        ensures
            r@ == self.spec_view().sym.h,
    {
        self.symmetric_state.get_handshake_hash()
    }

    /// The two transport cipher states: the initiator sends with the first
    /// and receives with the second, the responder the other way round.
    pub fn split(&self) -> (r: (CipherState, CipherState))
        ensures
            (r.0@, r.1@) == split_of(self.spec_view().sym),
    {
        self.symmetric_state.split()
    }
}

impl HandshakePattern {
    /// A pattern from its parts.
    pub fn new(name: &'static str, pre: PreMessagePattern, messages: Vec<(bool, MessagePattern)>) -> (r: Self)
        ensures
            r.name == name,
            r.pre == pre,
            r.messages == messages,
    {
        HandshakePattern { name, pre, messages }
    }

    /// `IKpsk2`: the responder's static key is known in advance;
    /// `-> e, es, s, ss` then `<- e, ee, se, psk`.
    pub fn ik_psk2() -> (r: Self)
        ensures
            r.pre.responder_static == Some(PubKey::Static),
            r.spec_messages() == seq![
                (true, seq![Tokens::E, Tokens::Es, Tokens::S, Tokens::Ss]),
                (false, seq![Tokens::E, Tokens::Ee, Tokens::Se, Tokens::Psk(2)]),
            ],
    {
        let m1 = MessagePattern(vec![Tokens::E, Tokens::Es, Tokens::S, Tokens::Ss]);
        let m2 = MessagePattern(vec![Tokens::E, Tokens::Ee, Tokens::Se, Tokens::Psk(2)]);
        let r = HandshakePattern {
            name: "IKpsk2",
            pre: PreMessagePattern { responder_static: Some(PubKey::Static) },
            messages: vec![(true, m1), (false, m2)],
        };
        assert(r.spec_messages() =~~= seq![
            (true, seq![Tokens::E, Tokens::Es, Tokens::S, Tokens::Ss]),
            (false, seq![Tokens::E, Tokens::Ee, Tokens::Se, Tokens::Psk(2)]),
        ]);
        r
    }

    /// `XXpsk3`: no key known in advance; `-> e`, `<- e, ee, s, es`, then
    /// `-> s, se, psk`.
    pub fn xx_psk3() -> (r: Self)
        ensures
            r.pre.responder_static is None,
            r.spec_messages() == seq![
                (true, seq![Tokens::E]),
                (false, seq![Tokens::E, Tokens::Ee, Tokens::S, Tokens::Es]),
                (true, seq![Tokens::S, Tokens::Se, Tokens::Psk(3)]),
            ],
    {
        let m1 = MessagePattern(vec![Tokens::E]);
        let m2 = MessagePattern(vec![Tokens::E, Tokens::Ee, Tokens::S, Tokens::Es]);
        let m3 = MessagePattern(vec![Tokens::S, Tokens::Se, Tokens::Psk(3)]);
        let r = HandshakePattern {
            name: "XXpsk3",
            pre: PreMessagePattern { responder_static: None },
            messages: vec![(true, m1), (false, m2), (true, m3)],
        };
        assert(r.spec_messages() =~~= seq![
            (true, seq![Tokens::E]),
            (false, seq![Tokens::E, Tokens::Ee, Tokens::S, Tokens::Es]),
            (true, seq![Tokens::S, Tokens::Se, Tokens::Psk(3)]),
        ]);
        r
    }
}

} // verus!
