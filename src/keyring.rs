//! Key slots of a pattern session: raw local and remote key bytes, each with
//! a flag that records whether it is known.
use vstd::prelude::*;

use crate::grammar::Tokens;
use crate::steps::Role;

verus! {

/// The local static and ephemeral keys.
#[derive(Debug, Default, PartialEq, Eq)]
pub struct LocalKeys {
    pub ls: Vec<u8>,
    pub le: Vec<u8>,
    pub has_ls: bool,
    pub has_le: bool,
}

/// The remote static and ephemeral public keys.
#[derive(Debug, Default, PartialEq, Eq)]
pub struct RemoteKeys {
    pub rs: Vec<u8>,
    pub re: Vec<u8>,
    pub has_rs: bool,
    pub has_re: bool,
}

/// Both key sets.
#[derive(Debug, Default, PartialEq, Eq)]
pub struct Keys {
    pub local_keys: LocalKeys,
    pub remote_keys: RemoteKeys,
}

impl LocalKeys {
    /// No keys, none known.
    pub fn empty() -> (r: Self)
        ensures
            r.ls@.len() == 0,
            r.le@.len() == 0,
            !r.has_ls,
            !r.has_le,
    {
        LocalKeys { ls: Vec::new(), le: Vec::new(), has_ls: false, has_le: false }
    }
}

impl RemoteKeys {
    /// No keys, none known.
    pub fn empty() -> (r: Self)
        ensures
            r.rs@.len() == 0,
            r.re@.len() == 0,
            !r.has_rs,
            !r.has_re,
    {
        RemoteKeys { rs: Vec::new(), re: Vec::new(), has_rs: false, has_re: false }
    }
}

impl Keys {
    /// No keys, none known.
    pub fn new() -> (r: Self)
        ensures
            r.local_keys.ls@.len() == 0,
            r.local_keys.le@.len() == 0,
            r.remote_keys.rs@.len() == 0,
            r.remote_keys.re@.len() == 0,
            !r.local_keys.has_ls,
            !r.local_keys.has_le,
            !r.remote_keys.has_rs,
            !r.remote_keys.has_re,
    {
        Keys { local_keys: LocalKeys::empty(), remote_keys: RemoteKeys::empty() }
    }

    /// Stores the local ephemeral key.
    pub fn set_local_ephemeral(&mut self, le: Vec<u8>)
        ensures
            final(self).local_keys.le == le,
            final(self).local_keys.ls == old(self).local_keys.ls,
            final(self).remote_keys.re == old(self).remote_keys.re,
            final(self).remote_keys.rs == old(self).remote_keys.rs,
            final(self).local_keys.has_le == old(self).local_keys.has_le,
            final(self).local_keys.has_ls == old(self).local_keys.has_ls,
            final(self).remote_keys.has_re == old(self).remote_keys.has_re,
            final(self).remote_keys.has_rs == old(self).remote_keys.has_rs,
    {
        self.local_keys.le = le;
    }

    /// Stores the local static key.
    pub fn set_local_static(&mut self, ls: Vec<u8>)
        ensures
            final(self).local_keys.ls == ls,
            final(self).local_keys.le == old(self).local_keys.le,
            final(self).remote_keys.re == old(self).remote_keys.re,
            final(self).remote_keys.rs == old(self).remote_keys.rs,
            final(self).local_keys.has_le == old(self).local_keys.has_le,
            final(self).local_keys.has_ls == old(self).local_keys.has_ls,
            final(self).remote_keys.has_re == old(self).remote_keys.has_re,
            final(self).remote_keys.has_rs == old(self).remote_keys.has_rs,
    {
        self.local_keys.ls = ls;
    }

    /// Stores the peer's ephemeral key.
    pub fn set_remote_ephemeral(&mut self, re: Vec<u8>)
        ensures
            final(self).remote_keys.re == re,
            final(self).local_keys.le == old(self).local_keys.le,
            final(self).local_keys.ls == old(self).local_keys.ls,
            final(self).remote_keys.rs == old(self).remote_keys.rs,
            final(self).local_keys.has_le == old(self).local_keys.has_le,
            final(self).local_keys.has_ls == old(self).local_keys.has_ls,
            final(self).remote_keys.has_re == old(self).remote_keys.has_re,
            final(self).remote_keys.has_rs == old(self).remote_keys.has_rs,
    {
        self.remote_keys.re = re;
    }

    /// Stores the peer's static key.
    pub fn set_remote_static(&mut self, rs: Vec<u8>)
        ensures
            final(self).remote_keys.rs == rs,
            final(self).local_keys.le == old(self).local_keys.le,
            final(self).local_keys.ls == old(self).local_keys.ls,
            final(self).remote_keys.re == old(self).remote_keys.re,
            final(self).local_keys.has_le == old(self).local_keys.has_le,
            final(self).local_keys.has_ls == old(self).local_keys.has_ls,
            final(self).remote_keys.has_re == old(self).remote_keys.has_re,
            final(self).remote_keys.has_rs == old(self).remote_keys.has_rs,
    {
        self.remote_keys.rs = rs;
    }

    /// Records that the local ephemeral key is known.
    pub fn set_has_local_ephemeral(&mut self)
        ensures
            final(self).local_keys.has_le,
            final(self).local_keys.has_ls == old(self).local_keys.has_ls,
            final(self).remote_keys.has_re == old(self).remote_keys.has_re,
            final(self).remote_keys.has_rs == old(self).remote_keys.has_rs,
            final(self).local_keys.le == old(self).local_keys.le,
            final(self).local_keys.ls == old(self).local_keys.ls,
            final(self).remote_keys.re == old(self).remote_keys.re,
            final(self).remote_keys.rs == old(self).remote_keys.rs,
    {
        self.local_keys.has_le = true;
    }

    /// Records that the local static key is known.
    pub fn set_has_local_static(&mut self)
        ensures
            final(self).local_keys.has_ls,
            final(self).local_keys.has_le == old(self).local_keys.has_le,
            final(self).remote_keys.has_re == old(self).remote_keys.has_re,
            final(self).remote_keys.has_rs == old(self).remote_keys.has_rs,
            final(self).local_keys.le == old(self).local_keys.le,
            final(self).local_keys.ls == old(self).local_keys.ls,
            final(self).remote_keys.re == old(self).remote_keys.re,
            final(self).remote_keys.rs == old(self).remote_keys.rs,
    {
        self.local_keys.has_ls = true;
    }

    /// Records that the peer's ephemeral key is known.
    pub fn set_has_remote_ephemeral(&mut self)
        ensures
            final(self).remote_keys.has_re,
            final(self).local_keys.has_le == old(self).local_keys.has_le,
            final(self).local_keys.has_ls == old(self).local_keys.has_ls,
            final(self).remote_keys.has_rs == old(self).remote_keys.has_rs,
            final(self).local_keys.le == old(self).local_keys.le,
            final(self).local_keys.ls == old(self).local_keys.ls,
            final(self).remote_keys.re == old(self).remote_keys.re,
            final(self).remote_keys.rs == old(self).remote_keys.rs,
    {
        self.remote_keys.has_re = true;
    }

    /// Records that the peer's static key is known.
    pub fn set_has_remote_static(&mut self)
        ensures
            final(self).remote_keys.has_rs,
            final(self).local_keys.has_le == old(self).local_keys.has_le,
            final(self).local_keys.has_ls == old(self).local_keys.has_ls,
            final(self).remote_keys.has_re == old(self).remote_keys.has_re,
            final(self).local_keys.le == old(self).local_keys.le,
            final(self).local_keys.ls == old(self).local_keys.ls,
            final(self).remote_keys.re == old(self).remote_keys.re,
            final(self).remote_keys.rs == old(self).remote_keys.rs,
    {
        self.remote_keys.has_rs = true;
    }

    /// Whether the local ephemeral key is known.
    pub fn has_local_ephemeral(&self) -> (r: bool)
        ensures
            r == self.local_keys.has_le,
    {
        self.local_keys.has_le
    }

    /// Whether the local static key is known.
    pub fn has_local_static(&self) -> (r: bool)
        ensures
            r == self.local_keys.has_ls,
    {
        self.local_keys.has_ls
    }

    /// Whether the peer's ephemeral key is known.
    pub fn has_remote_ephemeral(&self) -> (r: bool)
        ensures
            r == self.remote_keys.has_re,
    {
        self.remote_keys.has_re
    }

    /// Whether the peer's static key is known.
    pub fn has_remote_static(&self) -> (r: bool)
        ensures
            r == self.remote_keys.has_rs,
    {
        self.remote_keys.has_rs
    }
}

/// A handshake name's tokens, the role played, and the keys.
pub struct Session {
    pub pattern: Vec<Tokens>,
    pub role: Role,
    pub keys: Keys,
}

impl Session {
    /// A session with no keys yet.
    pub fn new(pattern: Vec<Tokens>, role: Role) -> (r: Self)
        ensures
            r.pattern == pattern,
            r.role == role,
            !r.keys.local_keys.has_ls,
            !r.keys.local_keys.has_le,
            !r.keys.remote_keys.has_rs,
            !r.keys.remote_keys.has_re,
    {
        Session { pattern, role, keys: Keys::new() }
    }

    /// Whether the local ephemeral key is known.
    pub fn has_local_ephemeral(&self) -> (r: bool)
        ensures
            r == self.keys.local_keys.has_le,
    {
        self.keys.has_local_ephemeral()
    }

    /// Whether the local static key is known.
    pub fn has_local_static(&self) -> (r: bool)
        ensures
            r == self.keys.local_keys.has_ls,
    {
        self.keys.has_local_static()
    }

    /// Whether the peer's ephemeral key is known.
    pub fn has_remote_ephemeral(&self) -> (r: bool)
        ensures
            r == self.keys.remote_keys.has_re,
    {
        self.keys.has_remote_ephemeral()
    }

    /// Whether the peer's static key is known.
    pub fn has_remote_static(&self) -> (r: bool)
        ensures
            r == self.keys.remote_keys.has_rs,
    {
        self.keys.has_remote_static()
    }

    /// Stores the local ephemeral key.
    pub fn set_local_ephemeral(&mut self, le: Vec<u8>)
        ensures
            final(self).keys.local_keys.le == le,
            final(self).pattern == old(self).pattern,
            final(self).role == old(self).role,
            final(self).keys.local_keys.ls == old(self).keys.local_keys.ls,
            final(self).keys.remote_keys.re == old(self).keys.remote_keys.re,
            final(self).keys.remote_keys.rs == old(self).keys.remote_keys.rs,
            final(self).keys.local_keys.has_le == old(self).keys.local_keys.has_le,
            final(self).keys.local_keys.has_ls == old(self).keys.local_keys.has_ls,
            final(self).keys.remote_keys.has_re == old(self).keys.remote_keys.has_re,
            final(self).keys.remote_keys.has_rs == old(self).keys.remote_keys.has_rs,
    {
        self.keys.local_keys.le = le;
    }

    /// Stores the local static key.
    pub fn set_local_static(&mut self, ls: Vec<u8>)
        ensures
            final(self).keys.local_keys.ls == ls,
            final(self).pattern == old(self).pattern,
            final(self).role == old(self).role,
            final(self).keys.local_keys.le == old(self).keys.local_keys.le,
            final(self).keys.remote_keys.re == old(self).keys.remote_keys.re,
            final(self).keys.remote_keys.rs == old(self).keys.remote_keys.rs,
            final(self).keys.local_keys.has_le == old(self).keys.local_keys.has_le,
            final(self).keys.local_keys.has_ls == old(self).keys.local_keys.has_ls,
            final(self).keys.remote_keys.has_re == old(self).keys.remote_keys.has_re,
            final(self).keys.remote_keys.has_rs == old(self).keys.remote_keys.has_rs,
    {
        self.keys.local_keys.ls = ls;
    }

    /// Stores the peer's ephemeral key.
    pub fn set_remote_ephemeral(&mut self, re: Vec<u8>)
        ensures
            final(self).keys.remote_keys.re == re,
            final(self).pattern == old(self).pattern,
            final(self).role == old(self).role,
            final(self).keys.local_keys.le == old(self).keys.local_keys.le,
            final(self).keys.local_keys.ls == old(self).keys.local_keys.ls,
            final(self).keys.remote_keys.rs == old(self).keys.remote_keys.rs,
            final(self).keys.local_keys.has_le == old(self).keys.local_keys.has_le,
            final(self).keys.local_keys.has_ls == old(self).keys.local_keys.has_ls,
            final(self).keys.remote_keys.has_re == old(self).keys.remote_keys.has_re,
            final(self).keys.remote_keys.has_rs == old(self).keys.remote_keys.has_rs,
    {
        self.keys.remote_keys.re = re;
    }

    /// Stores the peer's static key.
    pub fn set_remote_static(&mut self, rs: Vec<u8>)
        ensures
            final(self).keys.remote_keys.rs == rs,
            final(self).pattern == old(self).pattern,
            final(self).role == old(self).role,
            final(self).keys.local_keys.le == old(self).keys.local_keys.le,
            final(self).keys.local_keys.ls == old(self).keys.local_keys.ls,
            final(self).keys.remote_keys.re == old(self).keys.remote_keys.re,
            final(self).keys.local_keys.has_le == old(self).keys.local_keys.has_le,
            final(self).keys.local_keys.has_ls == old(self).keys.local_keys.has_ls,
            final(self).keys.remote_keys.has_re == old(self).keys.remote_keys.has_re,
            final(self).keys.remote_keys.has_rs == old(self).keys.remote_keys.has_rs,
    {
        self.keys.remote_keys.rs = rs;
    }

    /// The local ephemeral key, as stored.
    pub fn get_local_ephemeral(&self) -> (r: &[u8])
        ensures
            r@ == self.keys.local_keys.le@,
    {
        self.keys.local_keys.le.as_slice()
    }

    /// The local static key, as stored.
    pub fn get_local_static(&self) -> (r: &[u8])
        ensures
            r@ == self.keys.local_keys.ls@,
    {
        self.keys.local_keys.ls.as_slice()
    }

    /// The peer's ephemeral key, as stored.
    pub fn get_remote_ephemeral(&self) -> (r: &[u8])
        ensures
            r@ == self.keys.remote_keys.re@,
    {
        self.keys.remote_keys.re.as_slice()
    }

    /// The peer's static key, as stored.
    pub fn get_remote_static(&self) -> (r: &[u8])
        ensures
            r@ == self.keys.remote_keys.rs@,
    {
        self.keys.remote_keys.rs.as_slice()
    }
}

} // verus!
