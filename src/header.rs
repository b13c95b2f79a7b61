//! Packet headers of the transport: a long form that carries both
//! connection IDs, and a short form with a variable-length packet number.
use vstd::prelude::*;

use crate::crypto::{copy_bytes, copy_range};

verus! {

/// Why a header could not be read.
#[derive(Debug, Clone, Copy, PartialEq, Eq, Structural)]
pub enum HeaderError {
    BufferTooShort,
    InvalidCidLength,
    InvalidPacketType,
}

/// A protocol version number.
#[derive(Debug, Clone, Copy, PartialEq, Eq, Structural)]
pub struct Version(pub u32);

/// A connection ID.
#[derive(Debug, Clone, PartialEq, Eq)]
pub struct ConnectionId {
    pub cid: Vec<u8>,
}

impl ConnectionId {
    /// The empty connection ID.
    pub fn empty() -> (r: Self)
        ensures
            r.cid@.len() == 0,
    {
        ConnectionId { cid: Vec::new() }
    }

    /// Its length in bytes.
    pub fn len(&self) -> (r: usize)
        ensures
            r == self.cid@.len(),
    {
        self.cid.len()
    }
}

/// The packet types of the long header.
#[derive(Debug, Clone, Copy, PartialEq, Eq, Structural)]
pub enum LongPacketType {
    Initial,
    ZeroRtt,
    Handshake,
    Retry,
    VersionNegotiation,
}

/// The type code written for `t` (version negotiation shares code 0).
pub open spec fn type_code(t: LongPacketType) -> u8 {
    match t {
        LongPacketType::Initial => 0,
        LongPacketType::ZeroRtt => 1,
        LongPacketType::Handshake => 2,
        LongPacketType::Retry => 3,
        LongPacketType::VersionNegotiation => 0,
    }
}

/// The packet type whose code is in the low seven bits of `b`.
pub open spec fn type_of_byte(b: u8) -> Option<LongPacketType> {
    let c = b & 0x7f;
    if c == 0 {
        Some(LongPacketType::Initial)
    } else if c == 1 {
        Some(LongPacketType::ZeroRtt)
    } else if c == 2 {
        Some(LongPacketType::Handshake)
    } else if c == 3 {
        Some(LongPacketType::Retry)
    } else {
        None
    }
}

impl LongPacketType {
    /// The packet type coded in the low seven bits of `b`.
    pub fn from_byte(b: u8) -> (r: Result<LongPacketType, HeaderError>)
        ensures
            match type_of_byte(b) {
                Some(t) => r == Ok::<LongPacketType, HeaderError>(t),
                None => r == Err::<LongPacketType, HeaderError>(HeaderError::InvalidPacketType),
            },
    {
        let c = b & 0x7f;
        if c == 0 {
            Ok(LongPacketType::Initial)
        } else if c == 1 {
            Ok(LongPacketType::ZeroRtt)
        } else if c == 2 {
            Ok(LongPacketType::Handshake)
        } else if c == 3 {
            Ok(LongPacketType::Retry)
        } else {
            Err(HeaderError::InvalidPacketType)
        }
    }
}

impl vstd::std_specs::convert::TryFromSpecImpl<u8> for LongPacketType {
    open spec fn obeys_try_from_spec() -> bool {
        true
    }

    open spec fn try_from_spec(b: u8) -> Result<LongPacketType, HeaderError> {
        match type_of_byte(b) {
            Some(t) => Ok(t),
            None => Err(HeaderError::InvalidPacketType),
        }
    }
}

impl std::convert::TryFrom<u8> for LongPacketType {
    type Error = HeaderError;

    fn try_from(b: u8) -> Result<Self, Self::Error> {
        LongPacketType::from_byte(b)
    }
}

/// The four bytes of `v`, most significant first.
pub open spec fn be32(v: u32) -> Seq<u8> {
    seq![(v >> 24u32) as u8, (v >> 16u32) as u8, (v >> 8u32) as u8, v as u8]
}

/// The number that the four bytes of `b` at `i` spell, most significant first.
pub open spec fn read_be32(b: Seq<u8>, i: int) -> u32 {
    ((b[i] as u32) << 24u32) | ((b[i + 1] as u32) << 16u32) | ((b[i + 2] as u32) << 8u32) | (b[i
        + 3] as u32)
}

/// The two bytes of `v`, most significant first.
pub open spec fn be16(v: u16) -> Seq<u8> {
    seq![(v >> 8u16) as u8, v as u8]
}

/// The number that the two bytes of `b` at `i` spell, most significant first.
pub open spec fn read_be16(b: Seq<u8>, i: int) -> u16 {
    ((b[i] as u16) << 8u16) | (b[i + 1] as u16)
}

proof fn lemma_be32(v: u32)
    ensures
        read_be32(be32(v), 0) == v,
{
    let b0 = (v >> 24u32) as u8;
    let b1 = (v >> 16u32) as u8;
    let b2 = (v >> 8u32) as u8;
    let b3 = v as u8;
    assert(((b0 as u32) << 24u32) | ((b1 as u32) << 16u32) | ((b2 as u32) << 8u32) | (b3 as u32)
        == v) by (bit_vector)
        requires
            b0 == (v >> 24u32) as u8,
            b1 == (v >> 16u32) as u8,
            b2 == (v >> 8u32) as u8,
            b3 == v as u8,
    ;
}

proof fn lemma_be16(v: u16)
    ensures
        read_be16(be16(v), 0) == v,
{
    let b0 = (v >> 8u16) as u8;
    let b1 = v as u8;
    assert(((b0 as u16) << 8u16) | (b1 as u16) == v) by (bit_vector)
        requires
            b0 == (v >> 8u16) as u8,
            b1 == v as u8,
    ;
}

/// A long header.
#[derive(Debug, Clone, PartialEq, Eq)]
pub struct LongHeader {
    pub packet_type: LongPacketType,
    pub version: Version,
    pub dst_cid: ConnectionId,
    pub src_cid: ConnectionId,
    pub packet_number: u32,
    pub payload: Vec<u8>,
}

/// What a long header holds.
pub ghost struct LongHeaderView {
    pub packet_type: LongPacketType,
    pub version: u32,
    pub dst_cid: Seq<u8>,
    pub src_cid: Seq<u8>,
    pub packet_number: u32,
    pub payload: Seq<u8>,
}

impl View for LongHeader {
    type V = LongHeaderView;

    open spec fn view(&self) -> LongHeaderView {
        LongHeaderView {
            packet_type: self.packet_type,
            version: self.version.0,
            dst_cid: self.dst_cid.cid@,
            src_cid: self.src_cid.cid@,
            packet_number: self.packet_number,
            payload: self.payload@,
        }
    }
}

/// The bytes of a long header: the form bit with the type code, the
/// version, each connection ID after its length byte, the packet number and
/// the payload.
pub open spec fn long_header_bytes(h: LongHeaderView) -> Seq<u8> {
    seq![(0x80u8 | type_code(h.packet_type)) as u8] + be32(h.version) + seq![
        h.dst_cid.len() as u8,
    ] + h.dst_cid + seq![h.src_cid.len() as u8] + h.src_cid + be32(h.packet_number) + h.payload
}

/// The long header that `b` holds, or why it holds none.
pub open spec fn parse_long(b: Seq<u8>) -> Result<LongHeaderView, HeaderError> {
    if b.len() < 1 {
        Err(HeaderError::BufferTooShort)
    } else if b[0] >> 7u8 != 1 || type_of_byte(b[0]) is None {
        Err(HeaderError::InvalidPacketType)
    } else if b.len() < 6 {
        Err(HeaderError::BufferTooShort)
    } else if b.len() < 7 + b[5] {
        Err(HeaderError::BufferTooShort)
    } else if b.len() < 11 + b[5] + b[6 + b[5]] {
        Err(HeaderError::BufferTooShort)
    } else {
        let dcl = b[5] as int;
        let scl = b[6 + dcl] as int;
        Ok(
            LongHeaderView {
                packet_type: type_of_byte(b[0])->Some_0,
                version: read_be32(b, 1),
                dst_cid: b.subrange(6, 6 + dcl),
                src_cid: b.subrange(7 + dcl, 7 + dcl + scl),
                packet_number: read_be32(b, 7 + dcl + scl),
                payload: b.skip(11 + dcl + scl),
            },
        )
    }
}

/// Reading back the bytes of a long header gives the header, provided its
/// type is not version negotiation (which shares the code of `Initial`) and
/// each connection ID fits its length byte.
#[verifier::rlimit(50)]
pub proof fn lemma_long_header_round_trip(h: LongHeaderView)
    requires
        h.packet_type != LongPacketType::VersionNegotiation,
        h.dst_cid.len() <= 255,
        h.src_cid.len() <= 255,
    ensures
        parse_long(long_header_bytes(h)) == Ok::<LongHeaderView, HeaderError>(h),
{
    let b = long_header_bytes(h);
    let c = type_code(h.packet_type);
    let first = (0x80u8 | c) as u8;
    assert(first >> 7u8 == 1 && first & 0x7f == c) by (bit_vector)
        requires
            c <= 3,
            first == (0x80u8 | c) as u8,
    ;
    let dcl = h.dst_cid.len() as int;
    let scl = h.src_cid.len() as int;
    let pa = seq![first] + be32(h.version);
    let pb = pa + seq![h.dst_cid.len() as u8];
    let pc = pb + h.dst_cid;
    let pd = pc + seq![h.src_cid.len() as u8];
    let pe = pd + h.src_cid;
    let pf = pe + be32(h.packet_number);
    assert(b =~= pf + h.payload);
    assert(pa.len() == 5);
    assert(b[0] == first);
    assert(b[5] == pb[5]);
    assert(pb[5] == dcl);
    assert(b[6 + dcl] == pd[6 + dcl]);
    assert(pd[6 + dcl] == scl);
    lemma_be32(h.version);
    lemma_be32(h.packet_number);
    assert(b.subrange(1, 5) =~= be32(h.version));
    assert(read_be32(b, 1) == read_be32(be32(h.version), 0)) by {
        assert(b[1] == be32(h.version)[0]);
        assert(b[2] == be32(h.version)[1]);
        assert(b[3] == be32(h.version)[2]);
        assert(b[4] == be32(h.version)[3]);
    }
    let q = 7 + dcl + scl;
    assert(read_be32(b, q) == read_be32(be32(h.packet_number), 0)) by {
        assert(b[q] == pf[q]);
        assert(b[q + 1] == pf[q + 1]);
        assert(b[q + 2] == pf[q + 2]);
        assert(b[q + 3] == pf[q + 3]);
    }
    assert(b.subrange(6, 6 + dcl) =~= h.dst_cid) by {
        assert(b.subrange(6, 6 + dcl) =~= pc.subrange(6, 6 + dcl));
    }
    assert(b.subrange(7 + dcl, q) =~= h.src_cid) by {
        assert(b.subrange(7 + dcl, q) =~= pe.subrange(7 + dcl, q));
    }
    assert(b.skip(q + 4) =~= h.payload);
}

/// `buf` with the bytes of `v`, most significant first, appended.
fn push_be32(buf: &mut Vec<u8>, v: u32)
    ensures
        final(buf)@ == old(buf)@ + be32(v),
{
    buf.push((v >> 24) as u8);
    buf.push((v >> 16) as u8);
    buf.push((v >> 8) as u8);
    buf.push(v as u8);
    assert(final(buf)@ =~= old(buf)@ + be32(v));
}

/// `buf` with `data` appended.
fn push_all(buf: &mut Vec<u8>, data: &[u8])
    ensures
        final(buf)@ == old(buf)@ + data@,
{
    let mut tail = copy_bytes(data);
    buf.append(&mut tail);
}

/// The number that the four bytes of `b` at `i` spell, most significant first.
fn get_be32(b: &[u8], i: usize) -> (r: u32)
    requires
        i + 4 <= b@.len(),
    ensures
        r == read_be32(b@, i as int),
{
    ((b[i] as u32) << 24) | ((b[i + 1] as u32) << 16) | ((b[i + 2] as u32) << 8) | (b[i
        + 3] as u32)
}

impl LongHeader {
    /// Appends the header's bytes to `buf`.
    pub fn write(&self, buf: &mut Vec<u8>)
        ensures
            final(buf)@ == old(buf)@ + long_header_bytes(self@),
    {
        let type_byte: u8 = match self.packet_type {
            LongPacketType::Initial => 0x00,
            LongPacketType::ZeroRtt => 0x01,
            LongPacketType::Handshake => 0x02,
            LongPacketType::Retry => 0x03,
            LongPacketType::VersionNegotiation => 0x00,
        };
        buf.push(0x80 | type_byte);
        push_be32(buf, self.version.0);
        buf.push(self.dst_cid.len() as u8);
        push_all(buf, self.dst_cid.cid.as_slice());
        buf.push(self.src_cid.len() as u8);
        push_all(buf, self.src_cid.cid.as_slice());
        push_be32(buf, self.packet_number);
        push_all(buf, self.payload.as_slice());
        assert(final(buf)@ =~= old(buf)@ + long_header_bytes(self@));
    }

    /// Reads a long header from `buf`.
    pub fn try_from(buf: &[u8]) -> (r: Result<LongHeader, HeaderError>)
        ensures
            match parse_long(buf@) {
                Ok(v) => r is Ok && r->Ok_0@ == v,
                Err(e) => r is Err && r->Err_0 == e,
            },
    {
        let len = buf.len();
        if len < 1 {
            return Err(HeaderError::BufferTooShort);
        }
        let first = buf[0];
        if first >> 7 != 1 {
            return Err(HeaderError::InvalidPacketType);
        }
        let packet_type = match LongPacketType::from_byte(first) {
            Ok(t) => t,
            Err(e) => {
                return Err(e);
            },
        };
        if len < 6 {
            return Err(HeaderError::BufferTooShort);
        }
        let version = Version(get_be32(buf, 1));
        let dc_len = buf[5] as usize;
        if len < 7 + dc_len {
            return Err(HeaderError::BufferTooShort);
        }
        let dst_cid = ConnectionId { cid: copy_range(buf, 6, 6 + dc_len) };
        let sc_len = buf[6 + dc_len] as usize;
        if len < 11 + dc_len + sc_len {
            return Err(HeaderError::BufferTooShort);
        }
        let src_cid = ConnectionId { cid: copy_range(buf, 7 + dc_len, 7 + dc_len + sc_len) };
        let packet_number = get_be32(buf, 7 + dc_len + sc_len);
        let payload = copy_range(buf, 11 + dc_len + sc_len, len);
        assert(buf@.subrange(11 + dc_len + sc_len, len as int) =~= buf@.skip(11 + dc_len + sc_len));
        Ok(LongHeader { packet_type, version, dst_cid, src_cid, packet_number, payload })
    }
}

/// A short header.
#[derive(Debug, Clone, PartialEq, Eq)]
pub struct ShortHeader {
    pub key_phase: bool,
    pub dst_cid: ConnectionId,
    pub packet_number: u64,
    pub payload: Vec<u8>,
}

/// What a short header holds.
pub ghost struct ShortHeaderView {
    pub key_phase: bool,
    pub dst_cid: Seq<u8>,
    pub packet_number: u64,
    pub payload: Seq<u8>,
}

impl View for ShortHeader {
    type V = ShortHeaderView;

    open spec fn view(&self) -> ShortHeaderView {
        ShortHeaderView {
            key_phase: self.key_phase,
            dst_cid: self.dst_cid.cid@,
            packet_number: self.packet_number,
            payload: self.payload@,
        }
    }
}

/// The packet-number length bits of the first byte for `pn`.
pub open spec fn pn_bits(pn: u64) -> u8 {
    if pn < 0x100 {
        0x00
    } else if pn < 0x10000 {
        0x10
    } else {
        0x30
    }
}

/// The packet number as written: one byte below 2^8, two below 2^16, else
/// four (its low 32 bits), most significant first.
pub open spec fn pn_bytes(pn: u64) -> Seq<u8> {
    if pn < 0x100 {
        seq![pn as u8]
    } else if pn < 0x10000 {
        be16(pn as u16)
    } else {
        be32(pn as u32)
    }
}

/// The first byte of a short header.
pub open spec fn short_first_byte(key_phase: bool, pn: u64) -> u8 {
    ((if key_phase {
        0x40u8
    } else {
        0u8
    }) | pn_bits(pn)) as u8
}

/// The bytes of a short header: the first byte, the connection ID after its
/// length byte, the packet number and the payload.
pub open spec fn short_header_bytes(h: ShortHeaderView) -> Seq<u8> {
    seq![short_first_byte(h.key_phase, h.packet_number), h.dst_cid.len() as u8] + h.dst_cid
        + pn_bytes(h.packet_number) + h.payload
}

/// The packet-number length that the first byte `f` announces.
pub open spec fn pn_width(f: u8) -> int {
    ((f >> 4u8) & 3u8) as int + 1
}

/// The short header that `b` holds, or why it holds none.
pub open spec fn parse_short(b: Seq<u8>) -> Result<ShortHeaderView, HeaderError> {
    if b.len() < 1 {
        Err(HeaderError::BufferTooShort)
    } else if b[0] >> 7u8 != 0 {
        Err(HeaderError::InvalidPacketType)
    } else if b.len() < 2 || b.len() < 2 + b[1] + pn_width(b[0]) {
        Err(HeaderError::BufferTooShort)
    } else if pn_width(b[0]) == 3 {
        Err(HeaderError::InvalidPacketType)
    } else {
        let cl = b[1] as int;
        let w = pn_width(b[0]);
        Ok(
            ShortHeaderView {
                key_phase: b[0] & 0x40u8 != 0,
                dst_cid: b.subrange(2, 2 + cl),
                packet_number: if w == 1 {
                    b[2 + cl] as u64
                } else if w == 2 {
                    read_be16(b, 2 + cl) as u64
                } else {
                    read_be32(b, 2 + cl) as u64
                },
                payload: b.skip(2 + cl + w),
            },
        )
    }
}

/// Reading back the bytes of a short header gives the header, provided its
/// packet number fits in 32 bits and its connection ID fits its length byte.
#[verifier::rlimit(50)]
pub proof fn lemma_short_header_round_trip(h: ShortHeaderView)
    requires
        h.packet_number < 0x1_0000_0000,
        h.dst_cid.len() <= 255,
    ensures
        parse_short(short_header_bytes(h)) == Ok::<ShortHeaderView, HeaderError>(h),
{
    let b = short_header_bytes(h);
    let pn = h.packet_number;
    let kp: u8 = if h.key_phase {
        0x40u8
    } else {
        0u8
    };
    let bits = pn_bits(pn);
    let f = short_first_byte(h.key_phase, pn);
    assert(f == (kp | bits) as u8);
    assert(f >> 7u8 == 0 && (f & 0x40u8 != 0) == (kp == 0x40u8) && ((f >> 4u8) & 3u8) == (bits
        >> 4u8)) by (bit_vector)
        requires
            f == (kp | bits) as u8,
            kp == 0x40u8 || kp == 0u8,
            bits == 0u8 || bits == 0x10u8 || bits == 0x30u8,
    ;
    let cl = h.dst_cid.len() as int;
    let pre = seq![f, h.dst_cid.len() as u8] + h.dst_cid;
    let pb = pn_bytes(pn);
    assert(b =~= pre + pb + h.payload);
    assert(b[0] == f);
    assert(b[1] == cl);
    let w = pn_width(f);
    assert((0u8 >> 4u8) == 0u8 && (0x10u8 >> 4u8) == 1u8 && (0x30u8 >> 4u8) == 3u8) by (bit_vector);
    assert(w == pb.len());
    assert(b.subrange(2, 2 + cl) =~= h.dst_cid);
    assert(b.skip(2 + cl + w) =~= h.payload);
    assert forall|i: int| 0 <= i < w implies b[2 + cl + i] == pb[i] by {
        assert(b[2 + cl + i] == (pre + pb)[2 + cl + i]);
    }
    if pn < 0x100 {
        assert(b[2 + cl] == pn as u8);
    } else if pn < 0x10000 {
        lemma_be16(pn as u16);
        assert(read_be16(b, 2 + cl) == read_be16(pb, 0));
    } else {
        lemma_be32(pn as u32);
        assert(read_be32(b, 2 + cl) == read_be32(pb, 0));
    }
}

impl ShortHeader {
    /// Appends the header's bytes to `buf`.
    pub fn write(&self, buf: &mut Vec<u8>)
        ensures
            final(buf)@ == old(buf)@ + short_header_bytes(self@),
    {
        let pn = self.packet_number;
        let kp: u8 = if self.key_phase {
            0x40
        } else {
            0
        };
        let bits: u8 = if pn < 0x100 {
            0x00
        } else if pn < 0x10000 {
            0x10
        } else {
            0x30
        };
        let first = kp | bits;
        buf.push(first);
        buf.push(self.dst_cid.len() as u8);
        push_all(buf, self.dst_cid.cid.as_slice());
        let ghost before = buf@;
        if pn < 0x100 {
            buf.push(pn as u8);
        } else if pn < 0x10000 {
            let v = pn as u16;
            buf.push((v >> 8) as u8);
            buf.push(v as u8);
        } else {
            push_be32(buf, pn as u32);
        }
        assert(buf@ =~= before + pn_bytes(pn));
        push_all(buf, self.payload.as_slice());
        assert(final(buf)@ =~= old(buf)@ + short_header_bytes(self@));
    }

    /// Reads a short header from `buf`.
    pub fn try_from(buf: &[u8]) -> (r: Result<ShortHeader, HeaderError>)
        ensures
            match parse_short(buf@) {
                Ok(v) => r is Ok && r->Ok_0@ == v,
                Err(e) => r is Err && r->Err_0 == e,
            },
    {
        let len = buf.len();
        if len < 1 {
            return Err(HeaderError::BufferTooShort);
        }
        let first = buf[0];
        if first >> 7 != 0 {
            return Err(HeaderError::InvalidPacketType);
        }
        let key_phase = (first & 0x40) != 0;
        assert((first >> 4u8) & 3u8 <= 3u8) by (bit_vector);
        let pn_len = ((first >> 4) & 0x03) as usize + 1;
        if len < 2 {
            return Err(HeaderError::BufferTooShort);
        }
        let cid_len = buf[1] as usize;
        if len < 2 + cid_len + pn_len {
            return Err(HeaderError::BufferTooShort);
        }
        let dst_cid = ConnectionId { cid: copy_range(buf, 2, 2 + cid_len) };
        let at = 2 + cid_len;
        let pn: u64 = if pn_len == 1 {
            buf[at] as u64
        } else if pn_len == 2 {
            (((buf[at] as u16) << 8) | (buf[at + 1] as u16)) as u64
        } else if pn_len == 4 {
            get_be32(buf, at) as u64
        } else {
            return Err(HeaderError::InvalidPacketType);
        };
        let payload = copy_range(buf, at + pn_len, len);
        assert(buf@.subrange(at + pn_len, len as int) =~= buf@.skip(at + pn_len));
        Ok(ShortHeader { key_phase, dst_cid, packet_number: pn, payload })
    }
}

} // verus!
