use vstd::prelude::*;

use crate::errors::BufferError;
use crate::packing::{read_u16_at, u16_wire, PackBuffer, UnpackBuffer};
use crate::types::opcode::{opcode_code, opcode_from_code, Opcode};
use crate::types::rcode::{rcode_code, rcode_from_code, Rcode};

verus! {

/// [`Header`] describes the header data of a message. This header format
/// enables easy access to all header fields. The [`RawHeader`] in comparison
/// stores raw data directly from the wire.
/// See https://datatracker.ietf.org/doc/html/rfc1035#section-4.1.1
#[derive(Debug, Clone, Copy, PartialEq, Eq, Structural)]
pub struct Header {
    pub id: u16,
    pub is_query: bool,
    pub opcode: Opcode,
    pub authoritative: bool,
    pub truncated: bool,
    pub rec_des: bool,
    pub rec_avail: bool,
    pub zero: bool,
    pub rcode: Rcode,
    pub qdcount: u16,
    pub ancount: u16,
    pub nscount: u16,
    pub arcount: u16,
}

/// The default header: a recursive standard query with ID 0 and no records.
pub open spec fn default_header() -> Header {
    Header {
        id: 0,
        is_query: true,
        opcode: Opcode::Query,
        authoritative: false,
        truncated: false,
        rec_des: true,
        rec_avail: false,
        zero: false,
        rcode: Rcode::NoError,
        qdcount: 0,
        ancount: 0,
        nscount: 0,
        arcount: 0,
    }
}

impl Default for Header {
    fn default() -> (r: Self)
        ensures
            r == default_header(),
    {
        Self {
            id: 0,
            is_query: true,
            opcode: Opcode::Query,
            authoritative: false,
            truncated: false,
            rec_des: true,
            rec_avail: false,
            zero: false,
            rcode: Rcode::NoError,
            qdcount: 0,
            ancount: 0,
            nscount: 0,
            arcount: 0,
        }
    }
}

impl Header {
    /// Construct a new (default) DNS [`Header`] with the provided ID.
    pub fn new(id: u16) -> (r: Self)
        ensures
            r == (Header { id, ..default_header() }),
    {
        Self { id, ..Default::default() }
    }
}

/// [`RawHeader`] describes the raw header data of a message directly from
/// the wire: six 16 bit chunks. The second chunk, **flags**, carries QR,
/// OPCODE, AA, TC, RD, RA, Z and RCODE, split up further by bit masks.
#[derive(Debug, Clone, Copy, PartialEq, Eq, Structural)]
pub struct RawHeader {
    pub id: u16,
    pub flags: u16,
    pub qdcount: u16,
    pub ancount: u16,
    pub nscount: u16,
    pub arcount: u16,
}

/// The flag bit `mask` if `set`, else nothing.
pub open spec fn flag_bit(set: bool, mask: u16) -> u16 {
    if set {
        mask
    } else {
        0
    }
}

/// The flags chunk of a header: the OPCODE code shifted to bit 11 (bits
/// that leave the 16 bits are lost), the low four bits of the RCODE code,
/// QR (bit 15) for responses, AA (bit 10), TC (bit 9), RD (bit 8), RA (bit 7)
/// and Z (bit 6).
pub open spec fn header_flags(h: Header) -> u16 {
    (opcode_code(h.opcode) << 11u16) | (rcode_code(h.rcode) & 0xF) | flag_bit(
        !h.is_query,
        0x8000,
    ) | flag_bit(h.authoritative, 0x400) | flag_bit(h.truncated, 0x200) | flag_bit(
        h.rec_des,
        0x100,
    ) | flag_bit(h.rec_avail, 0x80) | flag_bit(h.zero, 0x40)
}

/// The raw form of a header.
pub open spec fn raw_from_header(h: Header) -> RawHeader {
    RawHeader {
        id: h.id,
        flags: header_flags(h),
        qdcount: h.qdcount,
        ancount: h.ancount,
        nscount: h.nscount,
        arcount: h.arcount,
    }
}

/// The header that a raw header stands for.
pub open spec fn header_from_raw(h: RawHeader) -> Header {
    Header {
        id: h.id,
        is_query: h.flags & 0x8000 == 0,
        opcode: opcode_from_code((h.flags >> 11u16) & 0xF),
        authoritative: h.flags & 0x400 != 0,
        truncated: h.flags & 0x200 != 0,
        rec_des: h.flags & 0x100 != 0,
        rec_avail: h.flags & 0x80 != 0,
        zero: h.flags & 0x40 != 0,
        rcode: rcode_from_code(h.flags & 0xF),
        qdcount: h.qdcount,
        ancount: h.ancount,
        nscount: h.nscount,
        arcount: h.arcount,
    }
}

/// The twelve octets of a raw header on the wire.
pub open spec fn raw_header_wire(h: RawHeader) -> Seq<u8> {
    u16_wire(h.id) + u16_wire(h.flags) + u16_wire(h.qdcount) + u16_wire(h.ancount) + u16_wire(
        h.nscount,
    ) + u16_wire(h.arcount)
}

/// Reading a header at offset `p`: six big-endian `u16` chunks.
pub open spec fn read_header_at(b: Seq<u8>, p: int) -> Result<(Header, int), BufferError> {
    if 0 <= p && p + 12 <= b.len() {
        let raw = RawHeader {
            id: read_u16_at(b, p).unwrap().0,
            flags: read_u16_at(b, p + 2).unwrap().0,
            qdcount: read_u16_at(b, p + 4).unwrap().0,
            ancount: read_u16_at(b, p + 6).unwrap().0,
            nscount: read_u16_at(b, p + 8).unwrap().0,
            arcount: read_u16_at(b, p + 10).unwrap().0,
        };
        Ok((header_from_raw(raw), p + 12))
    } else {
        Err(BufferError::BufferTooShort)
    }
}

impl<'a> From<&'a Header> for RawHeader {
    fn from(header: &'a Header) -> (r: Self) {
        // Start to build flags by appending the OPCODE and RCODE
        let opcode: u16 = u16::from(header.opcode);
        let rcode: u16 = u16::from(header.rcode);
        let mut flags = opcode << 11u16 | rcode & 0xF;

        if !header.is_query {
            flags = flags | 1u16 << 15u16;
        }
        if header.authoritative {
            flags = flags | 1u16 << 10u16;
        }
        if header.truncated {
            flags = flags | 1u16 << 9u16;
        }
        if header.rec_des {
            flags = flags | 1u16 << 8u16;
        }
        if header.rec_avail {
            flags = flags | 1u16 << 7u16;
        }
        if header.zero {
            flags = flags | 1u16 << 6u16;
        }
        proof {
            let ghost f0 = (opcode << 11u16) | (rcode & 0xF);
            assert(1u16 << 15u16 == 0x8000u16) by (bit_vector);
            assert(1u16 << 10u16 == 0x400u16) by (bit_vector);
            assert(1u16 << 9u16 == 0x200u16) by (bit_vector);
            assert(1u16 << 8u16 == 0x100u16) by (bit_vector);
            assert(1u16 << 7u16 == 0x80u16) by (bit_vector);
            assert(1u16 << 6u16 == 0x40u16) by (bit_vector);
            assert(forall|x: u16| #[trigger] (x | 0u16) == x) by (bit_vector);
        }
        Self {
            qdcount: header.qdcount,
            ancount: header.ancount,
            nscount: header.nscount,
            arcount: header.arcount,
            id: header.id,
            flags,
        }
    }
}

impl<'a> vstd::std_specs::convert::FromSpecImpl<&'a Header> for RawHeader {
    open spec fn obeys_from_spec() -> bool {
        true
    }

    open spec fn from_spec(header: &'a Header) -> Self {
        raw_from_header(*header)
    }
}

impl From<RawHeader> for Header {
    fn from(h: RawHeader) -> (r: Self) {
        Self {
            id: h.id,
            is_query: h.is_query(),
            authoritative: h.is_authoritative(),
            opcode: h.opcode(),
            truncated: h.is_truncated(),
            rec_des: h.is_rec_des(),
            rec_avail: h.is_rec_avail(),
            zero: h.is_zero(),
            rcode: h.rcode(),
            qdcount: h.qdcount,
            ancount: h.ancount,
            nscount: h.nscount,
            arcount: h.arcount,
        }
    }
}

impl vstd::std_specs::convert::FromSpecImpl<RawHeader> for Header {
    open spec fn obeys_from_spec() -> bool {
        true
    }

    open spec fn from_spec(h: RawHeader) -> Self {
        header_from_raw(h)
    }
}

impl RawHeader {
    /// Returns if this DNS message is a query (QR) by applying a bit mask.
    pub fn is_query(&self) -> (r: bool)
        ensures
            r == (self.flags & 0x8000 == 0),
    {
        proof {
            assert(1u16 << 15u16 == 0x8000u16) by (bit_vector);
        }
        self.flags & (1u16 << 15u16) == 0
    }

    /// Returns the OPCODE of the DNS message by applying a bit mask.
    pub fn opcode(&self) -> (r: Opcode)
        ensures
            r == opcode_from_code((self.flags >> 11u16) & 0xF),
    {
        Opcode::from((self.flags >> 11u16) & 0xF)
    }

    /// Returns if the DNS message is authoritative (AA) by applying a bit mask.
    pub fn is_authoritative(&self) -> (r: bool)
        ensures
            r == (self.flags & 0x400 != 0),
    {
        proof {
            assert(1u16 << 10u16 == 0x400u16) by (bit_vector);
        }
        self.flags & (1u16 << 10u16) != 0
    }

    /// Returns if the DNS message is truncated (TC) by applying a bit mask.
    pub fn is_truncated(&self) -> (r: bool)
        ensures
            r == (self.flags & 0x200 != 0),
    {
        proof {
            assert(1u16 << 9u16 == 0x200u16) by (bit_vector);
        }
        self.flags & (1u16 << 9u16) != 0
    }

    /// Returns if the RD flag is set by applying a bit mask.
    pub fn is_rec_des(&self) -> (r: bool)
        ensures
            r == (self.flags & 0x100 != 0),
    {
        proof {
            assert(1u16 << 8u16 == 0x100u16) by (bit_vector);
        }
        self.flags & (1u16 << 8u16) != 0
    }

    /// Returns if the RA flag is set by applying a bit mask.
    pub fn is_rec_avail(&self) -> (r: bool)
        ensures
            r == (self.flags & 0x80 != 0),
    {
        proof {
            assert(1u16 << 7u16 == 0x80u16) by (bit_vector);
        }
        self.flags & (1u16 << 7u16) != 0
    }

    /// Returns if the ZERO (Z) bits are set by applying a bit mask.
    pub fn is_zero(&self) -> (r: bool)
        ensures
            r == (self.flags & 0x40 != 0),
    {
        proof {
            assert(1u16 << 6u16 == 0x40u16) by (bit_vector);
        }
        self.flags & (1u16 << 6u16) != 0
    }

    /// Returns the RCODE of the DNS message by applying a bit mask.
    pub fn rcode(&self) -> (r: Rcode)
        ensures
            r == rcode_from_code(self.flags & 0xF),
    {
        Rcode::from(self.flags & 0xF)
    }

    /// Writes the six chunks in network byte order.
    pub fn write(&self, buf: &mut PackBuffer) -> (r: usize)
        ensures
            final(buf).bytes() == old(buf).bytes() + raw_header_wire(*self),
            r == 12,
    {
        buf.pack_u16(self.id);
        buf.pack_u16(self.flags);
        buf.pack_u16(self.qdcount);
        buf.pack_u16(self.ancount);
        buf.pack_u16(self.nscount);
        buf.pack_u16(self.arcount);
        assert(buf.bytes() =~= old(buf).bytes() + raw_header_wire(*self));
        12
    }
}

impl Header {
    /// Reads the first 12 octets of a DNS message. The DNS header is fixed in
    /// size. This is usually the first step in reading the whole message.
    pub fn read(buf: &mut UnpackBuffer) -> (r: Result<Header, BufferError>)
        ensures
            final(buf).bytes() == old(buf).bytes(),
            match read_header_at(old(buf).bytes(), old(buf).pos()) {
                Ok((h, p)) => r == Ok::<Header, BufferError>(h) && final(buf).pos() == p,
                Err(e) => r == Err::<Header, BufferError>(e),
            },
    {
        let id = buf.unpack_u16()?;
        let flags = buf.unpack_u16()?;
        let qdcount = buf.unpack_u16()?;
        let ancount = buf.unpack_u16()?;
        let nscount = buf.unpack_u16()?;
        let arcount = buf.unpack_u16()?;

        let header = Header::from(RawHeader { id, flags, qdcount, ancount, nscount, arcount });
        Ok(header)
    }

    /// Writes the header in wire format.
    pub fn write(&self, buf: &mut PackBuffer) -> (r: usize)
        ensures
            final(buf).bytes() == old(buf).bytes() + raw_header_wire(raw_from_header(*self)),
            r == 12,
    {
        let raw_header = RawHeader::from(self);
        raw_header.write(buf)
    }
}

proof fn lemma_flags_decode(
    o: u16,
    r: u16,
    q: u16,
    a: u16,
    t: u16,
    d: u16,
    v: u16,
    z: u16,
)
    by (bit_vector)
    requires
        o <= 2 || o == 0xFFFF,
        r <= 5 || r == 0xFFFF,
        q == 0 || q == 0x8000,
        a == 0 || a == 0x400,
        t == 0 || t == 0x200,
        d == 0 || d == 0x100,
        v == 0 || v == 0x80,
        z == 0 || z == 0x40,
        o <= 2 || q == 0x8000,
    ensures
        ({
            let f = (o << 11u16) | (r & 0xF) | q | a | t | d | v | z;
            &&& (f & 0x8000 == 0) == (q == 0)
            &&& (f >> 11u16) & 0xF == o & 0xF
            &&& (f & 0x400 != 0) == (a != 0)
            &&& (f & 0x200 != 0) == (t != 0)
            &&& (f & 0x100 != 0) == (d != 0)
            &&& (f & 0x80 != 0) == (v != 0)
            &&& (f & 0x40 != 0) == (z != 0)
            &&& f & 0xF == r & 0xF
        }),
{
}

/// The bits of a flags word built from single flags and two small codes.
proof fn lemma_flag_word_bits(
    f: u16,
    o: u16,
    r: u16,
    q: u16,
    aa: u16,
    tc: u16,
    rd: u16,
    ra: u16,
    z: u16,
)
    by (bit_vector)
    requires
        f == (o << 11u16) | (r & 0xF) | q | aa | tc | rd | ra | z,
        q == 0 || q == 0x8000,
        aa == 0 || aa == 0x400,
        tc == 0 || tc == 0x200,
        rd == 0 || rd == 0x100,
        ra == 0 || ra == 0x80,
        z == 0 || z == 0x40,
    ensures
        f & 0x400 == aa,
        f & 0x200 == tc,
        f & 0x100 == rd,
        f & 0x80 == ra,
        f & 0x40 == z,
        f & 0xF == r & 0xF,
        o < 16 ==> f & 0x8000 == q && (f >> 11u16) & 0xF == o,
{
}

/// The flags word of a header has the layout of RFC 1035, section 4.1.1:
/// QR is bit 15 (set for a response), OPCODE bits 11 to 14, AA bit 10, TC
/// bit 9, RD bit 8, RA bit 7, Z bit 6 and RCODE bits 0 to 3. Writing a header
/// sets each flag's bit exactly when the flag is set, and reading a flags
/// word takes each flag from its bit.
pub proof fn lemma_header_flag_layout(h: Header, raw: RawHeader)
    ensures
        (header_flags(h) & 0x400 != 0) == h.authoritative,
        (header_flags(h) & 0x200 != 0) == h.truncated,
        (header_flags(h) & 0x100 != 0) == h.rec_des,
        (header_flags(h) & 0x80 != 0) == h.rec_avail,
        (header_flags(h) & 0x40 != 0) == h.zero,
        header_flags(h) & 0xF == rcode_code(h.rcode) & 0xF,
        h.opcode != Opcode::Reserved ==> (header_flags(h) & 0x8000 != 0) == !h.is_query && (
        header_flags(h) >> 11u16) & 0xF == opcode_code(h.opcode),
        header_from_raw(raw).id == raw.id,
        header_from_raw(raw).is_query == (raw.flags & 0x8000 == 0),
        header_from_raw(raw).opcode == opcode_from_code((raw.flags >> 11u16) & 0xF),
        header_from_raw(raw).authoritative == (raw.flags & 0x400 != 0),
        header_from_raw(raw).truncated == (raw.flags & 0x200 != 0),
        header_from_raw(raw).rec_des == (raw.flags & 0x100 != 0),
        header_from_raw(raw).rec_avail == (raw.flags & 0x80 != 0),
        header_from_raw(raw).zero == (raw.flags & 0x40 != 0),
        header_from_raw(raw).rcode == rcode_from_code(raw.flags & 0xF),
        header_from_raw(raw).qdcount == raw.qdcount,
        header_from_raw(raw).ancount == raw.ancount,
        header_from_raw(raw).nscount == raw.nscount,
        header_from_raw(raw).arcount == raw.arcount,
{
    lemma_flag_word_bits(
        header_flags(h),
        opcode_code(h.opcode),
        rcode_code(h.rcode),
        flag_bit(!h.is_query, 0x8000),
        flag_bit(h.authoritative, 0x400),
        flag_bit(h.truncated, 0x200),
        flag_bit(h.rec_des, 0x100),
        flag_bit(h.rec_avail, 0x80),
        flag_bit(h.zero, 0x40),
    );
}

/// A header survives the trip to its raw form and back, unless its OPCODE is
/// `Reserved` while it is a query: the code 65535 shifted to bit 11 also sets
/// the QR bit, so that the header reads back as a response.
pub proof fn lemma_header_raw_roundtrip(h: Header)
    requires
        h.opcode != Opcode::Reserved || !h.is_query,
    ensures
        header_from_raw(raw_from_header(h)) == h,
{
    let o = opcode_code(h.opcode);
    let r = rcode_code(h.rcode);
    lemma_flags_decode(
        o,
        r,
        flag_bit(!h.is_query, 0x8000),
        flag_bit(h.authoritative, 0x400),
        flag_bit(h.truncated, 0x200),
        flag_bit(h.rec_des, 0x100),
        flag_bit(h.rec_avail, 0x80),
        flag_bit(h.zero, 0x40),
    );
    assert(0xFFFFu16 & 0xF == 0xF) by (bit_vector);
    assert(0u16 & 0xF == 0 && 1u16 & 0xF == 1 && 2u16 & 0xF == 2 && 3u16 & 0xF == 3 && 4u16 & 0xF
        == 4 && 5u16 & 0xF == 5) by (bit_vector);
}

/// What [`Header::write`] writes, [`Header::read`] reads back: the same header
/// (as far as [`lemma_header_raw_roundtrip`] allows), twelve octets further.
pub proof fn lemma_header_write_read(h: Header, pre: Seq<u8>, rest: Seq<u8>)
    requires
        h.opcode != Opcode::Reserved || !h.is_query,
    ensures
        read_header_at(pre + raw_header_wire(raw_from_header(h)) + rest, pre.len() as int)
            == Ok::<(Header, int), BufferError>((h, pre.len() as int + 12)),
{
    let raw = raw_from_header(h);
    let b = pre + raw_header_wire(raw) + rest;
    let p = pre.len() as int;
    lemma_header_raw_roundtrip(h);
    assert(b.subrange(p, p + 12) =~= raw_header_wire(raw));
    crate::packing::lemma_u16_roundtrip(raw.id, b.skip(p + 2), b.take(p));
    assert(b.take(p) + u16_wire(raw.id) + b.skip(p + 2) =~= b);
    crate::packing::lemma_u16_roundtrip(raw.flags, b.skip(p + 4), b.take(p + 2));
    assert(b.take(p + 2) + u16_wire(raw.flags) + b.skip(p + 4) =~= b);
    crate::packing::lemma_u16_roundtrip(raw.qdcount, b.skip(p + 6), b.take(p + 4));
    assert(b.take(p + 4) + u16_wire(raw.qdcount) + b.skip(p + 6) =~= b);
    crate::packing::lemma_u16_roundtrip(raw.ancount, b.skip(p + 8), b.take(p + 6));
    assert(b.take(p + 6) + u16_wire(raw.ancount) + b.skip(p + 8) =~= b);
    crate::packing::lemma_u16_roundtrip(raw.nscount, b.skip(p + 10), b.take(p + 8));
    assert(b.take(p + 8) + u16_wire(raw.nscount) + b.skip(p + 10) =~= b);
    crate::packing::lemma_u16_roundtrip(raw.arcount, b.skip(p + 12), b.take(p + 10));
    assert(b.take(p + 10) + u16_wire(raw.arcount) + b.skip(p + 12) =~= b);
}

} // verus!
