use vstd::prelude::*;

use crate::constants::RECORD_FIXED_LENGTH;
use crate::errors::{BufferError, ProtocolError};
use crate::packing::{
    lemma_u16_roundtrip, lemma_u32_roundtrip, read_u16_at, read_u32_at, u16_wire, u32_wire, PackBuffer,
    UnpackBuffer,
};
use crate::types::dns::name::{lemma_pack_unpack, name_roundtrips, name_wire, read_name, wire_len, Name};
use crate::types::rr::classes::{class_code, is_known_class_code, lemma_class_roundtrip, read_class_at, Class};
use crate::types::rr::types::{is_known_type_code, lemma_type_roundtrip, read_type_at, type_code, Type};

use crate::text::{decimal, push_decimal};
use crate::types::dns::name::dotted;
use crate::types::rr::classes::class_text;
use crate::types::rr::types::type_text;

verus! {

/// Errors while reading or writing a resource record header.
#[derive(Debug, Clone, Copy, PartialEq, Eq, Structural)]
pub enum RHeaderError {
    NameError(ProtocolError),
    BufferError(BufferError),
}

/// The header of a resource record: owner name, type, class, TTL and the
/// length of the record data.
#[derive(Debug)]
pub struct RHeader {
    name: Name,
    ty: Type,
    class: Class,
    ttl: u32,
    rdlen: u16,
}

/// The contents of a [`RHeader`].
pub struct RHeaderView {
    pub name: Seq<Seq<u8>>,
    pub ty: Type,
    pub class: Class,
    pub ttl: u32,
    pub rdlen: u16,
}

impl View for RHeader {
    type V = RHeaderView;

    closed spec fn view(&self) -> RHeaderView {
        RHeaderView {
            name: self.name@,
            ty: self.ty,
            class: self.class,
            ttl: self.ttl,
            rdlen: self.rdlen,
        }
    }
}

/// Reading a resource record header at offset `p`: the owner name, TYPE,
/// CLASS, TTL and RDLENGTH, one after the other.
pub open spec fn read_rheader_at(b: Seq<u8>, p: int) -> Result<(RHeaderView, int), RHeaderError> {
    match read_name(b, p) {
        Err(e) => Err(RHeaderError::NameError(e)),
        Ok((name, p1)) => match read_type_at(b, p1) {
            Err(e) => Err(RHeaderError::BufferError(e)),
            Ok((ty, p2)) => match read_class_at(b, p2) {
                Err(e) => Err(RHeaderError::BufferError(e)),
                Ok((class, p3)) => match read_u32_at(b, p3) {
                    Err(e) => Err(RHeaderError::BufferError(e)),
                    Ok((ttl, p4)) => match read_u16_at(b, p4) {
                        Err(e) => Err(RHeaderError::BufferError(e)),
                        Ok((rdlen, p5)) => Ok((RHeaderView { name, ty, class, ttl, rdlen }, p5)),
                    },
                },
            },
        },
    }
}

/// A resource record header on the wire.
pub open spec fn rheader_wire(h: RHeaderView) -> Seq<u8> {
    name_wire(h.name) + u16_wire(type_code(h.ty)) + u16_wire(class_code(h.class)) + u32_wire(
        h.ttl,
    ) + u16_wire(h.rdlen)
}

impl Clone for RHeader {
    fn clone(&self) -> (r: Self)
        ensures
            r@ == self@,
    {
        RHeader {
            name: self.name.clone(),
            ty: self.ty,
            class: self.class,
            ttl: self.ttl,
            rdlen: self.rdlen,
        }
    }
}

impl Default for RHeader {
    /// A header with the root name, type NULL, class IN, TTL 0 and RDLENGTH 0.
    fn default() -> (r: Self)
        ensures
            r@ == (RHeaderView {
                name: Seq::empty(),
                ty: Type::NULL,
                class: Class::IN,
                ttl: 0,
                rdlen: 0,
            }),
    {
        RHeader {
            name: Name::default(),
            ty: Type::default(),
            class: Class::default(),
            ttl: 0,
            rdlen: 0,
        }
    }
}

impl RHeader {
    /// A default header: the root name, type NULL, class IN, TTL 0 and
    /// RDLENGTH 0.
    pub fn new() -> (r: Self)
        ensures
            r@ == (RHeaderView {
                name: Seq::empty(),
                ty: Type::NULL,
                class: Class::IN,
                ttl: 0,
                rdlen: 0,
            }),
    {
        Self::default()
    }

    /// The length of the header on the wire.
    pub fn size(&self) -> (r: usize)
        ensures
            r == RECORD_FIXED_LENGTH + wire_len(self@.name),
            r <= RECORD_FIXED_LENGTH + 256,
    {
        RECORD_FIXED_LENGTH + self.name.len()
    }

    pub fn name(&self) -> (r: &Name)
        ensures
            r@ == self@.name,
    {
        &self.name
    }

    pub fn set_name(&mut self, name: Name)
        ensures
            final(self)@ == (RHeaderView { name: name@, ..old(self)@ }),
    {
        self.name = name
    }

    pub fn ty(&self) -> (r: &Type)
        ensures
            *r == self@.ty,
    {
        &self.ty
    }

    pub fn set_ty(&mut self, ty: Type)
        ensures
            final(self)@ == (RHeaderView { ty, ..old(self)@ }),
    {
        self.ty = ty
    }

    pub fn class(&self) -> (r: &Class)
        ensures
            *r == self@.class,
    {
        &self.class
    }

    pub fn set_class(&mut self, class: Class)
        ensures
            final(self)@ == (RHeaderView { class, ..old(self)@ }),
    {
        self.class = class
    }

    pub fn ttl(&self) -> (r: u32)
        ensures
            r == self@.ttl,
    {
        self.ttl
    }

    pub fn set_ttl(&mut self, ttl: u32)
        ensures
            final(self)@ == (RHeaderView { ttl, ..old(self)@ }),
    {
        self.ttl = ttl
    }

    pub fn rdlen(&self) -> (r: u16)
        ensures
            r == self@.rdlen,
    {
        self.rdlen
    }

    pub fn set_rdlen(&mut self, rdlen: u16)
        ensures
            final(self)@ == (RHeaderView { rdlen, ..old(self)@ }),
    {
        self.rdlen = rdlen
    }

    /// Reads a resource record header.
    pub fn read(buf: &mut UnpackBuffer) -> (r: Result<RHeader, RHeaderError>)
        ensures
            final(buf).bytes() == old(buf).bytes(),
            match read_rheader_at(old(buf).bytes(), old(buf).pos()) {
                Ok((h, p)) => r matches Ok(x) && x@ == h && final(buf).pos() == p,
                Err(e) => r matches Err(x) && x == e,
            },
    {
        let name = match Name::unpack(buf) {
            Ok(name) => name,
            Err(e) => return Err(RHeaderError::NameError(e)),
        };
        let ty = match Type::read(buf) {
            Ok(ty) => ty,
            Err(e) => return Err(RHeaderError::BufferError(e)),
        };
        let class = match Class::read(buf) {
            Ok(class) => class,
            Err(e) => return Err(RHeaderError::BufferError(e)),
        };
        let ttl = match buf.unpack_u32() {
            Ok(ttl) => ttl,
            Err(e) => return Err(RHeaderError::BufferError(e)),
        };
        let rdlen = match buf.unpack_u16() {
            Ok(rdlen) => rdlen,
            Err(e) => return Err(RHeaderError::BufferError(e)),
        };
        Ok(Self { name, ty, class, ttl, rdlen })
    }

    /// Writes the header in wire format; refuses an owner name longer than
    /// 255 octets (after writing it).
    pub fn write(&self, buf: &mut PackBuffer) -> (r: Result<usize, RHeaderError>)
        ensures
            wire_len(self@.name) <= 255 ==> r == Ok::<usize, RHeaderError>(
                (wire_len(self@.name) + RECORD_FIXED_LENGTH) as usize,
            ) && final(buf).bytes() == old(buf).bytes() + rheader_wire(self@),
            rheader_wire(self@).len() == wire_len(self@.name) + RECORD_FIXED_LENGTH,
            wire_len(self@.name) <= 256,
            wire_len(self@.name) > 255 ==> r == Err::<usize, RHeaderError>(
                RHeaderError::NameError(ProtocolError::DomainNameTooLong),
            ) && final(buf).bytes() == old(buf).bytes() + name_wire(self@.name),
    {
        let n = self.name.len();
        proof {
            crate::types::dns::name::lemma_name_wire_len(self@.name);
        }
        match self.name.pack(buf) {
            Ok(()) => {},
            Err(e) => return Err(RHeaderError::NameError(e)),
        }
        self.ty.write(buf);
        self.class.write(buf);
        buf.pack_u32(self.ttl);
        buf.pack_u16(self.rdlen);
        assert(buf.bytes() =~= old(buf).bytes() + rheader_wire(self@));
        Ok(n + RECORD_FIXED_LENGTH)
    }
}

/// Whether the wire form of a header reads back as the same header: its
/// owner name does, and its type and class are not `UNKNOWN` with a code that
/// a named one has.
pub open spec fn rheader_roundtrips(h: RHeaderView) -> bool {
    &&& name_roundtrips(h.name)
    &&& h.ty matches Type::UNKNOWN(c) ==> !is_known_type_code(c)
    &&& h.class matches Class::UNKNOWN(c) ==> !is_known_class_code(c)
}

/// What [`RHeader::write`] writes, [`RHeader::read`] reads back, whatever
/// octets stand before or after it.
pub proof fn lemma_rheader_write_read(h: RHeaderView, pre: Seq<u8>, rest: Seq<u8>)
    requires
        rheader_roundtrips(h),
    ensures
        read_rheader_at(pre + rheader_wire(h) + rest, pre.len() as int) == Ok::<
            (RHeaderView, int),
            RHeaderError,
        >((h, pre.len() as int + rheader_wire(h).len())),
{
    let b = pre + rheader_wire(h) + rest;
    let w1 = name_wire(h.name);
    let w2 = u16_wire(type_code(h.ty));
    let w3 = u16_wire(class_code(h.class));
    let w4 = u32_wire(h.ttl);
    let w5 = u16_wire(h.rdlen);
    assert(b =~= pre + w1 + (w2 + w3 + w4 + w5 + rest));
    lemma_pack_unpack(h.name, pre, w2 + w3 + w4 + w5 + rest);
    let pre1 = pre + w1;
    assert(b =~= pre1 + w2 + (w3 + w4 + w5 + rest));
    lemma_u16_roundtrip(type_code(h.ty), w3 + w4 + w5 + rest, pre1);
    lemma_type_roundtrip(h.ty);
    let pre2 = pre1 + w2;
    assert(b =~= pre2 + w3 + (w4 + w5 + rest));
    lemma_u16_roundtrip(class_code(h.class), w4 + w5 + rest, pre2);
    lemma_class_roundtrip(h.class);
    let pre3 = pre2 + w3;
    assert(b =~= pre3 + w4 + (w5 + rest));
    lemma_u32_roundtrip(h.ttl, w5 + rest, pre3);
    let pre4 = pre3 + w4;
    assert(b =~= pre4 + w5 + rest);
    lemma_u16_roundtrip(h.rdlen, rest, pre4);
}

/// A resource record header as text: name, type, class, TTL and, in
/// brackets, RDLENGTH.
pub open spec fn rheader_text(h: RHeaderView) -> Seq<char> {
    "N: "@ + dotted(h.name) + " T: "@ + type_text(h.ty) + " C: "@ + class_text(h.class) + " TTL: "@
        + decimal(h.ttl as nat) + " ("@ + decimal(h.rdlen as nat) + ")"@
}

impl RHeader {
    /// The header as text.
    pub fn to_string(&self) -> (r: String)
        ensures
            r@ == rheader_text(self@),
    {
        let mut s = String::new();
        s.append("N: ");
        let n = self.name.as_dotted_string();
        s.append(n.as_str());
        s.append(" T: ");
        let t = self.ty.to_string();
        s.append(t.as_str());
        s.append(" C: ");
        let c = self.class.to_string();
        s.append(c.as_str());
        s.append(" TTL: ");
        push_decimal(&mut s, self.ttl);
        s.append(" (");
        push_decimal(&mut s, self.rdlen as u32);
        s.append(")");
        assert(s@ =~= rheader_text(self@));
        s
    }
}

} // verus!
