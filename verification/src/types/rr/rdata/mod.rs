use vstd::prelude::*;

use crate::errors::{BufferError, ProtocolError};
use crate::packing::{lemma_bytes_roundtrip, read_bytes_at, PackBuffer, UnpackBuffer};
use crate::types::dns::name::{
    labels_wire, lemma_pack_unpack, name_roundtrips, name_wire, read_name, wire_len, Name,
};
use crate::types::rr::rheader::{RHeader, RHeaderView};
use crate::types::rr::types::{type_text, Type};
use crate::types::dns::name::name_from_text;
use crate::addr::{
    dotted_quad, format_ipv6, ipv4_from_text, ipv6_from_text, ipv6_text, parse_ipv4, parse_ipv6,
};
use crate::text::{debug_bytes, ipv4_text, lowercase, push_ipv4};
use crate::types::dns::name::dotted;
use crate::errors::protocol_error_text;
use crate::types::edns::code::OptionCode;

pub mod a;
pub mod hinfo;
pub mod minfo;
pub mod mx;
pub mod name;
pub mod null;
pub mod opt;
pub mod soa;
pub mod txt;

pub use hinfo::{HINFOView, HINFO};
pub use minfo::{MINFOView, MINFO};
pub use mx::{MXView, MX};
pub use null::NULL;
pub use opt::{OPTView, OPT};
pub use soa::{SOAView, SOA};
pub use txt::TXT;

use hinfo::{hinfo_text, hinfo_wire, lemma_hinfo_write_read, read_hinfo_at};
use minfo::{lemma_minfo_write_read, minfo_text, minfo_wire, read_minfo_at};
use mx::{lemma_mx_write_read, mx_text, mx_wire, read_mx_at};
use null::{lemma_null_write_read, read_null_at};
use opt::{lemma_opt_write_read, opt_roundtrips, opt_text, options_wire, read_opt_at};
use soa::{lemma_soa_write_read, read_soa_at, soa_text, soa_wire};
use txt::{lemma_txt_write_read, read_txt_at, txt_text};

verus! {

/// An error while parsing record data from text.
#[derive(Debug)]
pub struct RDataParseError {
    msg: String,
    ty: Type,
}

impl RDataParseError {
    pub fn new(ty: Type, msg: String) -> (r: Self)
        ensures
            r.message() == msg@,
            r.record_type() == ty,
    {
        Self { msg, ty }
    }

    /// What went wrong.
    pub closed spec fn message(&self) -> Seq<char> {
        self.msg@
    }

    /// The type of the record data.
    pub closed spec fn record_type(&self) -> Type {
        self.ty
    }

    /// The text of the error: `Error while parsing <type> record data: <message>`.
    pub fn to_string(&self) -> (r: String)
        ensures
            r@ == "Error while parsing "@ + type_text(self.record_type()) + " record data: "@
                + self.message(),
    {
        let mut s = String::from_str("Error while parsing ");
        let t = self.ty.to_string();
        s.append(t.as_str());
        s.append(" record data: ");
        s.append(self.msg.as_str());
        s
    }
}

/// Errors while reading or writing record data.
#[derive(Debug, Clone, Copy, PartialEq, Eq, Structural)]
pub enum RDataError {
    /// A name in the data could not be read or written.
    NameError(ProtocolError),

    /// The data read took another number of octets than RDLENGTH says.
    InvalidRDataLen { expected: u16, got: u16 },

    /// The underlying buffer failed.
    BufferError(BufferError),

    /// A record of a type whose data is not handled.
    UnsupportedType(Type),

    /// An EDNS option whose data is not handled.
    UnsupportedOption(OptionCode),

    /// A cookie option shorter than the 8 octets of a client cookie.
    InvalidOptionLen(u16),
}

/// The data of a resource record, by type.
#[derive(Debug)]
pub enum RData {
    /// A 32 bit Internet address, octets in network order.
    A([u8; 4]),

    /// A host which should be authoritative for the specified class and
    /// domain.
    NS(Name),

    /// The canonical or primary name for the owner. The owner name is an
    /// alias.
    CNAME(Name),

    /// The start of a zone of authority.
    SOA(SOA),

    /// Anything at all, 65535 octets or less.
    NULL(NULL),

    /// A name which points to some location in the domain name space.
    PTR(Name),

    /// Host information.
    HINFO(HINFO),

    /// Mailbox or mail list information.
    MINFO(MINFO),

    /// Mail exchange.
    MX(MX),

    /// Text strings.
    TXT(TXT),

    /// A 128 bit IPv6 address, octets in network order.
    AAAA([u8; 16]),

    /// EDNS data.
    OPT(OPT),
    AXFR,
    MAILB,
    MAILA,
    ANY,
    UNKNOWN,
}

/// The contents of a [`RData`].
pub enum RDataView {
    A(Seq<u8>),
    NS(Seq<Seq<u8>>),
    CNAME(Seq<Seq<u8>>),
    SOA(SOAView),
    NULL(Seq<u8>),
    PTR(Seq<Seq<u8>>),
    HINFO(HINFOView),
    MINFO(MINFOView),
    MX(MXView),
    TXT(Seq<Seq<u8>>),
    AAAA(Seq<u8>),
    OPT(OPTView),
    AXFR,
    MAILB,
    MAILA,
    ANY,
    UNKNOWN,
}

impl View for RData {
    type V = RDataView;

    open spec fn view(&self) -> RDataView {
        match self {
            RData::A(a) => RDataView::A(a@),
            RData::NS(n) => RDataView::NS(n@),
            RData::CNAME(n) => RDataView::CNAME(n@),
            RData::SOA(s) => RDataView::SOA(s@),
            RData::NULL(n) => RDataView::NULL(n@),
            RData::PTR(n) => RDataView::PTR(n@),
            RData::HINFO(h) => RDataView::HINFO(h@),
            RData::MINFO(m) => RDataView::MINFO(m@),
            RData::MX(m) => RDataView::MX(m@),
            RData::TXT(t) => RDataView::TXT(t@),
            RData::AAAA(a) => RDataView::AAAA(a@),
            RData::OPT(o) => RDataView::OPT(o@),
            RData::AXFR => RDataView::AXFR,
            RData::MAILB => RDataView::MAILB,
            RData::MAILA => RDataView::MAILA,
            RData::ANY => RDataView::ANY,
            RData::UNKNOWN => RDataView::UNKNOWN,
        }
    }
}

/// The record types whose data is read: all but the query types and
/// unknown types.
pub open spec fn rdata_type_supported(ty: Type) -> bool {
    !(ty is AXFR || ty is MAILB || ty is MAILA || ty is ANY || ty is UNKNOWN)
}

/// Whether record data is of a kind that [`RData::write`] handles: not a
/// query type and not unknown.
pub open spec fn rdata_is_data(d: RDataView) -> bool {
    !(d is AXFR || d is MAILB || d is MAILA || d is ANY || d is UNKNOWN)
}

/// Whether record data is of a kind that [`RData::len`] handles: data, but
/// not OPT data.
pub open spec fn rdata_has_len(d: RDataView) -> bool {
    rdata_is_data(d) && !(d is OPT)
}

/// A name read into record data by `f`.
pub open spec fn name_data(
    r: Result<(Seq<Seq<u8>>, int), ProtocolError>,
    f: spec_fn(Seq<Seq<u8>>) -> RDataView,
) -> Result<(RDataView, int), RDataError> {
    match r {
        Ok((n, q)) => Ok((f(n), q)),
        Err(e) => Err(RDataError::NameError(e)),
    }
}

/// Reading the data of a record with header `h` at offset `p`, by type.
pub open spec fn read_rdata_body_at(b: Seq<u8>, p: int, h: RHeaderView) -> Result<
    (RDataView, int),
    RDataError,
> {
    match h.ty {
        Type::A => match read_bytes_at(b, p, 4) {
            Ok((v, q)) => Ok((RDataView::A(v), q)),
            Err(e) => Err(RDataError::BufferError(e)),
        },
        Type::NS => name_data(read_name(b, p), |n: Seq<Seq<u8>>| RDataView::NS(n)),
        Type::CNAME => name_data(read_name(b, p), |n: Seq<Seq<u8>>| RDataView::CNAME(n)),
        Type::SOA => match read_soa_at(b, p) {
            Ok((v, q)) => Ok((RDataView::SOA(v), q)),
            Err(e) => Err(e),
        },
        Type::NULL => match read_null_at(b, p, h.rdlen) {
            Ok((v, q)) => Ok((RDataView::NULL(v), q)),
            Err(e) => Err(RDataError::BufferError(e)),
        },
        Type::PTR => name_data(read_name(b, p), |n: Seq<Seq<u8>>| RDataView::PTR(n)),
        Type::HINFO => match read_hinfo_at(b, p) {
            Ok((v, q)) => Ok((RDataView::HINFO(v), q)),
            Err(e) => Err(RDataError::BufferError(e)),
        },
        Type::MINFO => match read_minfo_at(b, p) {
            Ok((v, q)) => Ok((RDataView::MINFO(v), q)),
            Err(e) => Err(e),
        },
        Type::MX => match read_mx_at(b, p) {
            Ok((v, q)) => Ok((RDataView::MX(v), q)),
            Err(e) => Err(e),
        },
        Type::TXT => match read_txt_at(b, p, h.rdlen) {
            Ok((v, q)) => Ok((RDataView::TXT(v), q)),
            Err(e) => Err(RDataError::BufferError(e)),
        },
        Type::AAAA => match read_bytes_at(b, p, 16) {
            Ok((v, q)) => Ok((RDataView::AAAA(v), q)),
            Err(e) => Err(RDataError::BufferError(e)),
        },
        Type::OPT => match read_opt_at(b, p, h) {
            Ok((v, q)) => Ok((RDataView::OPT(v), q)),
            Err(e) => Err(e),
        },
        _ => Err(RDataError::UnsupportedType(h.ty)),
    }
}

/// Reading the data of a record with header `h` at offset `p`: the data by
/// type, which must take exactly RDLENGTH octets (the count taken as `u16`).
pub open spec fn read_rdata_at(b: Seq<u8>, p: int, h: RHeaderView) -> Result<
    (RDataView, int),
    RDataError,
> {
    match read_rdata_body_at(b, p, h) {
        Err(e) => Err(e),
        Ok((v, q)) => {
            let got = (q - p) as u16;
            if got != h.rdlen {
                Err(RDataError::InvalidRDataLen { expected: h.rdlen, got })
            } else {
                Ok((v, q))
            }
        },
    }
}

/// The length that [`RData::len`] gives: the length of the data on the
/// wire, by type.
pub open spec fn rdata_len(d: RDataView) -> int {
    match d {
        RDataView::A(_) => 4,
        RDataView::NS(n) => wire_len(n) as int,
        RDataView::CNAME(n) => wire_len(n) as int,
        RDataView::SOA(s) => (wire_len(s.mname) + wire_len(s.rname) + 20) as int,
        RDataView::NULL(v) => v.len() as int,
        RDataView::PTR(n) => wire_len(n) as int,
        RDataView::HINFO(h) => (h.cpu.len() + h.os.len() + 2) as int,
        RDataView::MINFO(m) => (wire_len(m.rmailbx) + wire_len(m.emailbx)) as int,
        RDataView::MX(m) => (wire_len(m.exchange) + 2) as int,
        RDataView::TXT(t) => labels_wire(t).len() as int,
        RDataView::AAAA(_) => 16,
        _ => 0,
    }
}

/// Record data on the wire.
pub open spec fn rdata_wire(d: RDataView) -> Seq<u8> {
    match d {
        RDataView::A(a) => a,
        RDataView::NS(n) => name_wire(n),
        RDataView::CNAME(n) => name_wire(n),
        RDataView::SOA(s) => soa_wire(s),
        RDataView::NULL(v) => v,
        RDataView::PTR(n) => name_wire(n),
        RDataView::HINFO(h) => hinfo_wire(h),
        RDataView::MINFO(m) => minfo_wire(m),
        RDataView::MX(m) => mx_wire(m),
        RDataView::TXT(t) => labels_wire(t),
        RDataView::AAAA(a) => a,
        RDataView::OPT(o) => options_wire(o.options),
        _ => Seq::empty(),
    }
}

/// The names in record data, each of which [`RData::write`] refuses when
/// longer than 255 octets.
pub open spec fn rdata_names_fit(d: RDataView) -> bool {
    match d {
        RDataView::NS(n) => wire_len(n) <= 255,
        RDataView::CNAME(n) => wire_len(n) <= 255,
        RDataView::SOA(s) => wire_len(s.mname) <= 255 && wire_len(s.rname) <= 255,
        RDataView::PTR(n) => wire_len(n) <= 255,
        RDataView::MINFO(m) => wire_len(m.rmailbx) <= 255 && wire_len(m.emailbx) <= 255,
        RDataView::MX(m) => wire_len(m.exchange) <= 255,
        _ => true,
    }
}

/// Reading record data ends at or after the offset it starts at.
pub proof fn lemma_read_rdata_body_end(b: Seq<u8>, p: int, h: RHeaderView)
    ensures
        read_rdata_body_at(b, p, h) matches Ok((_, q)) ==> p <= q,
{
    crate::types::dns::name::lemma_read_name_end(b, p);
    match read_name(b, p) {
        Ok((_, p1)) => {
            crate::types::dns::name::lemma_read_name_end(b, p1);
        },
        Err(_) => {},
    }
    match crate::packing::read_u16_at(b, p) {
        Ok((_, p1)) => {
            crate::types::dns::name::lemma_read_name_end(b, p1);
        },
        Err(_) => {},
    }
    txt::lemma_read_txt_from_end(b, p, p, h.rdlen as int);
    opt::lemma_read_options_from_end(b, p, p, h.rdlen as int, Seq::empty());
}

/// Record data as text, by type: an address, a name, or the text of the
/// data's own type. Query types have no text.
pub open spec fn rdata_text(d: RDataView) -> Seq<char> {
    match d {
        RDataView::A(a) => ipv4_text(a),
        RDataView::NS(n) => dotted(n),
        RDataView::CNAME(n) => dotted(n),
        RDataView::SOA(s) => soa_text(s),
        RDataView::NULL(v) => debug_bytes(v),
        RDataView::PTR(n) => dotted(n),
        RDataView::HINFO(h) => hinfo_text(h),
        RDataView::MINFO(m) => minfo_text(m),
        RDataView::MX(m) => mx_text(m),
        RDataView::TXT(t) => txt_text(t),
        RDataView::AAAA(a) => ipv6_text(a),
        RDataView::OPT(o) => opt_text(o),
        _ => Seq::empty(),
    }
}

/// Whether the wire form of record data reads back as the same data under
/// the record header `h`: the data is of the header's type, holds only what
/// reading that type gives, and takes RDLENGTH octets.
pub open spec fn rdata_roundtrips(h: RHeaderView, d: RDataView) -> bool {
    &&& rdata_wire(d).len() == h.rdlen
    &&& match d {
        RDataView::A(a) => h.ty is A && a.len() == 4,
        RDataView::NS(n) => h.ty is NS && name_roundtrips(n),
        RDataView::CNAME(n) => h.ty is CNAME && name_roundtrips(n),
        RDataView::SOA(s) => h.ty is SOA && name_roundtrips(s.mname) && name_roundtrips(s.rname),
        RDataView::NULL(_) => h.ty is NULL,
        RDataView::PTR(n) => h.ty is PTR && name_roundtrips(n),
        RDataView::HINFO(x) => h.ty is HINFO && x.cpu.len() <= 255 && x.os.len() <= 255,
        RDataView::MINFO(m) => h.ty is MINFO && name_roundtrips(m.rmailbx) && name_roundtrips(
            m.emailbx,
        ),
        RDataView::MX(m) => h.ty is MX && name_roundtrips(m.exchange),
        RDataView::TXT(t) => h.ty is TXT && forall|i: int|
            0 <= i < t.len() ==> #[trigger] t[i].len() <= 255,
        RDataView::AAAA(a) => h.ty is AAAA && a.len() == 16,
        RDataView::OPT(o) => h.ty is OPT && opt_roundtrips(h, o),
        _ => false,
    }
}

/// The data as read, before the check of its length against RDLENGTH.
proof fn lemma_rdata_body_write_read(h: RHeaderView, d: RDataView, pre: Seq<u8>, rest: Seq<u8>)
    requires
        rdata_roundtrips(h, d),
    ensures
        read_rdata_body_at(pre + rdata_wire(d) + rest, pre.len() as int, h) == Ok::<
            (RDataView, int),
            RDataError,
        >((d, pre.len() + rdata_wire(d).len() as int)),
{
    match d {
        RDataView::A(a) => lemma_bytes_roundtrip(a, pre, rest),
        RDataView::NS(n) => lemma_pack_unpack(n, pre, rest),
        RDataView::CNAME(n) => lemma_pack_unpack(n, pre, rest),
        RDataView::SOA(s) => lemma_soa_write_read(s, pre, rest),
        RDataView::NULL(v) => lemma_null_write_read(v, pre, rest),
        RDataView::PTR(n) => lemma_pack_unpack(n, pre, rest),
        RDataView::HINFO(x) => lemma_hinfo_write_read(x, pre, rest),
        RDataView::MINFO(m) => lemma_minfo_write_read(m, pre, rest),
        RDataView::MX(m) => lemma_mx_write_read(m, pre, rest),
        RDataView::TXT(t) => lemma_txt_write_read(t, pre, rest),
        RDataView::AAAA(a) => lemma_bytes_roundtrip(a, pre, rest),
        RDataView::OPT(o) => lemma_opt_write_read(h, o, pre, rest),
        _ => {},
    }
}

/// What [`RData::write`] writes, [`RData::read`] reads back under a record
/// header that fits the data, whatever octets stand before or after it.
pub proof fn lemma_rdata_write_read(h: RHeaderView, d: RDataView, pre: Seq<u8>, rest: Seq<u8>)
    requires
        rdata_roundtrips(h, d),
    ensures
        read_rdata_at(pre + rdata_wire(d) + rest, pre.len() as int, h) == Ok::<
            (RDataView, int),
            RDataError,
        >((d, pre.len() + rdata_wire(d).len() as int)),
{
    lemma_rdata_body_write_read(h, d, pre, rest);
}

impl Default for RData {
    /// Empty NULL data.
    fn default() -> (r: Self)
        ensures
            r@ == RDataView::NULL(Seq::empty()),
    {
        Self::NULL(NULL::new())
    }
}

/// The length of a name on the wire.
fn name_len(n: &Name) -> (r: usize)
    ensures
        r == wire_len(n@),
        r == name_wire(n@).len(),
        r <= 255,
{
    proof {
        use_type_invariant(n);
        crate::types::dns::name::lemma_name_wire_len(n@);
    }
    n.len()
}

/// Writes a name as record data.
fn write_name(n: &Name, buf: &mut PackBuffer) -> (r: Result<usize, RDataError>)
    ensures
        final(buf).bytes() == old(buf).bytes() + name_wire(n@),
        name_wire(n@).len() == wire_len(n@),
        wire_len(n@) <= 256,
        wire_len(n@) <= 255 ==> r == Ok::<usize, RDataError>(wire_len(n@) as usize),
        wire_len(n@) > 255 ==> r == Err::<usize, RDataError>(
            RDataError::NameError(ProtocolError::DomainNameTooLong),
        ),
{
    let len = n.len();
    match n.pack(buf) {
        Ok(()) => Ok(len),
        Err(e) => Err(RDataError::NameError(e)),
    }
}

impl RData {
    /// Parses record data from text, for the types that have a text form
    /// here: an IPv4 address (A), an IPv6 address (AAAA) or a name (NS or
    /// CNAME, parsed as [`Name::try_from`] does). An error carries the type
    /// and the message of what went wrong.
    pub fn try_from_str(ty: Type, rdata: &str) -> (r: Result<Self, RDataParseError>)
        requires
            ty is A || ty is NS || ty is CNAME || ty is AAAA,
        ensures
            ty is A ==> match ipv4_from_text(rdata@) {
                Ok(a) => r matches Ok(d) && d@ == RDataView::A(a),
                Err(t) => r matches Err(x) && x.record_type() == ty && x.message() == t,
            },
            ty is A ==> match dotted_quad(rdata@) {
                Some(a) => r matches Ok(d) && d@ == RDataView::A(a),
                None => r is Err,
            },
            ty is AAAA ==> match ipv6_from_text(rdata@) {
                Ok(a) => r matches Ok(d) && d@ == RDataView::AAAA(a),
                Err(t) => r matches Err(x) && x.record_type() == ty && x.message() == t,
            },
            ty is NS || ty is CNAME ==> match name_from_text(lowercase(rdata@)) {
                Ok(ls) => r matches Ok(d) && d@ == (if ty is NS {
                    RDataView::NS(ls)
                } else {
                    RDataView::CNAME(ls)
                }),
                Err(e) => r matches Err(x) && x.record_type() == ty && x.message()
                    == protocol_error_text(e),
            },
    {
        match ty {
            Type::A => match parse_ipv4(rdata) {
                Ok(ip) => Ok(Self::A(ip)),
                Err(err) => Err(RDataParseError::new(ty, err)),
            },
            Type::NS => match Name::try_from(rdata) {
                Ok(name) => Ok(Self::NS(name)),
                Err(err) => Err(RDataParseError::new(ty, err.to_string())),
            },
            Type::CNAME => match Name::try_from(rdata) {
                Ok(name) => Ok(Self::CNAME(name)),
                Err(err) => Err(RDataParseError::new(ty, err.to_string())),
            },
            _ => match parse_ipv6(rdata) {
                Ok(ip) => Ok(Self::AAAA(ip)),
                Err(err) => Err(RDataParseError::new(ty, err)),
            },
        }
    }

    /// The data as text, by type: an address, a name, or the text of the
    /// data's own type.
    pub fn to_string(&self) -> (r: String)
        requires
            rdata_is_data(self@),
        ensures
            r@ == rdata_text(self@),
    {
        match self {
            RData::A(a) => {
                let mut s = String::new();
                push_ipv4(&mut s, a);
                assert(s@ =~= ipv4_text(a@));
                s
            },
            RData::NS(n) => n.as_dotted_string(),
            RData::CNAME(n) => n.as_dotted_string(),
            RData::SOA(soa) => soa.to_string(),
            RData::NULL(null) => null.to_string(),
            RData::PTR(n) => n.as_dotted_string(),
            RData::HINFO(h) => h.to_string(),
            RData::MINFO(m) => m.to_string(),
            RData::MX(m) => m.to_string(),
            RData::TXT(t) => t.to_string(),
            RData::AAAA(a) => format_ipv6(a),
            RData::OPT(o) => o.to_string(),
            _ => String::new(),
        }
    }

    /// Reads the data of a record with the given header, and checks that it
    /// took exactly RDLENGTH octets.
    pub fn read(buf: &mut UnpackBuffer, header: &RHeader) -> (r: Result<Self, RDataError>)
        requires
            rdata_type_supported(header@.ty),
        ensures
            final(buf).bytes() == old(buf).bytes(),
            match read_rdata_at(old(buf).bytes(), old(buf).pos(), header@) {
                Ok((v, p)) => r matches Ok(x) && x@ == v && final(buf).pos() == p,
                Err(e) => r matches Err(x) && x == e,
            },
    {
        let buf_offset_start = buf.offset();
        let rdata = match header.ty() {
            Type::A => match a::unpack(buf) {
                Ok(v) => Self::A(v),
                Err(e) => return Err(RDataError::BufferError(e)),
            },
            Type::NS => match Name::unpack(buf) {
                Ok(n) => Self::NS(n),
                Err(e) => return Err(RDataError::NameError(e)),
            },
            Type::CNAME => match Name::unpack(buf) {
                Ok(n) => Self::CNAME(n),
                Err(e) => return Err(RDataError::NameError(e)),
            },
            Type::SOA => Self::SOA(SOA::read(buf)?),
            Type::NULL => match NULL::read(buf, header.rdlen()) {
                Ok(v) => Self::NULL(v),
                Err(e) => return Err(RDataError::BufferError(e)),
            },
            Type::PTR => match Name::unpack(buf) {
                Ok(n) => Self::PTR(n),
                Err(e) => return Err(RDataError::NameError(e)),
            },
            Type::HINFO => match HINFO::read(buf) {
                Ok(v) => Self::HINFO(v),
                Err(e) => return Err(RDataError::BufferError(e)),
            },
            Type::MINFO => Self::MINFO(MINFO::read(buf)?),
            Type::MX => Self::MX(MX::read(buf)?),
            Type::TXT => match TXT::read(buf, header.rdlen()) {
                Ok(v) => Self::TXT(v),
                Err(e) => return Err(RDataError::BufferError(e)),
            },
            Type::AAAA => match a::unpack_v6(buf) {
                Ok(v) => Self::AAAA(v),
                Err(e) => return Err(RDataError::BufferError(e)),
            },
            Type::OPT => Self::OPT(OPT::read(buf, header)?),
            _ => return Err(RDataError::UnsupportedType(*header.ty())),
        };

        // Check that we read the correct number of octets defined by RDLEN
        proof {
            lemma_read_rdata_body_end(old(buf).bytes(), old(buf).pos(), header@);
        }
        let length_read = #[verifier::truncate] ((buf.offset() - buf_offset_start) as u16);
        let length_expected = header.rdlen();

        if length_read != length_expected {
            return Err(RDataError::InvalidRDataLen { expected: length_expected, got: length_read });
        }

        Ok(rdata)
    }

    /// Returns the length of the data (see [`rdata_len`]).
    pub fn len(&self) -> (r: usize)
        requires
            rdata_has_len(self@),
        ensures
            r == rdata_len(self@),
            r == rdata_wire(self@).len(),
            r <= txt::TXT_MAX_WIRE,
    {
        match self {
            RData::A(_) => 4,
            RData::NS(ns) => name_len(ns),
            RData::CNAME(cname) => name_len(cname),
            RData::SOA(soa) => soa.len(),
            RData::NULL(null) => null.len(),
            RData::PTR(ptr) => name_len(ptr),
            RData::HINFO(hinfo) => hinfo.len(),
            RData::MINFO(minfo) => minfo.len(),
            RData::MX(mx) => mx.len(),
            RData::TXT(txt) => txt.size(),
            RData::AAAA(_) => 16,
            _ => 0,
        }
    }

    /// Writes the data in wire format; refuses a name longer than 255 octets.
    pub fn write(&self, buf: &mut PackBuffer) -> (r: Result<usize, RDataError>)
        requires
            rdata_is_data(self@),
        ensures
            !(self@ is OPT) ==> rdata_wire(self@).len() <= txt::TXT_MAX_WIRE,
            rdata_names_fit(self@) ==> r == Ok::<usize, RDataError>(
                rdata_wire(self@).len() as usize,
            ) && final(buf).bytes() == old(buf).bytes() + rdata_wire(self@),
            !rdata_names_fit(self@) ==> r is Err,
    {
        match self {
            RData::A(a) => {
                buf.pack_slice(a);
                assert(a@.len() == 4);
                Ok(4)
            },
            RData::NS(ns) => write_name(ns, buf),
            RData::CNAME(cname) => write_name(cname, buf),
            RData::SOA(soa) => soa.write(buf),
            RData::NULL(null) => Ok(null.write(buf)),
            RData::PTR(ptr) => write_name(ptr, buf),
            RData::HINFO(hinfo) => Ok(hinfo.write(buf)),
            RData::MINFO(minfo) => minfo.write(buf),
            RData::MX(mx) => mx.write(buf),
            RData::TXT(txt) => Ok(txt.write(buf)),
            RData::AAAA(aaaa) => {
                buf.pack_slice(aaaa);
                assert(aaaa@.len() == 16);
                Ok(16)
            },
            RData::OPT(opt) => Ok(opt.write(buf)),
            _ => Ok(0),
        }
    }
}

} // verus!
