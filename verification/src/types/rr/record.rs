use vstd::prelude::*;

use crate::errors::BufferError;
use crate::packing::{PackBuffer, UnpackBuffer};
use crate::types::dns::name::{wire_len, Name};
use crate::types::rr::rdata::{
    lemma_rdata_write_read, rdata_has_len, rdata_is_data, rdata_len, rdata_names_fit, rdata_roundtrips,
    rdata_type_supported, rdata_wire, read_rdata_at, RData, RDataError, RDataView,
};
use crate::types::rr::rheader::{
    lemma_rheader_write_read, read_rheader_at, rheader_roundtrips, rheader_wire, RHeader, RHeaderError,
    RHeaderView,
};
use crate::types::rr::types::Type;
use crate::constants::RECORD_FIXED_LENGTH;

use crate::text::{decimal, push_char, push_decimal};
use crate::types::dns::name::dotted;
use crate::types::rr::classes::class_text;
use crate::types::rr::rdata::rdata_text;
use crate::types::rr::types::type_text;

verus! {

/// Errors while reading or writing a resource record.
#[derive(Debug, Clone, Copy, PartialEq, Eq, Structural)]
pub enum RecordError {
    RHeaderError(RHeaderError),
    RDataError(RDataError),
    BufferError(BufferError),
}

/// A resource record: a header and the record data.
#[derive(Debug)]
pub struct Record {
    header: RHeader,
    data: RData,
}

/// The contents of a [`Record`].
pub struct RecordView {
    pub header: RHeaderView,
    pub data: RDataView,
}

impl View for Record {
    type V = RecordView;

    closed spec fn view(&self) -> RecordView {
        RecordView { header: self.header@, data: self.data@ }
    }
}

/// Reading a resource record at offset `p`: the header, then data of a
/// handled type.
pub open spec fn read_record_at(b: Seq<u8>, p: int) -> Result<(RecordView, int), RecordError> {
    match read_rheader_at(b, p) {
        Err(e) => Err(RecordError::RHeaderError(e)),
        Ok((h, p1)) => if !rdata_type_supported(h.ty) {
            Err(RecordError::RDataError(RDataError::UnsupportedType(h.ty)))
        } else {
            match read_rdata_at(b, p1, h) {
                Err(e) => Err(RecordError::RDataError(e)),
                Ok((d, p2)) => Ok((RecordView { header: h, data: d }, p2)),
            }
        },
    }
}

/// A resource record on the wire.
pub open spec fn record_wire(r: RecordView) -> Seq<u8> {
    rheader_wire(r.header) + rdata_wire(r.data)
}

/// The size that [`Record::size`] gives: the header on the wire and
/// [`rdata_len`] of the data.
pub open spec fn record_size(r: RecordView) -> int {
    RECORD_FIXED_LENGTH + wire_len(r.header.name) + rdata_len(r.data)
}

impl Default for Record {
    /// A default header and empty NULL data.
    fn default() -> (r: Self)
        ensures
            r@ == (RecordView {
                header: RHeaderView {
                    name: Seq::empty(),
                    ty: Type::NULL,
                    class: crate::types::rr::classes::Class::IN,
                    ttl: 0,
                    rdlen: 0,
                },
                data: RDataView::NULL(Seq::empty()),
            }),
    {
        Record { header: RHeader::default(), data: RData::default() }
    }
}

impl Record {
    /// A record with a default header and empty NULL data.
    pub fn new() -> (r: Self)
        ensures
            r@ == (RecordView {
                header: RHeaderView {
                    name: Seq::empty(),
                    ty: Type::NULL,
                    class: crate::types::rr::classes::Class::IN,
                    ttl: 0,
                    rdlen: 0,
                },
                data: RDataView::NULL(Seq::empty()),
            }),
    {
        Record::default()
    }

    /// A record with the given header and empty NULL data.
    pub fn new_with_header(header: RHeader) -> (r: Self)
        ensures
            r@ == (RecordView { header: header@, data: RDataView::NULL(Seq::empty()) }),
    {
        Self { header, data: RData::default() }
    }

    /// Set the complete resource record header [`RHeader`] at once.
    pub fn set_header(&mut self, header: RHeader) -> (r: &mut Self)
        ensures
            (*r)@ == (RecordView { header: header@, data: old(self)@.data }),
            *final(self) == *final(r),
    {
        self.header = header;
        self
    }

    /// Set the resource record header domain name.
    pub fn set_header_name(&mut self, name: Name) -> (r: &mut Self)
        ensures
            (*r)@ == (RecordView {
                header: RHeaderView { name: name@, ..old(self)@.header },
                data: old(self)@.data,
            }),
            *final(self) == *final(r),
    {
        self.header.set_name(name);
        self
    }

    pub fn header(&self) -> (r: &RHeader)
        ensures
            r@ == self@.header,
    {
        &self.header
    }

    /// Set the [`RData`] section of the [`Record`].
    pub fn set_rdata(&mut self, rdata: RData) -> (r: &mut Self)
        ensures
            (*r)@ == (RecordView { header: old(self)@.header, data: rdata@ }),
            *final(self) == *final(r),
    {
        self.data = rdata;
        self
    }

    pub fn rdata(&self) -> (r: &RData)
        ensures
            r@ == self@.data,
    {
        &self.data
    }

    /// Sets RDLENGTH to [`Record::size`], cut to 16 bits.
    pub fn normalize_rdlen(&mut self) -> (r: &mut Self)
        requires
            rdata_has_len(old(self)@.data),
        ensures
            (*r)@ == (RecordView {
                header: RHeaderView {
                    rdlen: record_size(old(self)@) as u16,
                    ..old(self)@.header
                },
                data: old(self)@.data,
            }),
            *final(self) == *final(r),
    {
        let size = self.size();
        self.header.set_rdlen(#[verifier::truncate] (size as u16));
        self
    }

    /// The size of the header on the wire plus [`RData::len`] of the data.
    pub fn size(&self) -> (r: usize)
        requires
            rdata_has_len(self@.data),
        ensures
            r == record_size(self@),
    {
        self.header.size() + self.data.len()
    }

    /// Whether the record is an OPT record.
    pub fn is_edns(&self) -> (r: bool)
        ensures
            r == (self@.header.ty == Type::OPT),
    {
        *self.header.ty() == Type::OPT
    }

    /// Whether the record is a SOA record.
    pub fn is_soa(&self) -> (r: bool)
        ensures
            r == (self@.header.ty == Type::SOA),
    {
        *self.header.ty() == Type::SOA
    }

    /// Reads a resource record: the header, then the data.
    pub fn read(buf: &mut UnpackBuffer) -> (r: Result<Self, RecordError>)
        ensures
            final(buf).bytes() == old(buf).bytes(),
            match read_record_at(old(buf).bytes(), old(buf).pos()) {
                Ok((v, p)) => r matches Ok(x) && x@ == v && final(buf).pos() == p,
                Err(e) => r matches Err(x) && x == e,
            },
    {
        let header = match RHeader::read(buf) {
            Ok(h) => h,
            Err(e) => return Err(RecordError::RHeaderError(e)),
        };
        let ty = *header.ty();
        if !Self::is_supported_type(ty) {
            return Err(RecordError::RDataError(RDataError::UnsupportedType(ty)));
        }
        let data = match RData::read(buf, &header) {
            Ok(d) => d,
            Err(e) => return Err(RecordError::RDataError(e)),
        };
        Ok(Self { header, data })
    }

    /// Whether data of this type is read.
    fn is_supported_type(ty: Type) -> (r: bool)
        ensures
            r == rdata_type_supported(ty),
    {
        match ty {
            Type::AXFR | Type::MAILB | Type::MAILA | Type::ANY | Type::UNKNOWN(_) => false,
            _ => true,
        }
    }

    /// Writes the record: the header, then the data.
    pub fn write(&self, buf: &mut PackBuffer) -> (r: Result<usize, RecordError>)
        requires
            rdata_is_data(self@.data),
        ensures
            wire_len(self@.header.name) <= 255 && rdata_names_fit(self@.data) ==> r == Ok::<
                usize,
                RecordError,
            >(record_wire(self@).len() as usize) && final(buf).bytes() == old(buf).bytes()
                + record_wire(self@),
            !(wire_len(self@.header.name) <= 255 && rdata_names_fit(self@.data)) ==> r is Err,
    {
        let n = match self.header.write(buf) {
            Ok(n) => n,
            Err(e) => return Err(RecordError::RHeaderError(e)),
        };
        let m = match self.data.write(buf) {
            Ok(m) => m,
            Err(e) => return Err(RecordError::RDataError(e)),
        };
        assert(buf.bytes() =~= old(buf).bytes() + record_wire(self@));
        proof {
            buf.lemma_bytes_fit();
        }
        Ok(n + m)
    }
}

/// A record never has a negative size.
pub proof fn lemma_record_size_nonneg(r: RecordView)
    ensures
        record_size(r) >= 0,
{
}

/// Whether the wire form of a record reads back as the same record: its
/// header does, and its data does under that header.
#[verifier::opaque]
pub open spec fn record_roundtrips(r: RecordView) -> bool {
    rheader_roundtrips(r.header) && rdata_roundtrips(r.header, r.data)
}

/// What [`Record::write`] writes, [`Record::read`] reads back: the same
/// record, ending right after its octets, whatever octets stand before or
/// after it.
pub proof fn lemma_record_write_read(r: RecordView, pre: Seq<u8>, rest: Seq<u8>)
    requires
        record_roundtrips(r),
    ensures
        read_record_at(pre + record_wire(r) + rest, pre.len() as int) == Ok::<
            (RecordView, int),
            RecordError,
        >((r, pre.len() + record_wire(r).len() as int)),
{
    reveal(record_roundtrips);
    let b = pre + record_wire(r) + rest;
    let hw = rheader_wire(r.header);
    let dw = rdata_wire(r.data);
    assert(b =~= pre + hw + (dw + rest));
    lemma_rheader_write_read(r.header, pre, dw + rest);
    assert(b =~= (pre + hw) + dw + rest);
    lemma_rdata_write_read(r.header, r.data, pre + hw, rest);
}

/// A record as text: owner name, TTL, class, type and data, separated by
/// tabs.
pub open spec fn record_text(r: RecordView) -> Seq<char> {
    dotted(r.header.name) + seq!['\t'] + decimal(r.header.ttl as nat) + seq!['\t'] + class_text(
        r.header.class,
    ) + seq!['\t'] + type_text(r.header.ty) + seq!['\t'] + rdata_text(r.data)
}

impl Record {
    /// The record as text.
    pub fn to_string(&self) -> (r: String)
        requires
            rdata_is_data(self@.data),
        ensures
            r@ == record_text(self@),
    {
        let mut s = self.header.name().as_dotted_string();
        push_char(&mut s, '\t');
        push_decimal(&mut s, self.header.ttl());
        push_char(&mut s, '\t');
        let c = self.header.class().to_string();
        s.append(c.as_str());
        push_char(&mut s, '\t');
        let t = self.header.ty().to_string();
        s.append(t.as_str());
        push_char(&mut s, '\t');
        let d = self.data.to_string();
        s.append(d.as_str());
        assert(s@ =~= record_text(self@));
        s
    }
}

} // verus!
