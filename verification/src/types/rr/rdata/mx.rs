use vstd::prelude::*;

use super::RDataError;
use crate::packing::{lemma_u16_roundtrip, read_u16_at, u16_wire, PackBuffer, UnpackBuffer};
use crate::types::dns::name::{
    lemma_name_wire_len, lemma_pack_unpack, name_roundtrips, name_wire, read_name, wire_len, Name,
};

use crate::text::{decimal, push_decimal};
use crate::types::dns::name::dotted;

verus! {

/// Mail exchange data: a preference (lower is preferred) and the host.
#[derive(Debug)]
pub struct MX {
    preference: u16,
    exchange: Name,
}

/// The contents of a [`MX`].
pub struct MXView {
    pub preference: u16,
    pub exchange: Seq<Seq<u8>>,
}

impl View for MX {
    type V = MXView;

    closed spec fn view(&self) -> MXView {
        MXView { preference: self.preference, exchange: self.exchange@ }
    }
}

/// Reading MX data at offset `p`.
pub open spec fn read_mx_at(b: Seq<u8>, p: int) -> Result<(MXView, int), RDataError> {
    match read_u16_at(b, p) {
        Err(e) => Err(RDataError::BufferError(e)),
        Ok((preference, p1)) => match read_name(b, p1) {
            Err(e) => Err(RDataError::NameError(e)),
            Ok((exchange, p2)) => Ok((MXView { preference, exchange }, p2)),
        },
    }
}

/// MX data on the wire.
pub open spec fn mx_wire(m: MXView) -> Seq<u8> {
    u16_wire(m.preference) + name_wire(m.exchange)
}

impl MX {
    /// Reads MX data.
    pub fn read(buf: &mut UnpackBuffer) -> (r: Result<Self, RDataError>)
        ensures
            final(buf).bytes() == old(buf).bytes(),
            match read_mx_at(old(buf).bytes(), old(buf).pos()) {
                Ok((m, p)) => r matches Ok(x) && x@ == m && final(buf).pos() == p,
                Err(e) => r matches Err(x) && x == e,
            },
    {
        let preference = match buf.unpack_u16() {
            Ok(v) => v,
            Err(e) => return Err(RDataError::BufferError(e)),
        };
        let exchange = match Name::unpack(buf) {
            Ok(n) => n,
            Err(e) => return Err(RDataError::NameError(e)),
        };
        Ok(Self { preference, exchange })
    }

    /// Writes MX data; refuses an exchange name longer than 255 octets
    /// (after writing it).
    pub fn write(&self, buf: &mut PackBuffer) -> (r: Result<usize, RDataError>)
        ensures
            mx_wire(self@).len() <= 258,
            final(buf).bytes() == old(buf).bytes() + mx_wire(self@),
            wire_len(self@.exchange) <= 255 ==> r == Ok::<usize, RDataError>(
                mx_wire(self@).len() as usize,
            ),
            wire_len(self@.exchange) > 255 ==> r is Err,
    {
        proof {
            use_type_invariant(&self.exchange);
            lemma_name_wire_len(self@.exchange);
        }
        buf.pack_u16(self.preference);
        let n = self.exchange.len();
        let res = self.exchange.pack(buf);
        assert(buf.bytes() =~= old(buf).bytes() + mx_wire(self@));
        match res {
            Ok(()) => Ok(n + 2),
            Err(e) => Err(RDataError::NameError(e)),
        }
    }

    /// Returns the length of the [`MX`] record: the exchange name and 2 for
    /// the preference.
    pub fn len(&self) -> (r: usize)
        ensures
            r == wire_len(self@.exchange) + 2,
            r == mx_wire(self@).len(),
            r <= 258,
    {
        proof {
            use_type_invariant(&self.exchange);
            lemma_name_wire_len(self@.exchange);
        }
        self.exchange.len() + 2
    }
}

/// What MX data writes, reading MX data gives back, when the exchange name
/// reads back as itself.
pub proof fn lemma_mx_write_read(m: MXView, pre: Seq<u8>, rest: Seq<u8>)
    requires
        name_roundtrips(m.exchange),
    ensures
        read_mx_at(pre + mx_wire(m) + rest, pre.len() as int) == Ok::<(MXView, int), RDataError>(
            (m, pre.len() as int + mx_wire(m).len()),
        ),
{
    let b = pre + mx_wire(m) + rest;
    let w1 = u16_wire(m.preference);
    let w2 = name_wire(m.exchange);
    assert(b =~= pre + w1 + (w2 + rest));
    lemma_u16_roundtrip(m.preference, w2 + rest, pre);
    let pre1 = pre + w1;
    assert(b =~= pre1 + w2 + rest);
    lemma_pack_unpack(m.exchange, pre1, rest);
}

/// MX data as text: the preference and the exchange host.
pub open spec fn mx_text(m: MXView) -> Seq<char> {
    "PREF: "@ + decimal(m.preference as nat) + " EX: "@ + dotted(m.exchange)
}

impl MX {
    /// The preference and the exchange host, as text.
    pub fn to_string(&self) -> (r: String)
        ensures
            r@ == mx_text(self@),
    {
        let mut s = String::new();
        s.append("PREF: ");
        push_decimal(&mut s, self.preference as u32);
        s.append(" EX: ");
        let name = self.exchange.as_dotted_string();
        s.append(name.as_str());
        assert(s@ =~= "PREF: "@ + decimal(self@.preference as nat) + " EX: "@ + dotted(self@.exchange));
        s
    }
}

} // verus!
