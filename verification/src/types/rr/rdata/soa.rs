use vstd::prelude::*;

use super::RDataError;
use crate::errors::{BufferError, ProtocolError};
use crate::packing::{lemma_u32_roundtrip, read_u32_at, u32_wire, PackBuffer, UnpackBuffer};
use crate::types::dns::name::{
    lemma_name_wire_len, lemma_pack_unpack, name_roundtrips, name_wire, read_name, wire_len, Name,
};

use crate::text::{decimal, push_decimal};
use crate::types::dns::name::dotted;

verus! {

/// Start of a zone of authority: the primary name server, the responsible
/// mailbox, and the serial number and timers of the zone.
#[derive(Debug)]
pub struct SOA {
    mname: Name,
    rname: Name,
    serial: u32,
    refresh: u32,
    retry: u32,
    expire: u32,
    minimum: u32,
}

/// The contents of a [`SOA`].
pub struct SOAView {
    pub mname: Seq<Seq<u8>>,
    pub rname: Seq<Seq<u8>>,
    pub serial: u32,
    pub refresh: u32,
    pub retry: u32,
    pub expire: u32,
    pub minimum: u32,
}

impl View for SOA {
    type V = SOAView;

    closed spec fn view(&self) -> SOAView {
        SOAView {
            mname: self.mname@,
            rname: self.rname@,
            serial: self.serial,
            refresh: self.refresh,
            retry: self.retry,
            expire: self.expire,
            minimum: self.minimum,
        }
    }
}

/// Reading SOA data at offset `p`: two names and five `u32`s.
pub open spec fn read_soa_at(b: Seq<u8>, p: int) -> Result<(SOAView, int), RDataError> {
    match read_name(b, p) {
        Err(e) => Err(RDataError::NameError(e)),
        Ok((mname, p1)) => match read_name(b, p1) {
            Err(e) => Err(RDataError::NameError(e)),
            Ok((rname, p2)) => match read_u32_at(b, p2) {
                Err(e) => Err(RDataError::BufferError(e)),
                Ok((serial, p3)) => match read_u32_at(b, p3) {
                    Err(e) => Err(RDataError::BufferError(e)),
                    Ok((refresh, p4)) => match read_u32_at(b, p4) {
                        Err(e) => Err(RDataError::BufferError(e)),
                        Ok((retry, p5)) => match read_u32_at(b, p5) {
                            Err(e) => Err(RDataError::BufferError(e)),
                            Ok((expire, p6)) => match read_u32_at(b, p6) {
                                Err(e) => Err(RDataError::BufferError(e)),
                                Ok((minimum, p7)) => Ok(
                                    (
                                        SOAView {
                                            mname,
                                            rname,
                                            serial,
                                            refresh,
                                            retry,
                                            expire,
                                            minimum,
                                        },
                                        p7,
                                    ),
                                ),
                            },
                        },
                    },
                },
            },
        },
    }
}

/// SOA data on the wire.
pub open spec fn soa_wire(s: SOAView) -> Seq<u8> {
    name_wire(s.mname) + name_wire(s.rname) + u32_wire(s.serial) + u32_wire(s.refresh) + u32_wire(
        s.retry,
    ) + u32_wire(s.expire) + u32_wire(s.minimum)
}

impl SOA {
    /// Reads SOA data.
    pub fn read(buf: &mut UnpackBuffer) -> (r: Result<Self, RDataError>)
        ensures
            final(buf).bytes() == old(buf).bytes(),
            match read_soa_at(old(buf).bytes(), old(buf).pos()) {
                Ok((s, p)) => r matches Ok(x) && x@ == s && final(buf).pos() == p,
                Err(e) => r matches Err(x) && x == e,
            },
    {
        let mname = match Name::unpack(buf) {
            Ok(n) => n,
            Err(e) => return Err(RDataError::NameError(e)),
        };
        let rname = match Name::unpack(buf) {
            Ok(n) => n,
            Err(e) => return Err(RDataError::NameError(e)),
        };
        let serial = match buf.unpack_u32() {
            Ok(v) => v,
            Err(e) => return Err(RDataError::BufferError(e)),
        };
        let refresh = match buf.unpack_u32() {
            Ok(v) => v,
            Err(e) => return Err(RDataError::BufferError(e)),
        };
        let retry = match buf.unpack_u32() {
            Ok(v) => v,
            Err(e) => return Err(RDataError::BufferError(e)),
        };
        let expire = match buf.unpack_u32() {
            Ok(v) => v,
            Err(e) => return Err(RDataError::BufferError(e)),
        };
        let minimum = match buf.unpack_u32() {
            Ok(v) => v,
            Err(e) => return Err(RDataError::BufferError(e)),
        };
        Ok(Self { mname, rname, serial, refresh, retry, expire, minimum })
    }

    /// Writes SOA data; refuses a name longer than 255 octets.
    pub fn write(&self, buf: &mut PackBuffer) -> (r: Result<usize, RDataError>)
        ensures
            soa_wire(self@).len() <= 532,
            wire_len(self@.mname) <= 255 && wire_len(self@.rname) <= 255 ==> r == Ok::<
                usize,
                RDataError,
            >(soa_wire(self@).len() as usize) && final(buf).bytes() == old(buf).bytes()
                + soa_wire(self@),
            !(wire_len(self@.mname) <= 255 && wire_len(self@.rname) <= 255) ==> r is Err,
    {
        proof {
            use_type_invariant(&self.mname);
            lemma_name_wire_len(self@.mname);
            use_type_invariant(&self.rname);
            lemma_name_wire_len(self@.rname);
        }
        let n = self.len();
        match self.mname.pack(buf) {
            Ok(()) => {},
            Err(e) => return Err(RDataError::NameError(e)),
        }
        match self.rname.pack(buf) {
            Ok(()) => {},
            Err(e) => return Err(RDataError::NameError(e)),
        }
        buf.pack_u32(self.serial);
        buf.pack_u32(self.refresh);
        buf.pack_u32(self.retry);
        buf.pack_u32(self.expire);
        buf.pack_u32(self.minimum);
        assert(buf.bytes() =~= old(buf).bytes() + soa_wire(self@));
        Ok(n)
    }

    /// Returns the length of the [`SOA`] record: both names and 5 x 4
    /// octets for the five `u32`s.
    pub fn len(&self) -> (r: usize)
        ensures
            r == wire_len(self@.mname) + wire_len(self@.rname) + 20,
            r == soa_wire(self@).len(),
            r <= 532,
    {
        proof {
            use_type_invariant(&self.mname);
            use_type_invariant(&self.rname);
            lemma_name_wire_len(self@.mname);
            lemma_name_wire_len(self@.rname);
        }
        self.mname.len() + self.rname.len() + 20
    }

    /// The primary name server of the zone.
    pub fn get_mname(&self) -> (r: &Name)
        ensures
            r@ == self@.mname,
    {
        &self.mname
    }
}

/// The five counters of SOA data on the wire.
pub open spec fn soa_counters_wire(s: SOAView) -> Seq<u8> {
    u32_wire(s.serial) + u32_wire(s.refresh) + u32_wire(s.retry) + u32_wire(s.expire) + u32_wire(
        s.minimum,
    )
}

/// Reading back the five counters at their offsets.
proof fn lemma_soa_counters(s: SOAView, pre: Seq<u8>, rest: Seq<u8>)
    ensures
        ({
            let b = pre + soa_counters_wire(s) + rest;
            let p = pre.len() as int;
            &&& read_u32_at(b, p) == Ok::<(u32, int), BufferError>((s.serial, p + 4))
            &&& read_u32_at(b, p + 4) == Ok::<(u32, int), BufferError>((s.refresh, p + 8))
            &&& read_u32_at(b, p + 8) == Ok::<(u32, int), BufferError>((s.retry, p + 12))
            &&& read_u32_at(b, p + 12) == Ok::<(u32, int), BufferError>((s.expire, p + 16))
            &&& read_u32_at(b, p + 16) == Ok::<(u32, int), BufferError>((s.minimum, p + 20))
        }),
{
    let b = pre + soa_counters_wire(s) + rest;
    let w3 = u32_wire(s.serial);
    let w4 = u32_wire(s.refresh);
    let w5 = u32_wire(s.retry);
    let w6 = u32_wire(s.expire);
    let w7 = u32_wire(s.minimum);
    assert(b =~= pre + w3 + (w4 + w5 + w6 + w7 + rest));
    lemma_u32_roundtrip(s.serial, w4 + w5 + w6 + w7 + rest, pre);
    let pre3 = pre + w3;
    assert(b =~= pre3 + w4 + (w5 + w6 + w7 + rest));
    lemma_u32_roundtrip(s.refresh, w5 + w6 + w7 + rest, pre3);
    let pre4 = pre3 + w4;
    assert(b =~= pre4 + w5 + (w6 + w7 + rest));
    lemma_u32_roundtrip(s.retry, w6 + w7 + rest, pre4);
    let pre5 = pre4 + w5;
    assert(b =~= pre5 + w6 + (w7 + rest));
    lemma_u32_roundtrip(s.expire, w7 + rest, pre5);
    let pre6 = pre5 + w6;
    assert(b =~= pre6 + w7 + rest);
    lemma_u32_roundtrip(s.minimum, rest, pre6);
}

/// What SOA data writes, reading SOA data gives back, when both names read
/// back as themselves.
#[verifier::spinoff_prover]
#[verifier::rlimit(50)]
pub proof fn lemma_soa_write_read(s: SOAView, pre: Seq<u8>, rest: Seq<u8>)
    requires
        name_roundtrips(s.mname),
        name_roundtrips(s.rname),
    ensures
        read_soa_at(pre + soa_wire(s) + rest, pre.len() as int) == Ok::<(SOAView, int), RDataError>(
            (s, pre.len() as int + soa_wire(s).len()),
        ),
{
    let b = pre + soa_wire(s) + rest;
    let w1 = name_wire(s.mname);
    let w2 = name_wire(s.rname);
    let c = soa_counters_wire(s);
    let p = pre.len() as int;
    let p1 = p + w1.len();
    let p2 = p1 + w2.len();
    assert(soa_wire(s) =~= w1 + w2 + c);
    assert(read_name(b, p) == Ok::<(Seq<Seq<u8>>, int), ProtocolError>((s.mname, p1))) by {
        assert(b =~= pre + w1 + (w2 + c + rest));
        lemma_pack_unpack(s.mname, pre, w2 + c + rest);
    }
    assert(read_name(b, p1) == Ok::<(Seq<Seq<u8>>, int), ProtocolError>((s.rname, p2))) by {
        assert(b =~= (pre + w1) + w2 + (c + rest));
        lemma_pack_unpack(s.rname, pre + w1, c + rest);
    }
    assert(b =~= (pre + w1 + w2) + c + rest);
    lemma_soa_counters(s, pre + w1 + w2, rest);
    lemma_read_soa_steps(b, p, p1, p2, s);
}

/// Reading SOA data whose names and counters each read back.
proof fn lemma_read_soa_steps(b: Seq<u8>, p: int, p1: int, p2: int, s: SOAView)
    requires
        read_name(b, p) == Ok::<(Seq<Seq<u8>>, int), ProtocolError>((s.mname, p1)),
        read_name(b, p1) == Ok::<(Seq<Seq<u8>>, int), ProtocolError>((s.rname, p2)),
        read_u32_at(b, p2) == Ok::<(u32, int), BufferError>((s.serial, p2 + 4)),
        read_u32_at(b, p2 + 4) == Ok::<(u32, int), BufferError>((s.refresh, p2 + 8)),
        read_u32_at(b, p2 + 8) == Ok::<(u32, int), BufferError>((s.retry, p2 + 12)),
        read_u32_at(b, p2 + 12) == Ok::<(u32, int), BufferError>((s.expire, p2 + 16)),
        read_u32_at(b, p2 + 16) == Ok::<(u32, int), BufferError>((s.minimum, p2 + 20)),
    ensures
        read_soa_at(b, p) == Ok::<(SOAView, int), RDataError>((s, p2 + 20)),
{
}

/// SOA data as text: the two names, then the counters, one per line.
pub open spec fn soa_text(s: SOAView) -> Seq<char> {
    "SOA "@ + dotted(s.mname) + " "@ + dotted(s.rname) + " (\n  "@ + decimal(s.serial as nat)
        + "; serial\n  "@ + decimal(s.refresh as nat) + "; refresh\n  "@ + decimal(s.retry as nat)
        + "; retry\n  "@ + decimal(s.expire as nat) + "; expire\n  "@ + decimal(s.minimum as nat)
        + "; minimum\n)"@
}

impl SOA {
    /// The names and counters, as text.
    pub fn to_string(&self) -> (r: String)
        ensures
            r@ == soa_text(self@),
    {
        let mut s = String::new();
        s.append("SOA ");
        let m = self.mname.as_dotted_string();
        s.append(m.as_str());
        s.append(" ");
        let r = self.rname.as_dotted_string();
        s.append(r.as_str());
        s.append(" (\n  ");
        push_decimal(&mut s, self.serial);
        s.append("; serial\n  ");
        push_decimal(&mut s, self.refresh);
        s.append("; refresh\n  ");
        push_decimal(&mut s, self.retry);
        s.append("; retry\n  ");
        push_decimal(&mut s, self.expire);
        s.append("; expire\n  ");
        push_decimal(&mut s, self.minimum);
        s.append("; minimum\n)");
        assert(s@ =~= soa_text(self@));
        s
    }
}

} // verus!
