use vstd::prelude::*;

use super::RDataError;
use crate::packing::{PackBuffer, UnpackBuffer};
use crate::types::dns::name::{
    lemma_name_wire_len, lemma_pack_unpack, name_roundtrips, name_wire, read_name, wire_len, Name,
};

use crate::types::dns::name::dotted;

verus! {

/// Mailbox information: the mailbox responsible for the mailing list and
/// the mailbox that receives error messages.
#[derive(Debug)]
pub struct MINFO {
    rmailbx: Name,
    emailbx: Name,
}

/// The contents of a [`MINFO`].
pub struct MINFOView {
    pub rmailbx: Seq<Seq<u8>>,
    pub emailbx: Seq<Seq<u8>>,
}

impl View for MINFO {
    type V = MINFOView;

    closed spec fn view(&self) -> MINFOView {
        MINFOView { rmailbx: self.rmailbx@, emailbx: self.emailbx@ }
    }
}

/// Reading MINFO data at offset `p`: two names.
pub open spec fn read_minfo_at(b: Seq<u8>, p: int) -> Result<(MINFOView, int), RDataError> {
    match read_name(b, p) {
        Err(e) => Err(RDataError::NameError(e)),
        Ok((rmailbx, p1)) => match read_name(b, p1) {
            Err(e) => Err(RDataError::NameError(e)),
            Ok((emailbx, p2)) => Ok((MINFOView { rmailbx, emailbx }, p2)),
        },
    }
}

/// MINFO data on the wire.
pub open spec fn minfo_wire(m: MINFOView) -> Seq<u8> {
    name_wire(m.rmailbx) + name_wire(m.emailbx)
}

impl MINFO {
    /// Reads MINFO data.
    pub fn read(buf: &mut UnpackBuffer) -> (r: Result<Self, RDataError>)
        ensures
            final(buf).bytes() == old(buf).bytes(),
            match read_minfo_at(old(buf).bytes(), old(buf).pos()) {
                Ok((m, p)) => r matches Ok(x) && x@ == m && final(buf).pos() == p,
                Err(e) => r matches Err(x) && x == e,
            },
    {
        let rmailbx = match Name::unpack(buf) {
            Ok(n) => n,
            Err(e) => return Err(RDataError::NameError(e)),
        };
        let emailbx = match Name::unpack(buf) {
            Ok(n) => n,
            Err(e) => return Err(RDataError::NameError(e)),
        };
        Ok(Self { rmailbx, emailbx })
    }

    /// Writes MINFO data; refuses a name longer than 255 octets.
    pub fn write(&self, buf: &mut PackBuffer) -> (r: Result<usize, RDataError>)
        ensures
            minfo_wire(self@).len() <= 512,
            wire_len(self@.rmailbx) <= 255 && wire_len(self@.emailbx) <= 255 ==> r == Ok::<
                usize,
                RDataError,
            >(minfo_wire(self@).len() as usize) && final(buf).bytes() == old(buf).bytes()
                + minfo_wire(self@),
            !(wire_len(self@.rmailbx) <= 255 && wire_len(self@.emailbx) <= 255) ==> r is Err,
    {
        proof {
            use_type_invariant(&self.rmailbx);
            lemma_name_wire_len(self@.rmailbx);
            use_type_invariant(&self.emailbx);
            lemma_name_wire_len(self@.emailbx);
        }
        let n1 = self.rmailbx.len();
        let n2 = self.emailbx.len();
        match self.rmailbx.pack(buf) {
            Ok(()) => {},
            Err(e) => return Err(RDataError::NameError(e)),
        }
        match self.emailbx.pack(buf) {
            Ok(()) => {},
            Err(e) => return Err(RDataError::NameError(e)),
        }
        assert(buf.bytes() =~= old(buf).bytes() + minfo_wire(self@));
        Ok(n1 + n2)
    }

    /// The wire length of both names.
    pub fn len(&self) -> (r: usize)
        ensures
            r == wire_len(self@.rmailbx) + wire_len(self@.emailbx),
            r == minfo_wire(self@).len(),
            r <= 512,
    {
        proof {
            use_type_invariant(&self.rmailbx);
            use_type_invariant(&self.emailbx);
            lemma_name_wire_len(self@.rmailbx);
            lemma_name_wire_len(self@.emailbx);
        }
        self.rmailbx.len() + self.emailbx.len()
    }
}

/// What MINFO data writes, reading MINFO data gives back, when both names
/// read back as themselves.
pub proof fn lemma_minfo_write_read(m: MINFOView, pre: Seq<u8>, rest: Seq<u8>)
    requires
        name_roundtrips(m.rmailbx),
        name_roundtrips(m.emailbx),
    ensures
        read_minfo_at(pre + minfo_wire(m) + rest, pre.len() as int) == Ok::<
            (MINFOView, int),
            RDataError,
        >((m, pre.len() as int + minfo_wire(m).len())),
{
    let b = pre + minfo_wire(m) + rest;
    let w1 = name_wire(m.rmailbx);
    let w2 = name_wire(m.emailbx);
    assert(b =~= pre + w1 + (w2 + rest));
    lemma_pack_unpack(m.rmailbx, pre, w2 + rest);
    let pre1 = pre + w1;
    assert(b =~= pre1 + w2 + rest);
    lemma_pack_unpack(m.emailbx, pre1, rest);
}

/// MINFO data as text: the two mailboxes.
pub open spec fn minfo_text(m: MINFOView) -> Seq<char> {
    "RMAILBOX: "@ + dotted(m.rmailbx) + " EMAILBOX: "@ + dotted(m.emailbx)
}

impl MINFO {
    /// The two mailboxes, as text.
    pub fn to_string(&self) -> (r: String)
        ensures
            r@ == minfo_text(self@),
    {
        let mut s = String::new();
        s.append("RMAILBOX: ");
        let r = self.rmailbx.as_dotted_string();
        s.append(r.as_str());
        s.append(" EMAILBOX: ");
        let e = self.emailbx.as_dotted_string();
        s.append(e.as_str());
        assert(s@ =~= "RMAILBOX: "@ + dotted(self@.rmailbx) + " EMAILBOX: "@ + dotted(self@.emailbx));
        s
    }
}

} // verus!
