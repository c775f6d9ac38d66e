use vstd::prelude::*;

use crate::constants::MAX_CHAR_STRING_LENGTH;
use crate::errors::BufferError;
use crate::packing::{
    char_string_wire, lemma_char_string_roundtrip, read_char_string_at, PackBuffer, UnpackBuffer,
};

use crate::text::{debug_bytes, push_debug_bytes};

verus! {

/// Host information: the CPU and the operating system, each a
/// `<character-string>`.
#[derive(Debug)]
pub struct HINFO {
    cpu: Vec<u8>,
    os: Vec<u8>,
}

/// The contents of a [`HINFO`].
pub struct HINFOView {
    pub cpu: Seq<u8>,
    pub os: Seq<u8>,
}

impl View for HINFO {
    type V = HINFOView;

    closed spec fn view(&self) -> HINFOView {
        HINFOView { cpu: self.cpu@, os: self.os@ }
    }
}

/// Reading HINFO data at offset `p`: two `<character-string>`s.
pub open spec fn read_hinfo_at(b: Seq<u8>, p: int) -> Result<(HINFOView, int), BufferError> {
    match read_char_string_at(b, p, MAX_CHAR_STRING_LENGTH) {
        Err(e) => Err(e),
        Ok((cpu, p1)) => match read_char_string_at(b, p1, MAX_CHAR_STRING_LENGTH) {
            Err(e) => Err(e),
            Ok((os, p2)) => Ok((HINFOView { cpu, os }, p2)),
        },
    }
}

/// HINFO data on the wire.
pub open spec fn hinfo_wire(h: HINFOView) -> Seq<u8> {
    char_string_wire(h.cpu) + char_string_wire(h.os)
}

impl HINFO {
    #[verifier::type_invariant]
    spec fn inv(&self) -> bool {
        self.cpu@.len() <= 255 && self.os@.len() <= 255
    }

    /// Reads HINFO data.
    pub fn read(buf: &mut UnpackBuffer) -> (r: Result<HINFO, BufferError>)
        ensures
            final(buf).bytes() == old(buf).bytes(),
            match read_hinfo_at(old(buf).bytes(), old(buf).pos()) {
                Ok((h, p)) => r matches Ok(x) && x@ == h && final(buf).pos() == p,
                Err(e) => r matches Err(x) && x == e,
            },
    {
        let cpu = buf.unpack_character_string(MAX_CHAR_STRING_LENGTH)?;
        let os = buf.unpack_character_string(MAX_CHAR_STRING_LENGTH)?;
        Ok(Self { cpu, os })
    }

    /// Writes HINFO data.
    pub fn write(&self, buf: &mut PackBuffer) -> (r: usize)
        ensures
            final(buf).bytes() == old(buf).bytes() + hinfo_wire(self@),
            r == hinfo_wire(self@).len(),
            r <= 512,
    {
        proof {
            use_type_invariant(self);
        }
        let _ = buf.pack_character_string(self.cpu.as_slice(), MAX_CHAR_STRING_LENGTH);
        let _ = buf.pack_character_string(self.os.as_slice(), MAX_CHAR_STRING_LENGTH);
        assert(buf.bytes() =~= old(buf).bytes() + hinfo_wire(self@));
        self.cpu.len() + self.os.len() + 2
    }

    /// The length of the data on the wire: the CPU and OS text, each with
    /// its length octet.
    pub fn len(&self) -> (r: usize)
        ensures
            r == self@.cpu.len() + self@.os.len() + 2,
            r == hinfo_wire(self@).len(),
            r <= 512,
    {
        proof {
            use_type_invariant(self);
        }
        self.cpu.len() + self.os.len() + 2
    }
}

/// What HINFO data writes, reading HINFO data gives back, when both strings
/// have at most 255 octets.
pub proof fn lemma_hinfo_write_read(h: HINFOView, pre: Seq<u8>, rest: Seq<u8>)
    requires
        h.cpu.len() <= 255,
        h.os.len() <= 255,
    ensures
        read_hinfo_at(pre + hinfo_wire(h) + rest, pre.len() as int) == Ok::<
            (HINFOView, int),
            BufferError,
        >((h, pre.len() as int + hinfo_wire(h).len())),
{
    let b = pre + hinfo_wire(h) + rest;
    let w1 = char_string_wire(h.cpu);
    let w2 = char_string_wire(h.os);
    assert(b =~= pre + w1 + (w2 + rest));
    lemma_char_string_roundtrip(h.cpu, MAX_CHAR_STRING_LENGTH, pre, w2 + rest);
    let pre1 = pre + w1;
    assert(b =~= pre1 + w2 + rest);
    lemma_char_string_roundtrip(h.os, MAX_CHAR_STRING_LENGTH, pre1, rest);
}

/// HINFO data as text: the CPU and OS strings, each shown as a list of
/// octets.
pub open spec fn hinfo_text(h: HINFOView) -> Seq<char> {
    "CPU: "@ + debug_bytes(h.cpu) + " OS: "@ + debug_bytes(h.os)
}

impl HINFO {
    /// The CPU and OS strings, each shown as a list of octets.
    pub fn to_string(&self) -> (r: String)
        ensures
            r@ == hinfo_text(self@),
    {
        let mut s = String::new();
        s.append("CPU: ");
        push_debug_bytes(&mut s, self.cpu.as_slice());
        s.append(" OS: ");
        push_debug_bytes(&mut s, self.os.as_slice());
        assert(s@ =~= "CPU: "@ + debug_bytes(self@.cpu) + " OS: "@ + debug_bytes(self@.os));
        s
    }
}

} // verus!
