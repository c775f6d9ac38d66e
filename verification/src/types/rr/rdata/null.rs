use vstd::prelude::*;

use crate::errors::BufferError;
use crate::packing::{lemma_bytes_roundtrip, read_bytes_at, PackBuffer, UnpackBuffer};

use crate::text::{debug_bytes, push_debug_bytes};

verus! {

/// NULL record data: anything at all, 65535 octets or less.
#[derive(Debug)]
pub struct NULL {
    data: Vec<u8>,
}

impl View for NULL {
    type V = Seq<u8>;

    closed spec fn view(&self) -> Seq<u8> {
        self.data@
    }
}

/// Reading NULL data of `rdlen` octets at offset `p`.
pub open spec fn read_null_at(b: Seq<u8>, p: int, rdlen: u16) -> Result<(Seq<u8>, int), BufferError> {
    if rdlen > 0 {
        read_bytes_at(b, p, rdlen as int)
    } else {
        Ok((Seq::empty(), p))
    }
}

impl NULL {
    #[verifier::type_invariant]
    spec fn inv(&self) -> bool {
        self.data@.len() <= 65535
    }

    /// Empty NULL data.
    pub fn new() -> (r: Self)
        ensures
            r@ == Seq::<u8>::empty(),
    {
        Self { data: Vec::new() }
    }

    /// The number of octets of the data.
    pub fn len(&self) -> (r: usize)
        ensures
            r == self@.len(),
            r <= 65535,
    {
        proof {
            use_type_invariant(self);
        }
        self.data.len()
    }

    /// Reads `rdlen` octets of NULL data.
    pub fn read(buf: &mut UnpackBuffer, rdlen: u16) -> (r: Result<Self, BufferError>)
        ensures
            final(buf).bytes() == old(buf).bytes(),
            match read_null_at(old(buf).bytes(), old(buf).pos(), rdlen) {
                Ok((v, p)) => r matches Ok(x) && x@ == v && final(buf).pos() == p,
                Err(e) => r matches Err(x) && x == e,
            },
    {
        if rdlen > 0 {
            let data = buf.unpack_vec(rdlen as usize)?;
            return Ok(Self { data });
        }
        Ok(Self::new())
    }

    /// Writes the data as it is.
    pub fn write(&self, buf: &mut PackBuffer) -> (r: usize)
        ensures
            final(buf).bytes() == old(buf).bytes() + self@,
            r == self@.len(),
            r <= 65535,
    {
        proof {
            use_type_invariant(self);
        }
        buf.pack_slice(self.data.as_slice());
        self.data.len()
    }
}

/// What NULL data writes, reading NULL data of that many octets gives back.
pub proof fn lemma_null_write_read(v: Seq<u8>, pre: Seq<u8>, rest: Seq<u8>)
    requires
        v.len() <= 65535,
    ensures
        read_null_at(pre + v + rest, pre.len() as int, v.len() as u16) == Ok::<
            (Seq<u8>, int),
            BufferError,
        >((v, pre.len() as int + v.len())),
{
    lemma_bytes_roundtrip(v, pre, rest);
    if v.len() == 0 {
        assert(v =~= Seq::<u8>::empty());
    }
}

impl NULL {
    /// The data, shown as a list of octets.
    pub fn to_string(&self) -> (r: String)
        ensures
            r@ == debug_bytes(self@),
    {
        let mut s = String::new();
        push_debug_bytes(&mut s, self.data.as_slice());
        assert(s@ =~= debug_bytes(self@));
        s
    }
}

} // verus!
