use vstd::prelude::*;

use crate::errors::BufferError;

verus! {

// ---------------------------------------------------------------------------
// Wire format of the primitive values (network byte order)
// ---------------------------------------------------------------------------

/// The two octets of `v` in network byte order.
pub open spec fn u16_wire(v: u16) -> Seq<u8> {
    seq![(v / 256) as u8, (v % 256) as u8]
}

/// The four octets of `v` in network byte order.
pub open spec fn u32_wire(v: u32) -> Seq<u8> {
    seq![(v / 0x1000000) as u8, ((v / 0x10000) % 256) as u8, ((v / 256) % 256) as u8, (v % 256) as u8]
}

/// A `<character-string>`: one length octet followed by the octets.
pub open spec fn char_string_wire(s: Seq<u8>) -> Seq<u8> {
    seq![s.len() as u8] + s
}

/// Reading one octet at `p`: the value and the offset after it.
pub open spec fn read_u8_at(b: Seq<u8>, p: int) -> Result<(u8, int), BufferError> {
    if 0 <= p < b.len() {
        Ok((b[p], p + 1))
    } else {
        Err(BufferError::BufferTooShort)
    }
}

/// Reading a big-endian `u16` at `p`.
pub open spec fn read_u16_at(b: Seq<u8>, p: int) -> Result<(u16, int), BufferError> {
    if 0 <= p && p + 2 <= b.len() {
        Ok(((b[p] as int * 256 + b[p + 1] as int) as u16, p + 2))
    } else {
        Err(BufferError::BufferTooShort)
    }
}

/// Reading a big-endian `u32` at `p`.
pub open spec fn read_u32_at(b: Seq<u8>, p: int) -> Result<(u32, int), BufferError> {
    if 0 <= p && p + 4 <= b.len() {
        Ok(
            (
                (((b[p] as int * 256 + b[p + 1] as int) * 256 + b[p + 2] as int) * 256
                    + b[p + 3] as int) as u32,
                p + 4,
            ),
        )
    } else {
        Err(BufferError::BufferTooShort)
    }
}

/// Reading `n` raw octets at `p`.
pub open spec fn read_bytes_at(b: Seq<u8>, p: int, n: int) -> Result<(Seq<u8>, int), BufferError> {
    if 0 <= p && 0 <= n && p + n <= b.len() {
        Ok((b.subrange(p, p + n), p + n))
    } else {
        Err(BufferError::BufferTooShort)
    }
}

/// Reading a `<character-string>` of at most `max` octets at `p`.
pub open spec fn read_char_string_at(b: Seq<u8>, p: int, max: u8) -> Result<
    (Seq<u8>, int),
    BufferError,
> {
    if !(0 <= p < b.len()) {
        Err(BufferError::BufferTooShort)
    } else if b[p] > max {
        Err(BufferError::MaxLengthOverflow)
    } else {
        read_bytes_at(b, p + 1, b[p] as int)
    }
}

/// Reading back what [`u16_wire`] wrote gives the value again.
pub proof fn lemma_u16_roundtrip(v: u16, rest: Seq<u8>, pre: Seq<u8>)
    ensures
        read_u16_at(pre + u16_wire(v) + rest, pre.len() as int) == Ok::<(u16, int), BufferError>(
            (v, pre.len() as int + 2),
        ),
{
    let b = pre + u16_wire(v) + rest;
    assert(b[pre.len() as int] == (v / 256) as u8);
    assert(b[pre.len() as int + 1] == (v % 256) as u8);
}

/// Reading back what [`u32_wire`] wrote gives the value again.
pub proof fn lemma_u32_roundtrip(v: u32, rest: Seq<u8>, pre: Seq<u8>)
    ensures
        read_u32_at(pre + u32_wire(v) + rest, pre.len() as int) == Ok::<(u32, int), BufferError>(
            (v, pre.len() as int + 4),
        ),
{
    let b = pre + u32_wire(v) + rest;
    let p = pre.len() as int;
    assert(b[p] == (v / 0x1000000) as u8);
    assert(b[p + 1] == ((v / 0x10000) % 256) as u8);
    assert(b[p + 2] == ((v / 256) % 256) as u8);
    assert(b[p + 3] == (v % 256) as u8);
}

/// Reading back what [`char_string_wire`] wrote gives the octets again, when
/// there are no more than `max` of them.
pub proof fn lemma_char_string_roundtrip(s: Seq<u8>, max: u8, pre: Seq<u8>, rest: Seq<u8>)
    requires
        s.len() <= max,
    ensures
        read_char_string_at(pre + char_string_wire(s) + rest, pre.len() as int, max) == Ok::<
            (Seq<u8>, int),
            BufferError,
        >((s, pre.len() as int + 1 + s.len())),
{
    let b = pre + char_string_wire(s) + rest;
    let p = pre.len() as int;
    assert(b[p] == s.len() as u8);
    assert(b.subrange(p + 1, p + 1 + s.len()) =~= s);
}

/// Reading back `n` raw octets gives them again.
pub proof fn lemma_bytes_roundtrip(s: Seq<u8>, pre: Seq<u8>, rest: Seq<u8>)
    ensures
        read_bytes_at(pre + s + rest, pre.len() as int, s.len() as int) == Ok::<
            (Seq<u8>, int),
            BufferError,
        >((s, pre.len() as int + s.len())),
{
    let b = pre + s + rest;
    let p = pre.len() as int;
    assert(b.subrange(p, p + s.len()) =~= s);
}

// ---------------------------------------------------------------------------
// Reading
// ---------------------------------------------------------------------------

/// A read cursor over a complete DNS message. Compression pointers refer to
/// absolute offsets in the message, so the whole message stays available.
pub struct UnpackBuffer {
    data: Vec<u8>,
    offset: usize,
}

impl UnpackBuffer {
    #[verifier::type_invariant]
    spec fn inv(&self) -> bool {
        self.offset <= self.data.len()
    }

    /// All octets of the message.
    pub closed spec fn bytes(&self) -> Seq<u8> {
        self.data@
    }

    /// The current read offset.
    pub closed spec fn pos(&self) -> int {
        self.offset as int
    }

    /// A cursor at the start of `data`.
    pub fn new(data: Vec<u8>) -> (r: Self)
        ensures
            r.bytes() == data@,
            r.pos() == 0,
    {
        UnpackBuffer { data, offset: 0 }
    }

    /// The current read offset.
    pub fn offset(&self) -> (r: usize)
        ensures
            r == self.pos(),
            0 <= self.pos() <= self.bytes().len(),
            self.bytes().len() <= usize::MAX,
    {
        proof {
            use_type_invariant(self);
        }
        self.offset
    }

    /// The number of octets left after the read offset.
    pub fn len(&self) -> (r: usize)
        ensures
            r == self.bytes().len() - self.pos(),
            0 <= self.pos() <= self.bytes().len(),
            self.bytes().len() <= usize::MAX,
    {
        proof {
            use_type_invariant(self);
        }
        self.data.len() - self.offset
    }

    /// The octet at the read offset, without consuming it.
    pub fn peek(&self) -> (r: Option<u8>)
        ensures
            r == (if self.pos() < self.bytes().len() {
                Some(self.bytes()[self.pos()])
            } else {
                None::<u8>
            }),
            0 <= self.pos() <= self.bytes().len(),
    {
        proof {
            use_type_invariant(self);
        }
        if self.offset < self.data.len() {
            Some(self.data[self.offset])
        } else {
            None
        }
    }

    /// Consumes one octet.
    pub fn pop(&mut self) -> (r: Result<u8, BufferError>)
        ensures
            final(self).bytes() == old(self).bytes(),
            match read_u8_at(old(self).bytes(), old(self).pos()) {
                Ok((v, p)) => r == Ok::<u8, BufferError>(v) && final(self).pos() == p,
                Err(e) => r == Err::<u8, BufferError>(e) && final(self).pos() == old(self).pos(),
            },
    {
        proof {
            use_type_invariant(&*self);
        }
        if self.offset < self.data.len() {
            let v = self.data[self.offset];
            self.offset = self.offset + 1;
            Ok(v)
        } else {
            Err(BufferError::BufferTooShort)
        }
    }

    /// Consumes a big-endian `u16`.
    pub fn unpack_u16(&mut self) -> (r: Result<u16, BufferError>)
        ensures
            final(self).bytes() == old(self).bytes(),
            match read_u16_at(old(self).bytes(), old(self).pos()) {
                Ok((v, p)) => r == Ok::<u16, BufferError>(v) && final(self).pos() == p,
                Err(e) => r == Err::<u16, BufferError>(e) && final(self).pos() == old(self).pos(),
            },
    {
        proof {
            use_type_invariant(&*self);
        }
        if self.data.len() - self.offset >= 2 {
            let hi = self.data[self.offset] as u16;
            let lo = self.data[self.offset + 1] as u16;
            self.offset = self.offset + 2;
            Ok(hi * 256 + lo)
        } else {
            Err(BufferError::BufferTooShort)
        }
    }

    /// Consumes a big-endian `u32`.
    pub fn unpack_u32(&mut self) -> (r: Result<u32, BufferError>)
        ensures
            final(self).bytes() == old(self).bytes(),
            match read_u32_at(old(self).bytes(), old(self).pos()) {
                Ok((v, p)) => r == Ok::<u32, BufferError>(v) && final(self).pos() == p,
                Err(e) => r == Err::<u32, BufferError>(e) && final(self).pos() == old(self).pos(),
            },
    {
        proof {
            use_type_invariant(&*self);
        }
        if self.data.len() - self.offset >= 4 {
            let b0 = self.data[self.offset] as u32;
            let b1 = self.data[self.offset + 1] as u32;
            let b2 = self.data[self.offset + 2] as u32;
            let b3 = self.data[self.offset + 3] as u32;
            self.offset = self.offset + 4;
            Ok(((b0 * 256 + b1) * 256 + b2) * 256 + b3)
        } else {
            Err(BufferError::BufferTooShort)
        }
    }

    /// Consumes `n` raw octets.
    pub fn unpack_vec(&mut self, n: usize) -> (r: Result<Vec<u8>, BufferError>)
        ensures
            final(self).bytes() == old(self).bytes(),
            match read_bytes_at(old(self).bytes(), old(self).pos(), n as int) {
                Ok((v, p)) => r matches Ok(w) && w@ == v && final(self).pos() == p,
                Err(e) => r == Err::<Vec<u8>, BufferError>(e) && final(self).pos() == old(
                    self,
                ).pos(),
            },
    {
        proof {
            use_type_invariant(&*self);
        }
        if self.data.len() - self.offset >= n {
            let mut out: Vec<u8> = Vec::new();
            let mut i: usize = 0;
            while i < n
                invariant
                    self.offset + n <= self.data.len(),
                    i <= n,
                    out@ == self.data@.subrange(self.offset as int, self.offset + i),
                decreases n - i,
            {
                out.push(self.data[self.offset + i]);
                i = i + 1;
                assert(out@ =~= self.data@.subrange(self.offset as int, self.offset + i));
            }
            self.offset = self.offset + n;
            Ok(out)
        } else {
            Err(BufferError::BufferTooShort)
        }
    }

    /// Consumes a `<character-string>`: a length octet of at most `max`
    /// followed by that many octets.
    pub fn unpack_character_string(&mut self, max: u8) -> (r: Result<Vec<u8>, BufferError>)
        ensures
            final(self).bytes() == old(self).bytes(),
            match read_char_string_at(old(self).bytes(), old(self).pos(), max) {
                Ok((v, p)) => r matches Ok(w) && w@ == v && final(self).pos() == p,
                Err(e) => r == Err::<Vec<u8>, BufferError>(e) && final(self).pos() == old(
                    self,
                ).pos(),
            },
    {
        proof {
            use_type_invariant(&*self);
        }
        if self.offset >= self.data.len() {
            return Err(BufferError::BufferTooShort);
        }
        let n = self.data[self.offset];
        if n > max {
            return Err(BufferError::MaxLengthOverflow);
        }
        if self.data.len() - self.offset - 1 < n as usize {
            return Err(BufferError::BufferTooShort);
        }
        self.offset = self.offset + 1;
        let r = self.unpack_vec(n as usize);
        r
    }

    /// Moves the read offset to `location`.
    pub fn jump_to(&mut self, location: usize) -> (r: Result<(), BufferError>)
        ensures
            final(self).bytes() == old(self).bytes(),
            location <= old(self).bytes().len() ==> r is Ok && final(self).pos() == location,
            location > old(self).bytes().len() ==> r == Err::<(), BufferError>(
                BufferError::BufferTooShort,
            ) && final(self).pos() == old(self).pos(),
    {
        if location <= self.data.len() {
            self.offset = location;
            Ok(())
        } else {
            Err(BufferError::BufferTooShort)
        }
    }
}

// ---------------------------------------------------------------------------
// Writing
// ---------------------------------------------------------------------------

/// A growing output buffer.
pub struct PackBuffer {
    data: Vec<u8>,
}

impl PackBuffer {
    /// The octets written so far.
    pub closed spec fn bytes(&self) -> Seq<u8> {
        self.data@
    }

    /// The buffer never holds more octets than a `usize` counts.
    pub proof fn lemma_bytes_fit(&self)
        ensures
            self.bytes().len() <= usize::MAX,
    {
        assert(self.data@.len() == self.data.len());
    }

    /// An empty buffer.
    pub fn new() -> (r: Self)
        ensures
            r.bytes() == Seq::<u8>::empty(),
    {
        PackBuffer { data: Vec::new() }
    }

    /// The number of octets written so far.
    pub fn len(&self) -> (r: usize)
        ensures
            r == self.bytes().len(),
    {
        self.data.len()
    }

    /// The octets written so far.
    pub fn as_slice(&self) -> (r: &[u8])
        ensures
            r@ == self.bytes(),
    {
        self.data.as_slice()
    }

    /// Gives up the buffer and returns its octets.
    pub fn into_bytes(self) -> (r: Vec<u8>)
        ensures
            r@ == self.bytes(),
    {
        self.data
    }

    /// Appends one octet.
    pub fn push(&mut self, b: u8)
        ensures
            final(self).bytes() == old(self).bytes().push(b),
    {
        self.data.push(b);
    }

    /// Appends a big-endian `u16`.
    pub fn pack_u16(&mut self, v: u16)
        ensures
            final(self).bytes() == old(self).bytes() + u16_wire(v),
    {
        self.data.push((v / 256) as u8);
        self.data.push((v % 256) as u8);
        assert(self.data@ =~= old(self).bytes() + u16_wire(v));
    }

    /// Appends a big-endian `u32`.
    pub fn pack_u32(&mut self, v: u32)
        ensures
            final(self).bytes() == old(self).bytes() + u32_wire(v),
    {
        self.data.push((v / 0x1000000) as u8);
        self.data.push(((v / 0x10000) % 256) as u8);
        self.data.push(((v / 256) % 256) as u8);
        self.data.push((v % 256) as u8);
        assert(self.data@ =~= old(self).bytes() + u32_wire(v));
    }

    /// Appends raw octets.
    pub fn pack_slice(&mut self, s: &[u8])
        ensures
            final(self).bytes() == old(self).bytes() + s@,
    {
        let mut i: usize = 0;
        while i < s.len()
            invariant
                i <= s@.len(),
                self.data@ == old(self).bytes() + s@.subrange(0, i as int),
            decreases s@.len() - i,
        {
            self.data.push(s[i]);
            i = i + 1;
            assert(self.data@ =~= old(self).bytes() + s@.subrange(0, i as int));
        }
        assert(s@.subrange(0, s@.len() as int) =~= s@);
    }

    /// Appends a `<character-string>`, refusing octet strings longer than
    /// `max`.
    pub fn pack_character_string(&mut self, s: &[u8], max: u8) -> (r: Result<(), BufferError>)
        ensures
            s@.len() <= max ==> r is Ok && final(self).bytes() == old(self).bytes()
                + char_string_wire(s@),
            s@.len() > max ==> r == Err::<(), BufferError>(BufferError::MaxLengthOverflow)
                && final(self).bytes() == old(self).bytes(),
    {
        if s.len() > max as usize {
            return Err(BufferError::MaxLengthOverflow);
        }
        self.push(s.len() as u8);
        self.pack_slice(s);
        assert(self.data@ =~= old(self).bytes() + char_string_wire(s@));
        Ok(())
    }
}

} // verus!
