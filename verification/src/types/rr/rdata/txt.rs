use vstd::prelude::*;

use crate::constants::MAX_CHAR_STRING_LENGTH;
use crate::errors::BufferError;
use crate::packing::{
    char_string_wire, lemma_char_string_roundtrip, read_char_string_at, PackBuffer, UnpackBuffer,
};
use crate::types::dns::name::{
    labels_octets, labels_wire, lemma_labels_wire_append,
    lemma_labels_wire_single,
};

use crate::text::{debug_bytes, push_char, push_debug_bytes};

verus! {

/// The most octets that text data read from a record can take: fewer than
/// 65535 octets before the last string, and at most 256 for it.
pub const TXT_MAX_WIRE: usize = 65790;

/// Text data: one or more `<character-string>`s.
#[derive(Debug)]
pub struct TXT {
    data: Vec<Vec<u8>>,
}

/// The strings of a list of octet vectors.
pub open spec fn strings_view(v: Seq<Vec<u8>>) -> Seq<Seq<u8>> {
    v.map_values(|s: Vec<u8>| s@)
}

impl View for TXT {
    type V = Seq<Seq<u8>>;

    closed spec fn view(&self) -> Seq<Seq<u8>> {
        strings_view(self.data@)
    }
}

/// Reading `<character-string>`s from offset `p` for as long as fewer than
/// `rdlen` octets have been read since `start`.
pub open spec fn read_txt_from(b: Seq<u8>, p: int, start: int, rdlen: int) -> Result<
    (Seq<Seq<u8>>, int),
    BufferError,
>
    decreases b.len() - p,
{
    if p - start >= rdlen {
        Ok((Seq::empty(), p))
    } else {
        match read_char_string_at(b, p, MAX_CHAR_STRING_LENGTH) {
            Err(e) => Err(e),
            Ok((s, q)) => if q <= p || q > b.len() {
                Err(BufferError::BufferTooShort)
            } else {
                match read_txt_from(b, q, start, rdlen) {
                    Err(e) => Err(e),
                    Ok((rest, r)) => Ok((seq![s] + rest, r)),
                }
            },
        }
    }
}

/// Reading TXT data of `rdlen` octets at offset `p`.
pub open spec fn read_txt_at(b: Seq<u8>, p: int, rdlen: u16) -> Result<
    (Seq<Seq<u8>>, int),
    BufferError,
> {
    read_txt_from(b, p, p, rdlen as int)
}

/// `acc` followed by the strings of `res`.
pub open spec fn prepend_strings(
    acc: Seq<Seq<u8>>,
    res: Result<(Seq<Seq<u8>>, int), BufferError>,
) -> Result<(Seq<Seq<u8>>, int), BufferError> {
    match res {
        Ok((rest, r)) => Ok((acc + rest, r)),
        Err(e) => Err(e),
    }
}

impl TXT {
    #[verifier::type_invariant]
    spec fn inv(&self) -> bool {
        &&& forall|i: int| 0 <= i < self.data@.len() ==> #[trigger] self.data@[i]@.len() <= 255
        &&& labels_wire(strings_view(self.data@)).len() <= TXT_MAX_WIRE
    }

    /// Reads `<character-string>`s for as long as fewer than `rdlen` octets
    /// have been read.
    pub fn read(buf: &mut UnpackBuffer, rdlen: u16) -> (r: Result<Self, BufferError>)
        ensures
            final(buf).bytes() == old(buf).bytes(),
            match read_txt_at(old(buf).bytes(), old(buf).pos(), rdlen) {
                Ok((v, p)) => r matches Ok(x) && x@ == v && final(buf).pos() == p,
                Err(e) => r matches Err(x) && x == e,
            },
    {
        let ghost b = buf.bytes();
        let ghost p0 = buf.pos();
        let start_len = buf.len();
        let limit = rdlen as usize;
        let mut data: Vec<Vec<u8>> = Vec::new();
        assert(strings_view(data@) =~= Seq::<Seq<u8>>::empty());
        assert(Seq::<Seq<u8>>::empty() + Seq::<Seq<u8>>::empty() =~= Seq::<Seq<u8>>::empty());
        while start_len - buf.len() < limit
            invariant
                buf.bytes() == b,
                b == old(buf).bytes(),
                p0 == old(buf).pos(),
                start_len == b.len() - p0,
                p0 <= buf.pos() <= b.len(),
                limit == rdlen as int,
                forall|i: int| 0 <= i < data@.len() ==> #[trigger] data@[i]@.len() <= 255,
                labels_wire(strings_view(data@)).len() == buf.pos() - p0,
                buf.pos() - p0 <= TXT_MAX_WIRE,
                read_txt_at(b, p0, rdlen) == prepend_strings(
                    strings_view(data@),
                    read_txt_from(b, buf.pos(), p0, rdlen as int),
                ),
            decreases b.len() - buf.pos(),
        {
            let ghost p = buf.pos();
            let ghost before = strings_view(data@);
            let char_string = match buf.unpack_character_string(MAX_CHAR_STRING_LENGTH) {
                Ok(s) => s,
                Err(e) => {
                    assert(read_txt_from(b, p, p0, rdlen as int) == Err::<(Seq<Seq<u8>>, int), BufferError>(e));
                    return Err(e);
                },
            };
            proof {
                let q = buf.pos();
                let s = char_string@;
                assert(read_txt_from(b, p, p0, rdlen as int) == match read_txt_from(
                    b,
                    q,
                    p0,
                    rdlen as int,
                ) {
                    Err(e) => Err(e),
                    Ok((rest, r)) => Ok((seq![s] + rest, r)),
                });
                assert(before.push(s) =~= before + seq![s]);
                match read_txt_from(b, q, p0, rdlen as int) {
                    Ok((rest, r)) => {
                        assert(before + (seq![s] + rest) =~= before.push(s) + rest);
                    },
                    Err(e) => {},
                }
            }
            data.push(char_string);
            proof {
                let s = data@.last()@;
                assert(strings_view(data@) =~= before.push(s));
                assert(strings_view(data@).drop_last() =~= before);
            }
        }
        proof {
            let rest = strings_view(data@);
            assert(rest + Seq::<Seq<u8>>::empty() =~= rest);
        }
        Ok(TXT { data })
    }

    /// Writes every string as a `<character-string>`.
    pub fn write(&self, buf: &mut PackBuffer) -> (r: usize)
        ensures
            final(buf).bytes() == old(buf).bytes() + labels_wire(self@),
            r == labels_wire(self@).len(),
            r <= TXT_MAX_WIRE,
    {
        proof {
            use_type_invariant(self);
        }
        let mut n: usize = 0;
        let mut i: usize = 0;
        while i < self.data.len()
            invariant
                i <= self.data@.len(),
                forall|j: int| 0 <= j < self.data@.len() ==> #[trigger] self.data@[j]@.len() <= 255,
                labels_wire(strings_view(self.data@)).len() <= TXT_MAX_WIRE,
                buf.bytes() == old(buf).bytes() + labels_wire(strings_view(self.data@).take(i as int)),
                n == labels_wire(strings_view(self.data@).take(i as int)).len(),
            decreases self.data@.len() - i,
        {
            let s = &self.data[i];
            let _ = buf.pack_character_string(s.as_slice(), MAX_CHAR_STRING_LENGTH);
            proof {
                let all = strings_view(self.data@);
                assert(all.take(i + 1).drop_last() =~= all.take(i as int));
                assert(all.take(i + 1).last() == s@);
                lemma_labels_wire_prefix_len(all, i + 1);
            }
            n = n + s.len() + 1;
            i = i + 1;
        }
        assert(strings_view(self.data@).take(i as int) =~= self@);
        n
    }

    /// Returns the length of the data on the wire: every string with its
    /// length octet.
    pub fn size(&self) -> (r: usize)
        ensures
            r == labels_wire(self@).len(),
            r <= TXT_MAX_WIRE,
    {
        proof {
            use_type_invariant(self);
        }
        let mut len: usize = 0;
        let mut i: usize = 0;
        while i < self.data.len()
            invariant
                i <= self.data@.len(),
                labels_wire(strings_view(self.data@)).len() <= TXT_MAX_WIRE,
                len == labels_wire(strings_view(self.data@).take(i as int)).len(),
            decreases self.data@.len() - i,
        {
            proof {
                let all = strings_view(self.data@);
                assert(all.take(i + 1).drop_last() =~= all.take(i as int));
                lemma_labels_wire_prefix_len(all, i + 1);
            }
            len = len + self.data[i].len() + 1;
            i = i + 1;
        }
        assert(strings_view(self.data@).take(i as int) =~= self@);
        proof {
            lemma_octets_le_wire(self@);
        }
        len
    }
}

/// Reading text data ends at or after the offset it starts at.
pub proof fn lemma_read_txt_from_end(b: Seq<u8>, p: int, start: int, rdlen: int)
    ensures
        read_txt_from(b, p, start, rdlen) matches Ok((_, q)) ==> p <= q,
    decreases b.len() - p,
{
    if p - start < rdlen {
        match read_char_string_at(b, p, MAX_CHAR_STRING_LENGTH) {
            Err(e) => {},
            Ok((s, q)) => if !(q <= p || q > b.len()) {
                lemma_read_txt_from_end(b, q, start, rdlen);
            },
        }
    }
}

proof fn lemma_labels_wire_prefix_len(ss: Seq<Seq<u8>>, k: int)
    requires
        0 <= k <= ss.len(),
    ensures
        labels_wire(ss.take(k)).len() <= labels_wire(ss).len(),
    decreases ss.len(),
{
    if k < ss.len() {
        assert(ss.drop_last().take(k) =~= ss.take(k));
        lemma_labels_wire_prefix_len(ss.drop_last(), k);
    } else {
        assert(ss.take(k) =~= ss);
    }
}

proof fn lemma_octets_le_wire(ss: Seq<Seq<u8>>)
    ensures
        labels_octets(ss) <= labels_wire(ss).len(),
    decreases ss.len(),
{
    if ss.len() > 0 {
        lemma_octets_le_wire(ss.drop_last());
    }
}

/// Reading the strings of text data from the start of the `k`-th one.
proof fn lemma_read_txt_from_wire(t: Seq<Seq<u8>>, pre: Seq<u8>, rest: Seq<u8>, k: int)
    requires
        0 <= k <= t.len(),
        forall|i: int| 0 <= i < t.len() ==> #[trigger] t[i].len() <= 255,
    ensures
        read_txt_from(
            pre + labels_wire(t) + rest,
            pre.len() + labels_wire(t.take(k)).len() as int,
            pre.len() as int,
            labels_wire(t).len() as int,
        ) == Ok::<(Seq<Seq<u8>>, int), BufferError>(
            (t.skip(k), pre.len() + labels_wire(t).len() as int),
        ),
    decreases t.len() - k,
{
    let b = pre + labels_wire(t) + rest;
    if k == t.len() {
        assert(t.take(k) =~= t);
        assert(t.skip(k) =~= Seq::<Seq<u8>>::empty());
    } else {
        let head = t.take(k);
        let tail = t.skip(k + 1);
        assert(t =~= head + (seq![t[k]] + tail));
        lemma_labels_wire_append(head, seq![t[k]] + tail);
        lemma_labels_wire_append(seq![t[k]], tail);
        lemma_labels_wire_single(t[k]);
        let pk = pre + labels_wire(head);
        assert(b =~= pk + char_string_wire(t[k]) + (labels_wire(tail) + rest));
        lemma_char_string_roundtrip(t[k], MAX_CHAR_STRING_LENGTH, pk, labels_wire(tail) + rest);
        assert(t.take(k + 1) =~= head + seq![t[k]]);
        lemma_labels_wire_append(head, seq![t[k]]);
        lemma_read_txt_from_wire(t, pre, rest, k + 1);
        assert(t.skip(k) =~= seq![t[k]] + tail);
    }
}

/// What [`TXT::write`] writes, reading text data of that many octets gives
/// back: the same strings.
pub proof fn lemma_txt_write_read(t: Seq<Seq<u8>>, pre: Seq<u8>, rest: Seq<u8>)
    requires
        forall|i: int| 0 <= i < t.len() ==> #[trigger] t[i].len() <= 255,
        labels_wire(t).len() <= 65535,
    ensures
        read_txt_at(pre + labels_wire(t) + rest, pre.len() as int, labels_wire(t).len() as u16)
            == Ok::<(Seq<Seq<u8>>, int), BufferError>((t, pre.len() + labels_wire(t).len() as int)),
{
    lemma_read_txt_from_wire(t, pre, rest, 0);
    assert(t.take(0) =~= Seq::<Seq<u8>>::empty());
    assert(t.skip(0) =~= t);
}

/// Text data as text: each string shown as a list of octets, after two
/// spaces.
pub open spec fn txt_text(t: Seq<Seq<u8>>) -> Seq<char>
    decreases t.len(),
{
    if t.len() == 0 {
        Seq::empty()
    } else {
        txt_text(t.drop_last()) + seq![' ', ' '] + debug_bytes(t.last())
    }
}

impl TXT {
    /// The strings, each shown as a list of octets after two spaces.
    pub fn to_string(&self) -> (r: String)
        ensures
            r@ == txt_text(self@),
    {
        let mut s = String::new();
        let mut i: usize = 0;
        while i < self.data.len()
            invariant
                i <= self.data@.len(),
                s@ == txt_text(strings_view(self.data@).take(i as int)),
            decreases self.data@.len() - i,
        {
            push_char(&mut s, ' ');
            push_char(&mut s, ' ');
            push_debug_bytes(&mut s, self.data[i].as_slice());
            proof {
                let t = strings_view(self.data@).take(i + 1);
                assert(t.drop_last() =~= strings_view(self.data@).take(i as int));
                assert(t.last() == self.data@[i as int]@);
                assert(s@ =~= txt_text(t));
            }
            i = i + 1;
        }
        assert(strings_view(self.data@).take(i as int) =~= self@);
        s
    }
}

} // verus!
