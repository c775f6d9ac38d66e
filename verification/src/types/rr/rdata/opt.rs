use vstd::prelude::*;

use super::RDataError;
use crate::errors::BufferError;
use crate::packing::{PackBuffer, UnpackBuffer};
use crate::types::edns::header::{edns_header_of, EdnsHeaderView};
use crate::types::edns::{
    lemma_option_write_read, option_roundtrips, option_wire, read_option_at, EdnsHeader, EdnsOption,
    EdnsOptionView,
};
use crate::types::rr::rheader::{RHeader, RHeaderView};

use crate::types::edns::code::option_code_text;
use crate::types::edns::header::edns_header_text;
use crate::types::edns::option_text;

verus! {

/// OPT record data (RFC 6891): the EDNS fields of the record header and the
/// options, at most one per option code.
#[derive(Debug)]
pub struct OPT {
    header: EdnsHeader,
    options: Vec<EdnsOption>,
}

/// The contents of an [`OPT`].
pub struct OPTView {
    pub header: EdnsHeaderView,
    pub options: Seq<EdnsOptionView>,
}

/// The contents of each option.
pub open spec fn option_views(v: Seq<EdnsOption>) -> Seq<EdnsOptionView> {
    v.map_values(|o: EdnsOption| o@)
}

impl View for OPT {
    type V = OPTView;

    closed spec fn view(&self) -> OPTView {
        OPTView { header: self.header@, options: option_views(self.options@) }
    }
}

/// Whether no two options share an option code.
pub open spec fn codes_unique(opts: Seq<EdnsOptionView>) -> bool {
    forall|i: int, j: int|
        0 <= i < opts.len() && 0 <= j < opts.len() && i != j ==> #[trigger] opts[i].code
            != #[trigger] opts[j].code
}

/// Storing option `o`: it replaces the option with the same code, or else
/// is added at the end.
pub open spec fn insert_option(opts: Seq<EdnsOptionView>, o: EdnsOptionView) -> Seq<
    EdnsOptionView,
> {
    if exists|i: int| 0 <= i < opts.len() && (#[trigger] opts[i]).code == o.code {
        opts.update(choose|i: int| 0 <= i < opts.len() && (#[trigger] opts[i]).code == o.code, o)
    } else {
        opts.push(o)
    }
}

/// Reading options from offset `p`, stored into `acc` with
/// [`insert_option`], for as long as fewer than `rdlen` octets have been
/// read since `start`.
pub open spec fn read_options_from(
    b: Seq<u8>,
    p: int,
    start: int,
    rdlen: int,
    acc: Seq<EdnsOptionView>,
) -> Result<(Seq<EdnsOptionView>, int), RDataError>
    decreases b.len() - p,
{
    if p - start >= rdlen {
        Ok((acc, p))
    } else {
        match read_option_at(b, p) {
            Err(e) => Err(e),
            Ok((o, q)) => if q <= p || q > b.len() {
                Err(RDataError::BufferError(BufferError::BufferTooShort))
            } else {
                read_options_from(b, q, start, rdlen, insert_option(acc, o))
            },
        }
    }
}

/// Reading OPT data at offset `p` for the record header `h`.
pub open spec fn read_opt_at(b: Seq<u8>, p: int, h: RHeaderView) -> Result<(OPTView, int), RDataError> {
    match read_options_from(b, p, p, h.rdlen as int, Seq::empty()) {
        Err(e) => Err(e),
        Ok((options, q)) => Ok((OPTView { header: edns_header_of(h), options }, q)),
    }
}

/// The options on the wire, one after the other.
pub open spec fn options_wire(opts: Seq<EdnsOptionView>) -> Seq<u8>
    decreases opts.len(),
{
    if opts.len() == 0 {
        Seq::empty()
    } else {
        options_wire(opts.drop_last()) + option_wire(opts.last())
    }
}

/// Reading an option takes at least the four octets of its code and length.
proof fn lemma_read_option_advances(b: Seq<u8>, p: int)
    ensures
        read_option_at(b, p) matches Ok((_, q)) ==> p + 4 <= q <= b.len(),
{
}

/// Reading options ends at or after the offset it starts at.
pub proof fn lemma_read_options_from_end(
    b: Seq<u8>,
    p: int,
    start: int,
    rdlen: int,
    acc: Seq<EdnsOptionView>,
)
    ensures
        read_options_from(b, p, start, rdlen, acc) matches Ok((_, q)) ==> p <= q,
    decreases b.len() - p,
{
    if p - start < rdlen {
        match read_option_at(b, p) {
            Err(e) => {},
            Ok((o, q)) => if !(q <= p || q > b.len()) {
                lemma_read_options_from_end(b, q, start, rdlen, insert_option(acc, o));
            },
        }
    }
}

impl OPT {
    #[verifier::type_invariant]
    spec fn inv(&self) -> bool {
        codes_unique(option_views(self.options@))
    }

    /// Reads the options of an OPT record with the given header: options are
    /// read for as long as fewer than RDLENGTH octets have been read; a later
    /// option replaces an earlier one with the same code.
    pub fn read(buf: &mut UnpackBuffer, rheader: &RHeader) -> (r: Result<Self, RDataError>)
        ensures
            final(buf).bytes() == old(buf).bytes(),
            match read_opt_at(old(buf).bytes(), old(buf).pos(), rheader@) {
                Ok((v, p)) => r matches Ok(x) && x@ == v && final(buf).pos() == p,
                Err(e) => r matches Err(x) && x == e,
            },
    {
        // First we create the EDNS header
        let header = EdnsHeader::from_rheader(rheader);

        // Read options until rdlen is exhausted
        let ghost b = buf.bytes();
        let ghost p0 = buf.pos();
        let start_len = buf.len();
        let rdlen = rheader.rdlen() as usize;
        let mut options: Vec<EdnsOption> = Vec::new();
        assert(option_views(options@) =~= Seq::<EdnsOptionView>::empty());
        while start_len - buf.len() < rdlen
            invariant
                buf.bytes() == b,
                b == old(buf).bytes(),
                p0 == old(buf).pos(),
                start_len == b.len() - p0,
                p0 <= buf.pos() <= b.len(),
                rdlen == rheader@.rdlen,
                codes_unique(option_views(options@)),
                read_options_from(b, p0, p0, rdlen as int, Seq::empty()) == read_options_from(
                    b,
                    buf.pos(),
                    p0,
                    rdlen as int,
                    option_views(options@),
                ),
            decreases b.len() - buf.pos(),
        {
            let ghost p = buf.pos();
            proof {
                lemma_read_option_advances(b, p);
            }
            let option = EdnsOption::read(buf)?;
            insert(&mut options, option);
        }
        Ok(Self { header, options })
    }

    /// Writes the options one after the other.
    pub fn write(&self, buf: &mut PackBuffer) -> (r: usize)
        ensures
            final(buf).bytes() == old(buf).bytes() + options_wire(self@.options),
            r == options_wire(self@.options).len(),
    {
        let ghost all = option_views(self.options@);
        let mut n: usize = 0;
        let mut i: usize = 0;
        while i < self.options.len()
            invariant
                all == option_views(self.options@),
                i <= self.options@.len(),
                buf.bytes() == old(buf).bytes() + options_wire(all.take(i as int)),
                n == options_wire(all.take(i as int)).len(),
            decreases self.options@.len() - i,
        {
            let m = self.options[i].write(buf);
            proof {
                assert(all.take(i + 1).drop_last() =~= all.take(i as int));
                assert(all.take(i + 1).last() == all[i as int]);
                buf.lemma_bytes_fit();
            }
            n = n + m;
            i = i + 1;
        }
        assert(all.take(i as int) =~= all);
        n
    }
}

/// Stores `option` into `options`: it replaces the option with the same code,
/// or else is added at the end.
fn insert(options: &mut Vec<EdnsOption>, option: EdnsOption)
    requires
        codes_unique(option_views(old(options)@)),
    ensures
        option_views(final(options)@) == insert_option(option_views(old(options)@), option@),
        codes_unique(option_views(final(options)@)),
{
    let ghost before = option_views(options@);
    let ghost o = option@;
    let mut j: usize = 0;
    while j < options.len()
        invariant
            before == option_views(options@),
            options@ == old(options)@,
            o == option@,
            codes_unique(before),
            j <= options@.len(),
            forall|k: int| 0 <= k < j ==> (#[trigger] before[k]).code != o.code,
        decreases options@.len() - j,
    {
        let c = options[j].code();
        assert(before[j as int] == options@[j as int]@);
        if c == option.code() {
            assert(before[j as int].code == o.code);
            options.set(j, option);
            proof {
                let i = choose|i: int| 0 <= i < before.len() && (#[trigger] before[i]).code == o.code;
                assert(before[i].code == before[j as int].code);
                assert(i == j);
                assert(option_views(options@) =~= before.update(j as int, o));
            }
            return ;
        }
        j = j + 1;
    }
    options.push(option);
    assert(option_views(options@) =~= before.push(o));
}

/// The options of `a` and then of `c`, on the wire.
proof fn lemma_options_wire_append(a: Seq<EdnsOptionView>, c: Seq<EdnsOptionView>)
    ensures
        options_wire(a + c) == options_wire(a) + options_wire(c),
    decreases c.len(),
{
    if c.len() == 0 {
        assert(a + c =~= a);
        assert(options_wire(a) + options_wire(c) =~= options_wire(a));
    } else {
        assert((a + c).drop_last() =~= a + c.drop_last());
        lemma_options_wire_append(a, c.drop_last());
        assert(options_wire(a) + (options_wire(c.drop_last()) + option_wire(c.last())) =~= (
        options_wire(a) + options_wire(c.drop_last())) + option_wire(c.last()));
    }
}

/// The facts about the `k`-th option that reading it from the wire needs.
proof fn lemma_read_options_step(opts: Seq<EdnsOptionView>, pre: Seq<u8>, rest: Seq<u8>, k: int)
    requires
        0 <= k < opts.len(),
        codes_unique(opts),
        forall|i: int| 0 <= i < opts.len() ==> #[trigger] option_roundtrips(opts[i]),
    ensures
        ({
            let b = pre + options_wire(opts) + rest;
            let p = pre.len() + options_wire(opts.take(k)).len() as int;
            let q = pre.len() + options_wire(opts.take(k + 1)).len() as int;
            &&& read_option_at(b, p) == Ok::<(EdnsOptionView, int), RDataError>((opts[k], q))
            &&& p + 4 <= q <= pre.len() + options_wire(opts).len() as int
            &&& q <= b.len()
            &&& insert_option(opts.take(k), opts[k]) == opts.take(k + 1)
        }),
{
    let b = pre + options_wire(opts) + rest;
    let head = opts.take(k);
    let o = opts[k];
    let tail = opts.skip(k + 1);
    assert(opts =~= head + (seq![o] + tail));
    lemma_options_wire_append(head, seq![o] + tail);
    lemma_options_wire_append(seq![o], tail);
    assert(seq![o].drop_last() =~= Seq::<EdnsOptionView>::empty());
    assert(options_wire(Seq::<EdnsOptionView>::empty()) =~= Seq::<u8>::empty());
    assert(seq![o].last() == o);
    assert(options_wire(seq![o]) =~= option_wire(o));
    let pk = pre + options_wire(head);
    assert(b =~= pk + option_wire(o) + (options_wire(tail) + rest));
    assert(option_roundtrips(opts[k]));
    lemma_option_write_read(o, pk, options_wire(tail) + rest);
    assert(opts.take(k + 1) =~= head.push(o));
    assert(opts.take(k + 1).drop_last() =~= head);
    assert(opts.take(k + 1).last() == o);
    assert(!exists|i: int| 0 <= i < head.len() && (#[trigger] head[i]).code == o.code) by {
        assert forall|i: int| 0 <= i < head.len() implies (#[trigger] head[i]).code != o.code by {
            assert(head[i] == opts[i]);
            assert(opts[i].code != opts[k].code);
        }
    }
}

/// Reading the options from the start of the `k`-th one, with the first `k`
/// already stored.
proof fn lemma_read_options_from_wire(
    opts: Seq<EdnsOptionView>,
    pre: Seq<u8>,
    rest: Seq<u8>,
    k: int,
)
    requires
        0 <= k <= opts.len(),
        codes_unique(opts),
        forall|i: int| 0 <= i < opts.len() ==> #[trigger] option_roundtrips(opts[i]),
    ensures
        read_options_from(
            pre + options_wire(opts) + rest,
            pre.len() + options_wire(opts.take(k)).len() as int,
            pre.len() as int,
            options_wire(opts).len() as int,
            opts.take(k),
        ) == Ok::<(Seq<EdnsOptionView>, int), RDataError>(
            (opts, pre.len() + options_wire(opts).len() as int),
        ),
    decreases opts.len() - k,
{
    if k == opts.len() {
        assert(opts.take(k) =~= opts);
    } else {
        lemma_read_options_step(opts, pre, rest, k);
        lemma_read_options_from_wire(opts, pre, rest, k + 1);
    }
}

/// Whether the wire form of OPT data reads back as the same data under the
/// record header `h`: its EDNS fields are those of `h`, its options have
/// distinct codes and each reads back as itself, and RDLENGTH is their length.
pub open spec fn opt_roundtrips(h: RHeaderView, o: OPTView) -> bool {
    &&& o.header == edns_header_of(h)
    &&& codes_unique(o.options)
    &&& forall|i: int| 0 <= i < o.options.len() ==> #[trigger] option_roundtrips(o.options[i])
    &&& options_wire(o.options).len() == h.rdlen
}

/// What [`OPT::write`] writes, [`OPT::read`] reads back under a record header
/// that fits the data.
pub proof fn lemma_opt_write_read(h: RHeaderView, o: OPTView, pre: Seq<u8>, rest: Seq<u8>)
    requires
        opt_roundtrips(h, o),
    ensures
        read_opt_at(pre + options_wire(o.options) + rest, pre.len() as int, h) == Ok::<
            (OPTView, int),
            RDataError,
        >((o, pre.len() + options_wire(o.options).len() as int)),
{
    lemma_read_options_from_wire(o.options, pre, rest, 0);
    assert(o.options.take(0) =~= Seq::<EdnsOptionView>::empty());
}

/// The options as text: each as its code, a colon and the option, separated
/// by a comma and a space.
pub open spec fn options_text(opts: Seq<EdnsOptionView>) -> Seq<char>
    decreases opts.len(),
{
    if opts.len() == 0 {
        Seq::empty()
    } else if opts.len() == 1 {
        option_code_text(opts[0].code) + ": "@ + option_text(opts[0])
    } else {
        options_text(opts.drop_last()) + ", "@ + option_code_text(opts.last().code) + ": "@
            + option_text(opts.last())
    }
}

/// OPT data as text, in the form `{:?}` gives a record of the EDNS fields and
/// a map of the options by code.
pub open spec fn opt_text(o: OPTView) -> Seq<char> {
    "OPT { header: "@ + edns_header_text(o.header) + ", options: {"@ + options_text(o.options)
        + "} }"@
}

impl OPT {
    /// The OPT data as text.
    pub fn to_string(&self) -> (r: String)
        ensures
            r@ == opt_text(self@),
    {
        let mut s = String::from_str("OPT { header: ");
        let h = self.header.to_string();
        s.append(h.as_str());
        s.append(", options: {");
        let ghost all = option_views(self.options@);
        let mut i: usize = 0;
        while i < self.options.len()
            invariant
                all == option_views(self.options@),
                i <= self.options@.len(),
                s@ == "OPT { header: "@ + edns_header_text(self@.header) + ", options: {"@
                    + options_text(all.take(i as int)),
            decreases self.options@.len() - i,
        {
            let ghost before = s@;
            if i > 0 {
                s.append(", ");
            }
            let c = self.options[i].code().to_string();
            s.append(c.as_str());
            s.append(": ");
            let t = self.options[i].to_string();
            s.append(t.as_str());
            proof {
                let p = all.take(i + 1);
                assert(p.drop_last() =~= all.take(i as int));
                assert(p.last() == all[i as int]);
                if i == 0 {
                    assert(all.take(0) =~= Seq::<EdnsOptionView>::empty());
                    assert(p[0] == all[0]);
                }
                assert(s@ =~= "OPT { header: "@ + edns_header_text(self@.header) + ", options: {"@
                    + options_text(p));
            }
            i = i + 1;
        }
        assert(all.take(i as int) =~= all);
        s.append("} }");
        s
    }
}

} // verus!
