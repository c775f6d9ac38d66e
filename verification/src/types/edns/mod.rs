use vstd::prelude::*;

use crate::errors::BufferError;
use crate::packing::{
    lemma_bytes_roundtrip, lemma_u16_roundtrip, read_u16_at, u16_wire, PackBuffer, UnpackBuffer,
};
use crate::types::rr::rdata::RDataError;

pub mod code;
pub mod data;
pub mod header;

pub use code::OptionCode;
pub use data::{OptionData, COOKIE};
pub use header::EdnsHeader;

use code::{option_code_value, read_option_code_at};
use data::cookie::{cookie_wire, read_cookie_at};
use data::{option_data_wire, read_option_data_at, OptionDataView};

use code::option_code_text;
use data::option_data_text;
use crate::text::{decimal, push_decimal};

verus! {

/// One EDNS option of an OPT record: its code, its length and its data.
#[derive(Debug)]
pub struct EdnsOption {
    // OPT data also finds options by this code: at most one per code.
    code: OptionCode,
    data: OptionData,
    len: u16,
}

/// The contents of an [`EdnsOption`].
pub struct EdnsOptionView {
    pub code: OptionCode,
    pub data: OptionDataView,
    pub len: u16,
}

impl View for EdnsOption {
    type V = EdnsOptionView;

    closed spec fn view(&self) -> EdnsOptionView {
        EdnsOptionView { code: self.code, data: self.data@, len: self.len }
    }
}

/// Reading an option at offset `p`: OPTION-CODE, OPTION-LENGTH and the data.
pub open spec fn read_option_at(b: Seq<u8>, p: int) -> Result<(EdnsOptionView, int), RDataError> {
    match read_option_code_at(b, p) {
        Err(e) => Err(RDataError::BufferError(e)),
        Ok((code, p1)) => match read_u16_at(b, p1) {
            Err(e) => Err(RDataError::BufferError(e)),
            Ok((len, p2)) => match read_option_data_at(b, p2, code, len) {
                Err(e) => Err(e),
                Ok((data, p3)) => Ok((EdnsOptionView { code, data, len }, p3)),
            },
        },
    }
}

/// An option on the wire.
pub open spec fn option_wire(o: EdnsOptionView) -> Seq<u8> {
    u16_wire(option_code_value(o.code)) + u16_wire(o.len) + option_data_wire(o.data)
}

impl EdnsOption {
    /// Reads an option.
    pub fn read(buf: &mut UnpackBuffer) -> (r: Result<Self, RDataError>)
        ensures
            final(buf).bytes() == old(buf).bytes(),
            match read_option_at(old(buf).bytes(), old(buf).pos()) {
                Ok((o, p)) => r matches Ok(x) && x@ == o && final(buf).pos() == p,
                Err(e) => r matches Err(x) && x == e,
            },
    {
        let code = match OptionCode::read(buf) {
            Ok(c) => c,
            Err(e) => return Err(RDataError::BufferError(e)),
        };
        let len = match buf.unpack_u16() {
            Ok(l) => l,
            Err(e) => return Err(RDataError::BufferError(e)),
        };
        let data = OptionData::unpack(buf, code, len)?;
        Ok(EdnsOption { code, data, len })
    }

    /// Writes the option.
    pub fn write(&self, buf: &mut PackBuffer) -> (r: usize)
        ensures
            final(buf).bytes() == old(buf).bytes() + option_wire(self@),
            r == option_wire(self@).len(),
            r <= 4 + 8 + 65535,
    {
        self.code.write(buf);
        buf.pack_u16(self.len);
        let n = self.data.pack(buf);
        assert(buf.bytes() =~= old(buf).bytes() + option_wire(self@));
        4 + n
    }

    /// The option code.
    pub fn code(&self) -> (r: OptionCode)
        ensures
            r == self@.code,
    {
        self.code
    }

    /// The option length, as read.
    pub fn len(&self) -> (r: u16)
        ensures
            r == self@.len,
    {
        self.len
    }
}

/// Whether the wire form of an option reads back as the same option: a
/// cookie option with an 8 octet client cookie, a server cookie that is not
/// empty if there is one, and a length that is the length of its data.
pub open spec fn option_roundtrips(o: EdnsOptionView) -> bool {
    match o.data {
        OptionDataView::COOKIE(c) => {
            &&& o.code == OptionCode::COOKIE
            &&& c.client.len() == 8
            &&& c.server matches Some(s) ==> s.len() > 0
            &&& o.len == cookie_wire(c).len()
        },
    }
}

/// What [`EdnsOption::write`] writes, [`EdnsOption::read`] reads back, for an
/// option that [`option_roundtrips`].
pub proof fn lemma_option_write_read(o: EdnsOptionView, pre: Seq<u8>, rest: Seq<u8>)
    requires
        option_roundtrips(o),
    ensures
        read_option_at(pre + option_wire(o) + rest, pre.len() as int) == Ok::<
            (EdnsOptionView, int),
            RDataError,
        >((o, pre.len() as int + option_wire(o).len())),
{
    let b = pre + option_wire(o) + rest;
    let w1 = u16_wire(option_code_value(o.code));
    let w2 = u16_wire(o.len);
    let w3 = option_data_wire(o.data);
    assert(b =~= pre + w1 + (w2 + w3 + rest));
    lemma_u16_roundtrip(option_code_value(o.code), w2 + w3 + rest, pre);
    let pre1 = pre + w1;
    assert(b =~= pre1 + w2 + (w3 + rest));
    lemma_u16_roundtrip(o.len, w3 + rest, pre1);
    let pre2 = pre1 + w2;
    assert(b =~= pre2 + w3 + rest);
    let p2 = pre2.len() as int;
    match o.data {
        OptionDataView::COOKIE(c) => {
            match c.server {
                None => {
                    assert(w3 == c.client);
                    lemma_bytes_roundtrip(c.client, pre2, rest);
                    assert(read_cookie_at(b, p2, o.len) == Ok::<(data::cookie::CookieView, int), RDataError>((c, p2 + 8)));
                },
                Some(sv) => {
                    assert(b =~= pre2 + c.client + (sv + rest));
                    lemma_bytes_roundtrip(c.client, pre2, sv + rest);
                    assert(b =~= (pre2 + c.client) + sv + rest);
                    lemma_bytes_roundtrip(sv, pre2 + c.client, rest);
                    assert(read_cookie_at(b, p2, o.len) == Ok::<(data::cookie::CookieView, int), RDataError>((c, p2 + 8 + sv.len())));
                },
            }
        },
    }
}

/// An option as text, in the form `{:?}` gives it: its code, its data and
/// its length.
pub open spec fn option_text(o: EdnsOptionView) -> Seq<char> {
    "Option { code: "@ + option_code_text(o.code) + ", data: "@ + option_data_text(o.data)
        + ", len: "@ + decimal(o.len as nat) + " }"@
}

impl EdnsOption {
    /// The option as text.
    pub fn to_string(&self) -> (r: String)
        ensures
            r@ == option_text(self@),
    {
        let mut s = String::from_str("Option { code: ");
        let c = self.code.to_string();
        s.append(c.as_str());
        s.append(", data: ");
        let d = self.data.to_string();
        s.append(d.as_str());
        s.append(", len: ");
        push_decimal(&mut s, self.len as u32);
        s.append(" }");
        s
    }
}

} // verus!
