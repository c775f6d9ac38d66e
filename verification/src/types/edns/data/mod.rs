use vstd::prelude::*;

use crate::packing::{PackBuffer, UnpackBuffer};
use crate::types::edns::code::OptionCode;
use crate::types::rr::rdata::RDataError;

pub mod cookie;

pub use cookie::COOKIE;

use cookie::{cookie_wire, read_cookie_at, CookieView};

use cookie::cookie_text;

verus! {

/// The data of an EDNS option, by option code.
#[derive(Debug)]
pub enum OptionData {
    COOKIE(COOKIE),
}

/// The contents of an [`OptionData`].
pub enum OptionDataView {
    COOKIE(CookieView),
}

impl View for OptionData {
    type V = OptionDataView;

    open spec fn view(&self) -> OptionDataView {
        match self {
            OptionData::COOKIE(c) => OptionDataView::COOKIE(c@),
        }
    }
}

/// Reading option data of `len` octets for option `code` at offset `p`:
/// only cookies are read.
pub open spec fn read_option_data_at(b: Seq<u8>, p: int, code: OptionCode, len: u16) -> Result<
    (OptionDataView, int),
    RDataError,
> {
    match code {
        OptionCode::COOKIE => match read_cookie_at(b, p, len) {
            Ok((c, q)) => Ok((OptionDataView::COOKIE(c), q)),
            Err(e) => Err(e),
        },
        _ => Err(RDataError::UnsupportedOption(code)),
    }
}

/// Option data on the wire.
pub open spec fn option_data_wire(d: OptionDataView) -> Seq<u8> {
    match d {
        OptionDataView::COOKIE(c) => cookie_wire(c),
    }
}

impl OptionData {
    /// Reads the data of an option of `len` octets with the given code.
    pub fn unpack(buf: &mut UnpackBuffer, opt_code: OptionCode, len: u16) -> (r: Result<
        Self,
        RDataError,
    >)
        ensures
            final(buf).bytes() == old(buf).bytes(),
            match read_option_data_at(old(buf).bytes(), old(buf).pos(), opt_code, len) {
                Ok((d, p)) => r matches Ok(x) && x@ == d && final(buf).pos() == p,
                Err(e) => r matches Err(x) && x == e,
            },
    {
        match opt_code {
            OptionCode::COOKIE => match COOKIE::unpack(buf, len) {
                Ok(c) => Ok(Self::COOKIE(c)),
                Err(e) => Err(e),
            },
            _ => Err(RDataError::UnsupportedOption(opt_code)),
        }
    }

    /// Writes the option data.
    pub fn pack(&self, buf: &mut PackBuffer) -> (r: usize)
        ensures
            final(buf).bytes() == old(buf).bytes() + option_data_wire(self@),
            r == option_data_wire(self@).len(),
            r <= 8 + 65535,
    {
        match self {
            OptionData::COOKIE(c) => c.pack(buf),
        }
    }
}

/// Option data as text, in the form `{:?}` gives it.
pub open spec fn option_data_text(d: OptionDataView) -> Seq<char> {
    match d {
        OptionDataView::COOKIE(c) => "COOKIE("@ + cookie_text(c) + ")"@,
    }
}

impl OptionData {
    /// The option data as text.
    pub fn to_string(&self) -> (r: String)
        ensures
            r@ == option_data_text(self@),
    {
        match self {
            OptionData::COOKIE(c) => {
                let mut s = String::from_str("COOKIE(");
                let t = c.to_string();
                s.append(t.as_str());
                s.append(")");
                s
            },
        }
    }
}

} // verus!
