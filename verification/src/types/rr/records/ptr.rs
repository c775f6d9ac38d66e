use vstd::prelude::*;

use super::{text_len, Record, ResourceRecord};
use crate::types::rr::rheader::{RHeader, RHeaderView};


verus! {

/// See https://datatracker.ietf.org/doc/html/rfc1035#section-3.3.12
#[derive(Debug)]
pub struct PTR {
    pub header: RHeader,
    pub ptrdname: String,
}

impl PTR {
    /// A record with the given header and empty data, as a [`ResourceRecord`].
    pub fn new_with_header(header: RHeader) -> (r: ResourceRecord)
        ensures
            r matches ResourceRecord::PTR(x) && x.header@ == header@ && x.ptrdname@ == Seq::<char>::empty(),
    {
        let r = ResourceRecord::PTR(Self { header, ptrdname: String::new() });
        r
    }
}

impl Record for PTR {
    open spec fn header_view(&self) -> RHeaderView {
        self.header@
    }

    open spec fn len_ok(&self) -> bool {
        text_len(self.ptrdname@) < usize::MAX
    }

    /// The data length: the octets of the text plus one, cut to 16 bits.
    open spec fn spec_len(&self) -> u16 {
        (text_len(self.ptrdname@) + 1) as u16
    }

    fn header(&self) -> (r: &RHeader) {
        &self.header
    }

    fn set_header(&mut self, header: RHeader) {
        self.header = header;
    }

    fn len(&self) -> (r: u16) {
        #[verifier::truncate] ((self.ptrdname.as_str().len() + 1) as u16)
    }
}

impl PTR {
    /// The record as text: `PTR <` and the ptrdname, then `>`.
    pub fn to_string(&self) -> (r: String)
        ensures
            r@ == "PTR <"@ + self.ptrdname@ + ">"@,
    {
        let mut s = String::new();
        s.append("PTR <");
        s.append(self.ptrdname.as_str());
        s.append(">");
        s
    }
}

} // verus!
