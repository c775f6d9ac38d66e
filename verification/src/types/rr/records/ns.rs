use vstd::prelude::*;

use super::{text_len, Record, ResourceRecord};
use crate::types::rr::rheader::{RHeader, RHeaderView};


verus! {

/// See https://datatracker.ietf.org/doc/html/rfc1035#section-3.3.11
#[derive(Debug)]
pub struct NS {
    pub header: RHeader,
    pub nsdname: String,
}

impl NS {
    /// A record with the given header and empty data, as a [`ResourceRecord`].
    pub fn new_with_header(header: RHeader) -> (r: ResourceRecord)
        ensures
            r matches ResourceRecord::NS(x) && x.header@ == header@ && x.nsdname@ == Seq::<char>::empty(),
    {
        let r = ResourceRecord::NS(Self { header, nsdname: String::new() });
        r
    }
}

impl Record for NS {
    open spec fn header_view(&self) -> RHeaderView {
        self.header@
    }

    open spec fn len_ok(&self) -> bool {
        text_len(self.nsdname@) < usize::MAX
    }

    /// The data length: the octets of the text plus one, cut to 16 bits.
    open spec fn spec_len(&self) -> u16 {
        (text_len(self.nsdname@) + 1) as u16
    }

    fn header(&self) -> (r: &RHeader) {
        &self.header
    }

    fn set_header(&mut self, header: RHeader) {
        self.header = header;
    }

    fn len(&self) -> (r: u16) {
        #[verifier::truncate] ((self.nsdname.as_str().len() + 1) as u16)
    }
}

impl NS {
    /// The record as text: `NS <` and the nsdname, then `>`.
    pub fn to_string(&self) -> (r: String)
        ensures
            r@ == "NS <"@ + self.nsdname@ + ">"@,
    {
        let mut s = String::new();
        s.append("NS <");
        s.append(self.nsdname.as_str());
        s.append(">");
        s
    }
}

} // verus!
