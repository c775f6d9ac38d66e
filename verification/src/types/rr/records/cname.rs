use vstd::prelude::*;

use super::{text_len, Record, ResourceRecord};
use crate::types::rr::rheader::{RHeader, RHeaderView};


verus! {

/// See https://datatracker.ietf.org/doc/html/rfc1035#section-3.3.1
#[derive(Debug)]
pub struct CNAME {
    pub header: RHeader,
    pub target: String,
}

impl CNAME {
    /// A record with the given header and empty data, as a [`ResourceRecord`].
    pub fn new_with_header(header: RHeader) -> (r: ResourceRecord)
        ensures
            r matches ResourceRecord::CNAME(x) && x.header@ == header@ && x.target@ == Seq::<char>::empty(),
    {
        let r = ResourceRecord::CNAME(Self { header, target: String::new() });
        r
    }
}

impl Record for CNAME {
    open spec fn header_view(&self) -> RHeaderView {
        self.header@
    }

    open spec fn len_ok(&self) -> bool {
        text_len(self.target@) < usize::MAX
    }

    /// The data length: the octets of the text plus one, cut to 16 bits.
    open spec fn spec_len(&self) -> u16 {
        (text_len(self.target@) + 1) as u16
    }

    fn header(&self) -> (r: &RHeader) {
        &self.header
    }

    fn set_header(&mut self, header: RHeader) {
        self.header = header;
    }

    fn len(&self) -> (r: u16) {
        #[verifier::truncate] ((self.target.as_str().len() + 1) as u16)
    }
}

impl CNAME {
    /// The record as text: `CNAME <` and the target, then `>`.
    pub fn to_string(&self) -> (r: String)
        ensures
            r@ == "CNAME <"@ + self.target@ + ">"@,
    {
        let mut s = String::new();
        s.append("CNAME <");
        s.append(self.target.as_str());
        s.append(">");
        s
    }
}

} // verus!
