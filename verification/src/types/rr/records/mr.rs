use vstd::prelude::*;

use super::{text_len, Record, ResourceRecord};
use crate::types::rr::rheader::{RHeader, RHeaderView};


verus! {

/// See https://datatracker.ietf.org/doc/html/rfc1035#section-3.3.8 (EXPERIMENTAL)
#[derive(Debug)]
pub struct MR {
    pub header: RHeader,
    pub newname: String,
}

impl MR {
    /// A record with the given header and empty data, as a [`ResourceRecord`].
    pub fn new_with_header(header: RHeader) -> (r: ResourceRecord)
        ensures
            r matches ResourceRecord::MR(x) && x.header@ == header@ && x.newname@ == Seq::<char>::empty(),
    {
        let r = ResourceRecord::MR(Self { header, newname: String::new() });
        r
    }
}

impl Record for MR {
    open spec fn header_view(&self) -> RHeaderView {
        self.header@
    }

    open spec fn len_ok(&self) -> bool {
        text_len(self.newname@) < usize::MAX
    }

    /// The data length: the octets of the text plus one, cut to 16 bits.
    open spec fn spec_len(&self) -> u16 {
        (text_len(self.newname@) + 1) as u16
    }

    fn header(&self) -> (r: &RHeader) {
        &self.header
    }

    fn set_header(&mut self, header: RHeader) {
        self.header = header;
    }

    fn len(&self) -> (r: u16) {
        #[verifier::truncate] ((self.newname.as_str().len() + 1) as u16)
    }
}

impl MR {
    /// The record as text: `MR <` and the newname, then `>`.
    pub fn to_string(&self) -> (r: String)
        ensures
            r@ == "MR <"@ + self.newname@ + ">"@,
    {
        let mut s = String::new();
        s.append("MR <");
        s.append(self.newname.as_str());
        s.append(">");
        s
    }
}

} // verus!
