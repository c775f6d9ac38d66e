use vstd::prelude::*;

use super::{text_len, Record, ResourceRecord};
use crate::types::rr::rheader::{RHeader, RHeaderView};


verus! {

/// See https://datatracker.ietf.org/doc/html/rfc1035#section-3.3.5 (Obsolete)
#[derive(Debug)]
pub struct MF {
    pub header: RHeader,
    pub madname: String,
}

impl MF {
    /// A record with the given header and empty data, as a [`ResourceRecord`].
    pub fn new_with_header(header: RHeader) -> (r: ResourceRecord)
        ensures
            r matches ResourceRecord::MF(x) && x.header@ == header@ && x.madname@ == Seq::<char>::empty(),
    {
        let r = ResourceRecord::MF(Self { header, madname: String::new() });
        r
    }
}

impl Record for MF {
    open spec fn header_view(&self) -> RHeaderView {
        self.header@
    }

    open spec fn len_ok(&self) -> bool {
        text_len(self.madname@) < usize::MAX
    }

    /// The data length: the octets of the text plus one, cut to 16 bits.
    open spec fn spec_len(&self) -> u16 {
        (text_len(self.madname@) + 1) as u16
    }

    fn header(&self) -> (r: &RHeader) {
        &self.header
    }

    fn set_header(&mut self, header: RHeader) {
        self.header = header;
    }

    fn len(&self) -> (r: u16) {
        #[verifier::truncate] ((self.madname.as_str().len() + 1) as u16)
    }
}

impl MF {
    /// The record as text: `MF <` and the madname, then `>`.
    pub fn to_string(&self) -> (r: String)
        ensures
            r@ == "MF <"@ + self.madname@ + ">"@,
    {
        let mut s = String::new();
        s.append("MF <");
        s.append(self.madname.as_str());
        s.append(">");
        s
    }
}

} // verus!
