use vstd::prelude::*;

use super::{text_len, Record, ResourceRecord};
use crate::types::rr::rheader::{RHeader, RHeaderView};


verus! {

/// See https://datatracker.ietf.org/doc/html/rfc1035#section-3.3.6 (EXPERIMENTAL)
#[derive(Debug)]
pub struct MG {
    pub header: RHeader,
    pub mgmname: String,
}

impl MG {
    /// A record with the given header and empty data, as a [`ResourceRecord`].
    pub fn new_with_header(header: RHeader) -> (r: ResourceRecord)
        ensures
            r matches ResourceRecord::MG(x) && x.header@ == header@ && x.mgmname@ == Seq::<char>::empty(),
    {
        let r = ResourceRecord::MG(Self { header, mgmname: String::new() });
        r
    }
}

impl Record for MG {
    open spec fn header_view(&self) -> RHeaderView {
        self.header@
    }

    open spec fn len_ok(&self) -> bool {
        text_len(self.mgmname@) < usize::MAX
    }

    /// The data length: the octets of the text plus one, cut to 16 bits.
    open spec fn spec_len(&self) -> u16 {
        (text_len(self.mgmname@) + 1) as u16
    }

    fn header(&self) -> (r: &RHeader) {
        &self.header
    }

    fn set_header(&mut self, header: RHeader) {
        self.header = header;
    }

    fn len(&self) -> (r: u16) {
        #[verifier::truncate] ((self.mgmname.as_str().len() + 1) as u16)
    }
}

impl MG {
    /// The record as text: `MG <` and the mgmname, then `>`.
    pub fn to_string(&self) -> (r: String)
        ensures
            r@ == "MG <"@ + self.mgmname@ + ">"@,
    {
        let mut s = String::new();
        s.append("MG <");
        s.append(self.mgmname.as_str());
        s.append(">");
        s
    }
}

} // verus!
