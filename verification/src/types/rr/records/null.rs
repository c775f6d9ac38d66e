use vstd::prelude::*;

use super::{text_len, Record, ResourceRecord};
use crate::types::rr::rheader::{RHeader, RHeaderView};


verus! {

/// See https://datatracker.ietf.org/doc/html/rfc1035#section-3.3.10
#[derive(Debug)]
pub struct NULL {
    pub header: RHeader,
    pub data: String,
}

impl NULL {
    /// A record with the given header and empty data, as a [`ResourceRecord`].
    pub fn new_with_header(header: RHeader) -> (r: ResourceRecord)
        ensures
            r matches ResourceRecord::NULL(x) && x.header@ == header@ && x.data@ == Seq::<char>::empty(),
    {
        let r = ResourceRecord::NULL(Self { header, data: String::new() });
        r
    }
}

impl Record for NULL {
    open spec fn header_view(&self) -> RHeaderView {
        self.header@
    }

    open spec fn len_ok(&self) -> bool {
        text_len(self.data@) < usize::MAX
    }

    /// The data length: the octets of the text plus one, cut to 16 bits.
    open spec fn spec_len(&self) -> u16 {
        (text_len(self.data@) + 1) as u16
    }

    fn header(&self) -> (r: &RHeader) {
        &self.header
    }

    fn set_header(&mut self, header: RHeader) {
        self.header = header;
    }

    fn len(&self) -> (r: u16) {
        #[verifier::truncate] ((self.data.as_str().len() + 1) as u16)
    }
}

impl NULL {
    /// The record as text: `NULL <` and the data, then `>`.
    pub fn to_string(&self) -> (r: String)
        ensures
            r@ == "NULL <"@ + self.data@ + ">"@,
    {
        let mut s = String::new();
        s.append("NULL <");
        s.append(self.data.as_str());
        s.append(">");
        s
    }
}

} // verus!
