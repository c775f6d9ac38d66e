use vstd::prelude::*;

use super::{text_len, Record, ResourceRecord};
use crate::types::rr::rheader::{RHeader, RHeaderView};


verus! {

/// See https://datatracker.ietf.org/doc/html/rfc1035#section-3.3.7 (EXPERIMENTAL)
#[derive(Debug)]
pub struct MINFO {
    pub header: RHeader,
    pub rmailbox: String,
    pub emailbox: String,
}

impl MINFO {
    /// A record with the given header and empty data, as a [`ResourceRecord`].
    pub fn new_with_header(header: RHeader) -> (r: ResourceRecord)
        ensures
            r matches ResourceRecord::MINFO(x) && x.header@ == header@ && x.rmailbox@ == Seq::<char>::empty(),
            r matches ResourceRecord::MINFO(x) && x.header@ == header@ && x.emailbox@ == Seq::<char>::empty(),
    {
        let r = ResourceRecord::MINFO(Self { header, rmailbox: String::new(), emailbox: String::new() });
        r
    }
}

impl Record for MINFO {
    open spec fn header_view(&self) -> RHeaderView {
        self.header@
    }

    open spec fn len_ok(&self) -> bool {
        text_len(self.rmailbox@) + text_len(self.emailbox@) + 2 <= usize::MAX
    }

    /// The data length: the octets of both texts plus two, cut to 16 bits.
    open spec fn spec_len(&self) -> u16 {
        (text_len(self.rmailbox@) + text_len(self.emailbox@) + 2) as u16
    }

    fn header(&self) -> (r: &RHeader) {
        &self.header
    }

    fn set_header(&mut self, header: RHeader) {
        self.header = header;
    }

    fn len(&self) -> (r: u16) {
        #[verifier::truncate] ((self.rmailbox.as_str().len() + self.emailbox.as_str().len() + 2) as u16)
    }
}

impl MINFO {
    /// The record as text: the two mailboxes.
    pub fn to_string(&self) -> (r: String)
        ensures
            r@ == "MINFO <RMAIL: "@ + self.rmailbox@ + " - EMAIL: "@ + self.emailbox@ + ">"@,
    {
        let mut s = String::new();
        s.append("MINFO <RMAIL: ");
        s.append(self.rmailbox.as_str());
        s.append(" - EMAIL: ");
        s.append(self.emailbox.as_str());
        s.append(">");
        s
    }
}

} // verus!
