use vstd::prelude::*;

use super::{text_len, Record, ResourceRecord};
use crate::types::rr::rheader::{RHeader, RHeaderView};


verus! {

/// See https://datatracker.ietf.org/doc/html/rfc1035#section-3.3.2
#[derive(Debug)]
pub struct HINFO {
    pub header: RHeader,
    pub cpu: String,
    pub os: String,
}

impl HINFO {
    /// A record with the given header and empty data, as a [`ResourceRecord`].
    pub fn new_with_header(header: RHeader) -> (r: ResourceRecord)
        ensures
            r matches ResourceRecord::HINFO(x) && x.header@ == header@ && x.cpu@ == Seq::<char>::empty(),
            r matches ResourceRecord::HINFO(x) && x.header@ == header@ && x.os@ == Seq::<char>::empty(),
    {
        let r = ResourceRecord::HINFO(Self { header, cpu: String::new(), os: String::new() });
        r
    }
}

impl Record for HINFO {
    open spec fn header_view(&self) -> RHeaderView {
        self.header@
    }

    open spec fn len_ok(&self) -> bool {
        text_len(self.cpu@) + text_len(self.os@) + 2 <= usize::MAX
    }

    /// The data length: the octets of both texts plus two, cut to 16 bits.
    open spec fn spec_len(&self) -> u16 {
        (text_len(self.cpu@) + text_len(self.os@) + 2) as u16
    }

    fn header(&self) -> (r: &RHeader) {
        &self.header
    }

    fn set_header(&mut self, header: RHeader) {
        self.header = header;
    }

    fn len(&self) -> (r: u16) {
        #[verifier::truncate] ((self.cpu.as_str().len() + self.os.as_str().len() + 2) as u16)
    }
}

impl HINFO {
    /// The record as text: the CPU and the OS.
    pub fn to_string(&self) -> (r: String)
        ensures
            r@ == "HINFO <CPU: "@ + self.cpu@ + " - OS: "@ + self.os@ + ">"@,
    {
        let mut s = String::new();
        s.append("HINFO <CPU: ");
        s.append(self.cpu.as_str());
        s.append(" - OS: ");
        s.append(self.os.as_str());
        s.append(">");
        s
    }
}

} // verus!
