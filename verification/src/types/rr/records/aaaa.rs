use vstd::prelude::*;

use super::{Record, ResourceRecord};
use crate::types::rr::rheader::{RHeader, RHeaderView};

use crate::addr::{format_ipv6, ipv6_text};

verus! {

/// See https://datatracker.ietf.org/doc/html/rfc3596
#[derive(Debug)]
pub struct AAAA {
    pub header: RHeader,
    pub address: [u8; 16],
}

impl AAAA {
    /// A record with the given header and empty data, as a [`ResourceRecord`].
    pub fn new_with_header(header: RHeader) -> (r: ResourceRecord)
        ensures
            r matches ResourceRecord::AAAA(x) && x.header@ == header@ && x.address@ == Seq::new(16, |i: int| 0u8),
    {
        let x = Self { header, address: [0u8; 16] };
        assert(x.address@ =~= Seq::new(16, |i: int| 0u8));
        ResourceRecord::AAAA(x)
    }
}

impl Record for AAAA {
    open spec fn header_view(&self) -> RHeaderView {
        self.header@
    }

    open spec fn len_ok(&self) -> bool {
        true
    }

    /// The data length: 16 octets.
    open spec fn spec_len(&self) -> u16 {
        16
    }

    fn header(&self) -> (r: &RHeader) {
        &self.header
    }

    fn set_header(&mut self, header: RHeader) {
        self.header = header;
    }

    fn len(&self) -> (r: u16) {
        16
    }
}

impl AAAA {
    /// The record as text: `AAAA <`, the address as core's `Ipv6Addr` writes
    /// it, then `>`.
    pub fn to_string(&self) -> (r: String)
        ensures
            r@ == "AAAA <"@ + ipv6_text(self.address@) + ">"@,
    {
        let mut s = String::from_str("AAAA <");
        let a = format_ipv6(&self.address);
        s.append(a.as_str());
        s.append(">");
        s
    }
}

} // verus!
