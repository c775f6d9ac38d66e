use vstd::prelude::*;

use super::{Record, ResourceRecord};
use crate::types::rr::rheader::{RHeader, RHeaderView};

use crate::text::{ipv4_text, push_ipv4};

verus! {

/// See https://datatracker.ietf.org/doc/html/rfc1035#section-3.4.1
#[derive(Debug)]
pub struct A {
    pub header: RHeader,
    pub address: [u8; 4],
}

impl A {
    /// A record with the given header and empty data, as a [`ResourceRecord`].
    pub fn new_with_header(header: RHeader) -> (r: ResourceRecord)
        ensures
            r matches ResourceRecord::A(x) && x.header@ == header@ && x.address@ == seq![0u8, 0u8, 0u8, 0u8],
    {
        let x = Self { header, address: [0u8; 4] };
        assert(x.address@ =~= seq![0u8, 0u8, 0u8, 0u8]);
        ResourceRecord::A(x)
    }
}

impl Record for A {
    open spec fn header_view(&self) -> RHeaderView {
        self.header@
    }

    open spec fn len_ok(&self) -> bool {
        true
    }

    /// The data length: 4 octets.
    open spec fn spec_len(&self) -> u16 {
        4
    }

    fn header(&self) -> (r: &RHeader) {
        &self.header
    }

    fn set_header(&mut self, header: RHeader) {
        self.header = header;
    }

    fn len(&self) -> (r: u16) {
        4
    }
}

impl A {
    /// The record as text: `A <`, the address in dotted decimal, then `>`.
    pub fn to_string(&self) -> (r: String)
        ensures
            r@ == "A <"@ + ipv4_text(self.address@) + ">"@,
    {
        let mut s = String::new();
        s.append("A <");
        push_ipv4(&mut s, &self.address);
        s.append(">");
        s
    }
}

} // verus!
