use vstd::prelude::*;

use super::{Record, ResourceRecord};
use crate::types::rr::rheader::{RHeader, RHeaderView};

use crate::text::{decimal, push_decimal};

verus! {

/// See https://datatracker.ietf.org/doc/html/rfc1035#section-3.3.9
#[derive(Debug)]
pub struct MX {
    pub header: RHeader,
    pub preference: u16,
    pub exchange: String,
}

impl MX {
    /// A record with the given header and empty data, as a [`ResourceRecord`].
    pub fn new_with_header(header: RHeader) -> (r: ResourceRecord)
        ensures
            r matches ResourceRecord::MX(x) && x.header@ == header@ && x.exchange@ == Seq::<char>::empty(),
            r matches ResourceRecord::MX(x) && x.preference == 0,
    {
        let r = ResourceRecord::MX(Self { header, preference: 0, exchange: String::new() });
        r
    }
}

impl Record for MX {
    open spec fn header_view(&self) -> RHeaderView {
        self.header@
    }

    open spec fn len_ok(&self) -> bool {
        true
    }

    /// The data length: two octets of preference (the exchange is not counted).
    open spec fn spec_len(&self) -> u16 {
        2
    }

    fn header(&self) -> (r: &RHeader) {
        &self.header
    }

    fn set_header(&mut self, header: RHeader) {
        self.header = header;
    }

    fn len(&self) -> (r: u16) {
        2
    }
}

impl MX {
    /// The record as text: the preference and the exchange host.
    pub fn to_string(&self) -> (r: String)
        ensures
            r@ == "MX <PREF: "@ + decimal(self.preference as nat) + " - EX: "@ + self.exchange@ + ">"@,
    {
        let mut s = String::new();
        s.append("MX <PREF: ");
        push_decimal(&mut s, self.preference as u32);
        s.append(" - EX: ");
        s.append(self.exchange.as_str());
        s.append(">");
        s
    }
}

} // verus!
