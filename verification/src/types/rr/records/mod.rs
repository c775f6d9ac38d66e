use vstd::prelude::*;

use crate::types::rr::rheader::{RHeader, RHeaderView};

pub mod a;
pub mod aaaa;
pub mod cname;
pub mod hinfo;
pub mod mb;
pub mod md;
pub mod mf;
pub mod mg;
pub mod minfo;
pub mod mr;
pub mod mx;
pub mod ns;
pub mod null;
pub mod ptr;
pub mod txt;

pub use a::A;
pub use aaaa::AAAA;
pub use cname::CNAME;
pub use hinfo::HINFO;
pub use mb::MB;
pub use md::MD;
pub use mf::MF;
pub use mg::MG;
pub use minfo::MINFO;
pub use mr::MR;
pub use mx::MX;
pub use ns::NS;
pub use null::NULL;
pub use ptr::PTR;
pub use txt::TXT;
pub use opt::OPT;
pub mod opt;

verus! {

/// The number of octets of text in UTF-8.
pub open spec fn text_len(s: Seq<char>) -> nat {
    vstd::utf8::encode_utf8(s).len()
}

/// The header and data length of a record.
pub trait Record {
    /// The record header.
    spec fn header_view(&self) -> RHeaderView;

    /// Whether [`Record::len`] can compute the length.
    spec fn len_ok(&self) -> bool;

    /// The length that [`Record::len`] gives.
    spec fn spec_len(&self) -> u16;

    fn header(&self) -> (r: &RHeader)
        ensures
            r@ == self.header_view(),
    ;

    fn set_header(&mut self, header: RHeader)
        ensures
            final(self).header_view() == header@,
    ;

    fn len(&self) -> (r: u16)
        requires
            self.len_ok(),
        ensures
            r == self.spec_len(),
    ;
}

/// A record of any of the types.
#[derive(Debug)]
pub enum ResourceRecord {
    A(A),
    AAAA(AAAA),
    CNAME(CNAME),
    HINFO(HINFO),
    MB(MB),
    MD(MD),
    MF(MF),
    MG(MG),
    MINFO(MINFO),
    MR(MR),
    MX(MX),
    NS(NS),
    NULL(NULL),
    PTR(PTR),
    TXT(TXT),
    OPT(OPT),
}

} // verus!
