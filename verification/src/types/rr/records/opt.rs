use vstd::prelude::*;

use super::ResourceRecord;
use crate::types::rr::rheader::RHeader;


verus! {

/// See https://datatracker.ietf.org/doc/html/rfc6891#section-6.1
/// Many OPT header fields have a special use case:
/// - Class: UDP payload size. RFC 6891 removed the 512 byte size limit.
///   This field can set the maximum size in bytes (e.g. 4096)
/// - TTL: This 32 bit field is split up in:
///   - 1 octet extended RCODEs
///   - 1 octet EDNS version
///   - DO bit
///   - 15 reserved bits
#[derive(Debug)]
pub struct OPT {}

impl OPT {
    /// An OPT record, as a [`ResourceRecord`]; the header is not kept.
    pub fn new_with_header(header: RHeader) -> (r: ResourceRecord)
        ensures
            r is OPT,
    {
        ResourceRecord::OPT(Self {  })
    }
}

impl OPT {
    /// The record as text: `OPT`.
    pub fn to_string(&self) -> (r: String)
        ensures
            r@ == "OPT"@,
    {
        String::from_str("OPT")
    }
}

} // verus!
