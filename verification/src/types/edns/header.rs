use vstd::prelude::*;

use crate::types::dns::name::Name;
use crate::types::rr::classes::class_code;
use crate::types::rr::rheader::RHeader;

use crate::text::{decimal, push_decimal};
use crate::types::dns::name::name_debug;

verus! {

/// The fields of an OPT record header, read as EDNS fields (RFC 2671).
#[derive(Debug)]
pub struct EdnsHeader {
    /// This will always be empty (root).
    name: Name,

    /// The sender's UDP payload size: the number of octets of the largest UDP
    /// payload that can be reassembled and delivered in the sender's network
    /// stack.
    sender_payload_size: u16,

    /// The upper 8 bits of extended 12-bit RCODE. EXTENDED-RCODE value "0"
    /// indicates that an unextended RCODE is in use (values "0" through "15").
    upper_ext_rcode: u8,

    /// EDNS version. Full conformance with RFC 2671 is indicated by version
    /// "0".
    version: u8,

    /// Zero padding: set to zero by senders and ignored by receivers.
    zero: u16,
}

/// The contents of an [`EdnsHeader`].
pub struct EdnsHeaderView {
    pub name: Seq<Seq<u8>>,
    pub sender_payload_size: u16,
    pub upper_ext_rcode: u8,
    pub version: u8,
    pub zero: u16,
}

impl View for EdnsHeader {
    type V = EdnsHeaderView;

    closed spec fn view(&self) -> EdnsHeaderView {
        EdnsHeaderView {
            name: self.name@,
            sender_payload_size: self.sender_payload_size,
            upper_ext_rcode: self.upper_ext_rcode,
            version: self.version,
            zero: self.zero,
        }
    }
}

/// The EDNS fields of an OPT record header (RFC 6891, section 6.1.3): the
/// class code is the payload size, and the TTL holds, from its highest octet
/// down, the upper 8 bits of the extended RCODE, the version, and the 16
/// bits of the DO flag and the Z field.
pub open spec fn edns_header_of(h: crate::types::rr::rheader::RHeaderView) -> EdnsHeaderView {
    EdnsHeaderView {
        name: h.name,
        sender_payload_size: class_code(h.class),
        upper_ext_rcode: (h.ttl / 0x1000000) as u8,
        version: ((h.ttl / 0x10000) % 0x100) as u8,
        zero: (h.ttl % 0x10000) as u16,
    }
}

impl EdnsHeader {
    /// Reads the EDNS fields from the header of an OPT record.
    pub fn from_rheader(rheader: &RHeader) -> (r: Self)
        ensures
            r@ == edns_header_of(rheader@),
    {
        let ttl = rheader.ttl();
        Self {
            name: rheader.name().clone(),
            sender_payload_size: u16::from(*rheader.class()),
            upper_ext_rcode: (ttl / 0x1000000) as u8,
            version: ((ttl / 0x10000) % 0x100) as u8,
            zero: (ttl % 0x10000) as u16,
        }
    }
}

/// The EDNS fields as text, in the form `{:?}` gives them.
pub open spec fn edns_header_text(h: EdnsHeaderView) -> Seq<char> {
    "EdnsHeader { name: "@ + name_debug(h.name) + ", sender_payload_size: "@ + decimal(
        h.sender_payload_size as nat,
    ) + ", upper_ext_rcode: "@ + decimal(h.upper_ext_rcode as nat) + ", version: "@ + decimal(
        h.version as nat,
    ) + ", zero: "@ + decimal(h.zero as nat) + " }"@
}

impl EdnsHeader {
    /// The EDNS fields as text.
    pub fn to_string(&self) -> (r: String)
        ensures
            r@ == edns_header_text(self@),
    {
        let mut s = String::from_str("EdnsHeader { name: ");
        let n = self.name.debug_text();
        s.append(n.as_str());
        s.append(", sender_payload_size: ");
        push_decimal(&mut s, self.sender_payload_size as u32);
        s.append(", upper_ext_rcode: ");
        push_decimal(&mut s, self.upper_ext_rcode as u32);
        s.append(", version: ");
        push_decimal(&mut s, self.version as u32);
        s.append(", zero: ");
        push_decimal(&mut s, self.zero as u32);
        s.append(" }");
        s
    }
}

} // verus!
