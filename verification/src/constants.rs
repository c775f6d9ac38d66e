use vstd::prelude::*;

verus! {

/// Maximum length (in octets) of a single domain name label.
pub const MAX_LABEL_LENGTH: u8 = 63;

/// Maximum length (in octets) of a complete domain name.
pub const MAX_DOMAIN_LENGTH: u8 = 255;

/// Maximum length (in octets) of a `<character-string>`.
pub const MAX_CHAR_STRING_LENGTH: u8 = 255;

/// Mask which extracts the offset from a two-octet compression pointer.
pub const COMPRESSION_POINTER_MASK: u16 = 0x3FFF;

/// Length of the fixed-size message header.
pub const HEADER_LENGTH: usize = 12;

/// Length of the fixed part of a question (QTYPE and QCLASS).
pub const QUESTION_FIXED_LENGTH: usize = 4;

/// Length of the fixed part of a resource record header (TYPE, CLASS, TTL and RDLENGTH).
pub const RECORD_FIXED_LENGTH: usize = 10;

} // verus!
