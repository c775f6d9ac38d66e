use vstd::prelude::*;

use crate::text::{decimal, push_decimal};

verus! {

/// Errors raised by the byte buffers in [`crate::packing`].
#[derive(Debug, Clone, Copy, PartialEq, Eq, Structural)]
pub enum BufferError {
    /// Fewer octets are left in the buffer than a read needs.
    BufferTooShort,

    /// A length prefix or a length to write exceeds the allowed maximum.
    MaxLengthOverflow,
}

/// Errors raised while reading, building or writing protocol data.
#[derive(Debug, Clone, Copy, PartialEq, Eq, Structural)]
pub enum ProtocolError {
    /// An error of the underlying buffer.
    Buffer(BufferError),

    /// A label length octet whose two top bits are `01` or `10`.
    InvalidLabelLenOrPointer(u8),

    /// A compression pointer that points past the current read offset.
    InvalidPointerLocation,

    /// A chain of compression pointers that visits no label and never ends.
    PointerLoop,

    /// A label longer than the maximum label length.
    DomainNameLabelTooLong,

    /// A domain name longer than the maximum domain name length.
    DomainNameTooLong,

    /// A domain name given as text that holds a non-ASCII character.
    InvalidOmainNameLabelByte,

    /// An unknown class mnemonic.
    ClassParseError,

    /// An unknown type mnemonic.
    TypeParseError,
}

/// The message of a protocol error.
pub open spec fn protocol_error_text(e: ProtocolError) -> Seq<char> {
    match e {
        ProtocolError::Buffer(BufferError::BufferTooShort) => "Buffer too short"@,
        ProtocolError::Buffer(BufferError::MaxLengthOverflow) => "Length exceeds the maximum"@,
        ProtocolError::InvalidLabelLenOrPointer(b) => "Invalid label length or pointer octet "@
            + decimal(b as nat),
        ProtocolError::InvalidPointerLocation => "Invalid compression pointer location"@,
        ProtocolError::PointerLoop => "Compression pointer loop"@,
        ProtocolError::DomainNameLabelTooLong => "Domain name label too long"@,
        ProtocolError::DomainNameTooLong => "Domain name too long"@,
        ProtocolError::InvalidOmainNameLabelByte => "Invalid domain name label byte"@,
        ProtocolError::ClassParseError => "Failed to parse class"@,
        ProtocolError::TypeParseError => "Failed to parse type"@,
    }
}

impl ProtocolError {
    /// The message of the error.
    pub fn to_string(&self) -> (r: String)
        ensures
            r@ == protocol_error_text(*self),
    {
        match self {
            ProtocolError::Buffer(BufferError::BufferTooShort) => String::from_str(
                "Buffer too short",
            ),
            ProtocolError::Buffer(BufferError::MaxLengthOverflow) => String::from_str(
                "Length exceeds the maximum",
            ),
            ProtocolError::InvalidLabelLenOrPointer(b) => {
                let mut s = String::from_str("Invalid label length or pointer octet ");
                push_decimal(&mut s, *b as u32);
                s
            },
            ProtocolError::InvalidPointerLocation => String::from_str(
                "Invalid compression pointer location",
            ),
            ProtocolError::PointerLoop => String::from_str("Compression pointer loop"),
            ProtocolError::DomainNameLabelTooLong => String::from_str("Domain name label too long"),
            ProtocolError::DomainNameTooLong => String::from_str("Domain name too long"),
            ProtocolError::InvalidOmainNameLabelByte => String::from_str(
                "Invalid domain name label byte",
            ),
            ProtocolError::ClassParseError => String::from_str("Failed to parse class"),
            ProtocolError::TypeParseError => String::from_str("Failed to parse type"),
        }
    }
}

} // verus!
