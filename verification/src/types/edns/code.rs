use vstd::prelude::*;

use crate::errors::BufferError;
use crate::packing::{read_u16_at, u16_wire, PackBuffer, UnpackBuffer};

use crate::text::{decimal, push_decimal};

verus! {

/// The code of an EDNS option (RFC 6891, IANA "DNS EDNS0 Option Codes").
#[derive(Debug, Clone, Copy, PartialEq, Eq, Structural)]
pub enum OptionCode {
    /// The reserved codes 0, 4 and 65535.
    RESERVED(u16),

    /// The codes 65001 to 65534, reserved for local or experimental use.
    RESERVEDLOCAL(u16),

    /// A code that is not assigned.
    UNASSIGNED(u16),

    /// Long-lived queries (1).
    LLQ,

    /// Update lease (2).
    UL,

    /// Name server identifier (3).
    NSID,

    /// DNSSEC algorithms understood (5).
    DAU,

    /// DS hash understood (6).
    DHU,

    /// NSEC3 hash understood (7).
    N3U,

    /// Client subnet (8).
    ECS,

    /// Zone expiry (9).
    EXPIRE,

    /// DNS cookie (10).
    COOKIE,

    /// TCP keepalive (11).
    TCPKEEPALIVE,

    /// Padding (12).
    PADDING,

    /// Chain query (13).
    CHAIN,

    /// Key tag (14).
    KEYTAG,

    /// Extended DNS error (15).
    EDE,

    /// Client tag (16).
    CLIENTTAG,

    /// Server tag (17).
    SERVERTAG,

    /// Umbrella identity (20292).
    UMBRELLAIDENT,

    /// Device ID (26946).
    DEVICEID,

}

/// The option code that a code on the wire stands for.
pub open spec fn option_code_from(code: u16) -> OptionCode {
    if code == 0 || code == 4 || code == 65535 {
        OptionCode::RESERVED(code)
    } else if 65001 <= code && code <= 65534 {
        OptionCode::RESERVEDLOCAL(code)
    } else if code == 1 {
        OptionCode::LLQ
    } else if code == 2 {
        OptionCode::UL
    } else if code == 3 {
        OptionCode::NSID
    } else if code == 5 {
        OptionCode::DAU
    } else if code == 6 {
        OptionCode::DHU
    } else if code == 7 {
        OptionCode::N3U
    } else if code == 8 {
        OptionCode::ECS
    } else if code == 9 {
        OptionCode::EXPIRE
    } else if code == 10 {
        OptionCode::COOKIE
    } else if code == 11 {
        OptionCode::TCPKEEPALIVE
    } else if code == 12 {
        OptionCode::PADDING
    } else if code == 13 {
        OptionCode::CHAIN
    } else if code == 14 {
        OptionCode::KEYTAG
    } else if code == 15 {
        OptionCode::EDE
    } else if code == 16 {
        OptionCode::CLIENTTAG
    } else if code == 17 {
        OptionCode::SERVERTAG
    } else if code == 20292 {
        OptionCode::UMBRELLAIDENT
    } else if code == 26946 {
        OptionCode::DEVICEID
    } else {
        OptionCode::UNASSIGNED(code)
    }
}

/// The code of an option code.
pub open spec fn option_code_value(c: OptionCode) -> u16 {
    match c {
        OptionCode::RESERVED(v) => v,
        OptionCode::RESERVEDLOCAL(v) => v,
        OptionCode::UNASSIGNED(v) => v,
        OptionCode::LLQ => 1,
        OptionCode::UL => 2,
        OptionCode::NSID => 3,
        OptionCode::DAU => 5,
        OptionCode::DHU => 6,
        OptionCode::N3U => 7,
        OptionCode::ECS => 8,
        OptionCode::EXPIRE => 9,
        OptionCode::COOKIE => 10,
        OptionCode::TCPKEEPALIVE => 11,
        OptionCode::PADDING => 12,
        OptionCode::CHAIN => 13,
        OptionCode::KEYTAG => 14,
        OptionCode::EDE => 15,
        OptionCode::CLIENTTAG => 16,
        OptionCode::SERVERTAG => 17,
        OptionCode::UMBRELLAIDENT => 20292,
        OptionCode::DEVICEID => 26946,
    }
}

impl From<u16> for OptionCode {
    fn from(code: u16) -> (r: Self) {
        if code == 0 || code == 4 || code == 65535 {
            return Self::RESERVED(code);
        }
        if 65001 <= code && code <= 65534 {
            return Self::RESERVEDLOCAL(code);
        }
        match code {
            1 => Self::LLQ,
            2 => Self::UL,
            3 => Self::NSID,
            5 => Self::DAU,
            6 => Self::DHU,
            7 => Self::N3U,
            8 => Self::ECS,
            9 => Self::EXPIRE,
            10 => Self::COOKIE,
            11 => Self::TCPKEEPALIVE,
            12 => Self::PADDING,
            13 => Self::CHAIN,
            14 => Self::KEYTAG,
            15 => Self::EDE,
            16 => Self::CLIENTTAG,
            17 => Self::SERVERTAG,
            20292 => Self::UMBRELLAIDENT,
            26946 => Self::DEVICEID,
            _ => Self::UNASSIGNED(code),
        }
    }
}

impl vstd::std_specs::convert::FromSpecImpl<u16> for OptionCode {
    open spec fn obeys_from_spec() -> bool {
        true
    }

    open spec fn from_spec(code: u16) -> Self {
        option_code_from(code)
    }
}

impl From<OptionCode> for u16 {
    fn from(c: OptionCode) -> (r: Self) {
        match c {
            OptionCode::RESERVED(v) => v,
            OptionCode::RESERVEDLOCAL(v) => v,
            OptionCode::UNASSIGNED(v) => v,
            OptionCode::LLQ => 1,
            OptionCode::UL => 2,
            OptionCode::NSID => 3,
            OptionCode::DAU => 5,
            OptionCode::DHU => 6,
            OptionCode::N3U => 7,
            OptionCode::ECS => 8,
            OptionCode::EXPIRE => 9,
            OptionCode::COOKIE => 10,
            OptionCode::TCPKEEPALIVE => 11,
            OptionCode::PADDING => 12,
            OptionCode::CHAIN => 13,
            OptionCode::KEYTAG => 14,
            OptionCode::EDE => 15,
            OptionCode::CLIENTTAG => 16,
            OptionCode::SERVERTAG => 17,
            OptionCode::UMBRELLAIDENT => 20292,
            OptionCode::DEVICEID => 26946,
        }
    }
}

impl vstd::std_specs::convert::FromSpecImpl<OptionCode> for u16 {
    open spec fn obeys_from_spec() -> bool {
        true
    }

    open spec fn from_spec(c: OptionCode) -> Self {
        option_code_value(c)
    }
}

/// Reading an option code at offset `p`.
pub open spec fn read_option_code_at(b: Seq<u8>, p: int) -> Result<(OptionCode, int), BufferError> {
    match read_u16_at(b, p) {
        Ok((v, q)) => Ok((option_code_from(v), q)),
        Err(e) => Err(e),
    }
}

impl OptionCode {
    /// Reads an option code.
    pub fn read(buf: &mut UnpackBuffer) -> (r: Result<Self, BufferError>)
        ensures
            final(buf).bytes() == old(buf).bytes(),
            match read_option_code_at(old(buf).bytes(), old(buf).pos()) {
                Ok((c, p)) => r == Ok::<OptionCode, BufferError>(c) && final(buf).pos() == p,
                Err(e) => r == Err::<OptionCode, BufferError>(e),
            },
    {
        let v = buf.unpack_u16()?;
        Ok(Self::from(v))
    }

    /// Writes the option code.
    pub fn write(&self, buf: &mut PackBuffer) -> (r: usize)
        ensures
            final(buf).bytes() == old(buf).bytes() + u16_wire(option_code_value(*self)),
            r == 2,
    {
        buf.pack_u16(u16::from(*self));
        2
    }
}

/// Every code survives the trip to an option code and back.
pub proof fn lemma_option_code_roundtrip(code: u16)
    ensures
        option_code_value(option_code_from(code)) == code,
{
}

/// The name of an option code, as `{:?}` shows it.
pub open spec fn option_code_text(c: OptionCode) -> Seq<char> {
    match c {
        OptionCode::RESERVED(n) => "RESERVED("@ + decimal(n as nat) + ")"@,
        OptionCode::RESERVEDLOCAL(n) => "RESERVEDLOCAL("@ + decimal(n as nat) + ")"@,
        OptionCode::UNASSIGNED(n) => "UNASSIGNED("@ + decimal(n as nat) + ")"@,
        OptionCode::LLQ => "LLQ"@,
        OptionCode::UL => "UL"@,
        OptionCode::NSID => "NSID"@,
        OptionCode::DAU => "DAU"@,
        OptionCode::DHU => "DHU"@,
        OptionCode::N3U => "N3U"@,
        OptionCode::ECS => "ECS"@,
        OptionCode::EXPIRE => "EXPIRE"@,
        OptionCode::COOKIE => "COOKIE"@,
        OptionCode::TCPKEEPALIVE => "TCPKEEPALIVE"@,
        OptionCode::PADDING => "PADDING"@,
        OptionCode::CHAIN => "CHAIN"@,
        OptionCode::KEYTAG => "KEYTAG"@,
        OptionCode::EDE => "EDE"@,
        OptionCode::CLIENTTAG => "CLIENTTAG"@,
        OptionCode::SERVERTAG => "SERVERTAG"@,
        OptionCode::UMBRELLAIDENT => "UMBRELLAIDENT"@,
        OptionCode::DEVICEID => "DEVICEID"@,
    }
}

impl OptionCode {
    /// The name of the option code.
    pub fn to_string(&self) -> (r: String)
        ensures
            r@ == option_code_text(*self),
    {
        match self {
            OptionCode::RESERVED(n) => {
                let mut s = String::from_str("RESERVED(");
                push_decimal(&mut s, *n as u32);
                s.append(")");
                s
            },
            OptionCode::RESERVEDLOCAL(n) => {
                let mut s = String::from_str("RESERVEDLOCAL(");
                push_decimal(&mut s, *n as u32);
                s.append(")");
                s
            },
            OptionCode::UNASSIGNED(n) => {
                let mut s = String::from_str("UNASSIGNED(");
                push_decimal(&mut s, *n as u32);
                s.append(")");
                s
            },
            OptionCode::LLQ => String::from_str("LLQ"),
            OptionCode::UL => String::from_str("UL"),
            OptionCode::NSID => String::from_str("NSID"),
            OptionCode::DAU => String::from_str("DAU"),
            OptionCode::DHU => String::from_str("DHU"),
            OptionCode::N3U => String::from_str("N3U"),
            OptionCode::ECS => String::from_str("ECS"),
            OptionCode::EXPIRE => String::from_str("EXPIRE"),
            OptionCode::COOKIE => String::from_str("COOKIE"),
            OptionCode::TCPKEEPALIVE => String::from_str("TCPKEEPALIVE"),
            OptionCode::PADDING => String::from_str("PADDING"),
            OptionCode::CHAIN => String::from_str("CHAIN"),
            OptionCode::KEYTAG => String::from_str("KEYTAG"),
            OptionCode::EDE => String::from_str("EDE"),
            OptionCode::CLIENTTAG => String::from_str("CLIENTTAG"),
            OptionCode::SERVERTAG => String::from_str("SERVERTAG"),
            OptionCode::UMBRELLAIDENT => String::from_str("UMBRELLAIDENT"),
            OptionCode::DEVICEID => String::from_str("DEVICEID"),
        }
    }
}

} // verus!
