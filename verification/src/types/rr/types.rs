use vstd::prelude::*;

use crate::errors::{BufferError, ProtocolError};
use crate::packing::{read_u16_at, u16_wire, PackBuffer, UnpackBuffer};
use crate::text::{ascii_lower, ascii_upper, decimal, is_upper_word, push_char, push_decimal, str_equals, to_uppercase, uppercase};

verus! {

/// [`Type`] describes resource record types.
/// See https://datatracker.ietf.org/doc/html/rfc1035#section-3.2.2
/// The query types (AXFR, MAILB, MAILA, ANY) are a superset of types and
/// should only be allowed in questions.
#[derive(Debug, Clone, Copy, PartialEq, Eq, Structural)]
pub enum Type {
    /// A host address
    A,

    /// An authoritative name server
    NS,

    /// The canonical name for an alias
    CNAME,

    /// Marks the start of a zone of authority
    SOA,

    /// A null RR (EXPERIMENTAL)
    NULL,

    /// A domain name pointer
    PTR,

    /// Host information
    HINFO,

    /// Mailbox or mail list information
    MINFO,

    /// Mail exchange
    MX,

    /// Text strings
    TXT,

    /// AAAA host address
    AAAA,

    /// OPT Record / Meta record
    OPT,

    /// A request for a transfer of an entire zone
    AXFR,

    /// A request for mailbox-related records (MB, MG or MR)
    MAILB,

    /// A request for mail agent RRs (Obsolete - see MX)
    MAILA,

    /// A request for all records (*)
    ANY,

    /// If we receive an invalid RR type, we fall back to this "type" after
    /// which we can terminate the connection.

    UNKNOWN(u16),
}

/// The type that a code on the wire stands for.
pub open spec fn type_from_code(code: u16) -> Type {
    if code == 1 {
        Type::A
    } else if code == 2 {
        Type::NS
    } else if code == 5 {
        Type::CNAME
    } else if code == 6 {
        Type::SOA
    } else if code == 10 {
        Type::NULL
    } else if code == 12 {
        Type::PTR
    } else if code == 13 {
        Type::HINFO
    } else if code == 14 {
        Type::MINFO
    } else if code == 15 {
        Type::MX
    } else if code == 16 {
        Type::TXT
    } else if code == 28 {
        Type::AAAA
    } else if code == 41 {
        Type::OPT
    } else if code == 252 {
        Type::AXFR
    } else if code == 253 {
        Type::MAILB
    } else if code == 254 {
        Type::MAILA
    } else if code == 255 {
        Type::ANY
    } else {
        Type::UNKNOWN(code)
    }
}

/// The code of a type.
pub open spec fn type_code(v: Type) -> u16 {
    match v {
        Type::A => 1,
        Type::NS => 2,
        Type::CNAME => 5,
        Type::SOA => 6,
        Type::NULL => 10,
        Type::PTR => 12,
        Type::HINFO => 13,
        Type::MINFO => 14,
        Type::MX => 15,
        Type::TXT => 16,
        Type::AAAA => 28,
        Type::OPT => 41,
        Type::AXFR => 252,
        Type::MAILB => 253,
        Type::MAILA => 254,
        Type::ANY => 255,
        Type::UNKNOWN(c) => c,
    }
}

/// The mnemonic of a type; an unknown code `c` reads `UNKNOWN(c)`.
pub open spec fn type_text(v: Type) -> Seq<char> {
    match v {
        Type::A => "A"@,
        Type::NS => "NS"@,
        Type::CNAME => "CNAME"@,
        Type::SOA => "SOA"@,
        Type::NULL => "NULL"@,
        Type::PTR => "PTR"@,
        Type::HINFO => "HINFO"@,
        Type::MINFO => "MINFO"@,
        Type::MX => "MX"@,
        Type::TXT => "TXT"@,
        Type::AAAA => "AAAA"@,
        Type::OPT => "OPT"@,
        Type::AXFR => "AXFR"@,
        Type::MAILB => "MAILB"@,
        Type::MAILA => "MAILA"@,
        Type::ANY => "ANY"@,
        Type::UNKNOWN(c) => "UNKNOWN("@ + decimal(c as nat) + ")"@,
    }
}

/// The type that an (already uppercased) mnemonic names.
pub open spec fn type_from_word(s: Seq<char>) -> Result<Type, ProtocolError> {
    if s == "A"@ {
        Ok(Type::A)
    } else if s == "NS"@ {
        Ok(Type::NS)
    } else if s == "CNAME"@ {
        Ok(Type::CNAME)
    } else if s == "SOA"@ {
        Ok(Type::SOA)
    } else if s == "NULL"@ {
        Ok(Type::NULL)
    } else if s == "PTR"@ {
        Ok(Type::PTR)
    } else if s == "HINFO"@ {
        Ok(Type::HINFO)
    } else if s == "MINFO"@ {
        Ok(Type::MINFO)
    } else if s == "MX"@ {
        Ok(Type::MX)
    } else if s == "TXT"@ {
        Ok(Type::TXT)
    } else if s == "AAAA"@ {
        Ok(Type::AAAA)
    } else if s == "OPT"@ {
        Ok(Type::OPT)
    } else if s == "AXFR"@ {
        Ok(Type::AXFR)
    } else if s == "MAILB"@ {
        Ok(Type::MAILB)
    } else if s == "MAILA"@ {
        Ok(Type::MAILA)
    } else if s == "ANY"@ {
        Ok(Type::ANY)
    } else {
        Err(ProtocolError::TypeParseError)
    }
}

/// Reading a type code at offset `p`.
pub open spec fn read_type_at(b: Seq<u8>, p: int) -> Result<(Type, int), BufferError> {
    match read_u16_at(b, p) {
        Ok((v, q)) => Ok((type_from_code(v), q)),
        Err(e) => Err(e),
    }
}

impl Default for Type {
    /// The NULL type.
    fn default() -> (r: Self)
        ensures
            r == Type::NULL,
    {
        Self::NULL
    }
}

impl From<u16> for Type {
    fn from(value: u16) -> (r: Self) {
        match value {
            1 => Self::A,
            2 => Self::NS,
            5 => Self::CNAME,
            6 => Self::SOA,
            10 => Self::NULL,
            12 => Self::PTR,
            13 => Self::HINFO,
            14 => Self::MINFO,
            15 => Self::MX,
            16 => Self::TXT,
            28 => Self::AAAA,
            41 => Self::OPT,
            252 => Self::AXFR,
            253 => Self::MAILB,
            254 => Self::MAILA,
            255 => Self::ANY,
            _ => Self::UNKNOWN(value),
        }
    }
}

impl vstd::std_specs::convert::FromSpecImpl<u16> for Type {
    open spec fn obeys_from_spec() -> bool {
        true
    }

    open spec fn from_spec(value: u16) -> Self {
        type_from_code(value)
    }
}

impl From<Type> for u16 {
    fn from(value: Type) -> (r: Self) {
        match value {
            Type::A => 1,
            Type::NS => 2,
            Type::CNAME => 5,
            Type::SOA => 6,
            Type::NULL => 10,
            Type::PTR => 12,
            Type::HINFO => 13,
            Type::MINFO => 14,
            Type::MX => 15,
            Type::TXT => 16,
            Type::AAAA => 28,
            Type::OPT => 41,
            Type::AXFR => 252,
            Type::MAILB => 253,
            Type::MAILA => 254,
            Type::ANY => 255,
            Type::UNKNOWN(v) => v,
        }
    }
}

impl vstd::std_specs::convert::FromSpecImpl<Type> for u16 {
    open spec fn obeys_from_spec() -> bool {
        true
    }

    open spec fn from_spec(value: Type) -> Self {
        type_code(value)
    }
}

impl Type {
    /// The mnemonic of the type.
    pub fn to_string(&self) -> (r: String)
        ensures
            r@ == type_text(*self),
    {
        match self {
            Type::A => String::from_str("A"),
            Type::NS => String::from_str("NS"),
            Type::CNAME => String::from_str("CNAME"),
            Type::SOA => String::from_str("SOA"),
            Type::NULL => String::from_str("NULL"),
            Type::PTR => String::from_str("PTR"),
            Type::HINFO => String::from_str("HINFO"),
            Type::MINFO => String::from_str("MINFO"),
            Type::MX => String::from_str("MX"),
            Type::TXT => String::from_str("TXT"),
            Type::AAAA => String::from_str("AAAA"),
            Type::OPT => String::from_str("OPT"),
            Type::AXFR => String::from_str("AXFR"),
            Type::MAILB => String::from_str("MAILB"),
            Type::MAILA => String::from_str("MAILA"),
            Type::ANY => String::from_str("ANY"),
            Type::UNKNOWN(c) => {
                let mut s = String::from_str("UNKNOWN(");
                push_decimal(&mut s, *c as u32);
                proof {
                    reveal_strlit(")");
                }
                push_char(&mut s, ')');
                assert(s@ =~= "UNKNOWN("@ + decimal(*c as nat) + ")"@);
                s
            },
        }
    }

    /// The type that an already uppercased mnemonic names.
    pub fn from_uppercase(s: &str) -> (r: Result<Type, ProtocolError>)
        ensures
            r == type_from_word(s@),
    {
        if str_equals(s, "A") {
            return Ok(Self::A);
        }
        if str_equals(s, "NS") {
            return Ok(Self::NS);
        }
        if str_equals(s, "CNAME") {
            return Ok(Self::CNAME);
        }
        if str_equals(s, "SOA") {
            return Ok(Self::SOA);
        }
        if str_equals(s, "NULL") {
            return Ok(Self::NULL);
        }
        if str_equals(s, "PTR") {
            return Ok(Self::PTR);
        }
        if str_equals(s, "HINFO") {
            return Ok(Self::HINFO);
        }
        if str_equals(s, "MINFO") {
            return Ok(Self::MINFO);
        }
        if str_equals(s, "MX") {
            return Ok(Self::MX);
        }
        if str_equals(s, "TXT") {
            return Ok(Self::TXT);
        }
        if str_equals(s, "AAAA") {
            return Ok(Self::AAAA);
        }
        if str_equals(s, "OPT") {
            return Ok(Self::OPT);
        }
        if str_equals(s, "AXFR") {
            return Ok(Self::AXFR);
        }
        if str_equals(s, "MAILB") {
            return Ok(Self::MAILB);
        }
        if str_equals(s, "MAILA") {
            return Ok(Self::MAILA);
        }
        if str_equals(s, "ANY") {
            return Ok(Self::ANY);
        }
        Err(ProtocolError::TypeParseError)
    }

    /// Parses a mnemonic, whatever its case.
    pub fn try_from(value: &str) -> (r: Result<Type, ProtocolError>)
        ensures
            r == type_from_word(uppercase(value@)),
            vstd::utf8::is_ascii_chars(value@) ==> r == type_from_word(ascii_upper(value@)),
    {
        Self::from_uppercase(to_uppercase(value).as_str())
    }

    /// Reads a type code.
    pub fn read(buf: &mut UnpackBuffer) -> (r: Result<Type, BufferError>)
        ensures
            final(buf).bytes() == old(buf).bytes(),
            match read_type_at(old(buf).bytes(), old(buf).pos()) {
                Ok((v, p)) => r == Ok::<Type, BufferError>(v) && final(buf).pos() == p,
                Err(e) => r == Err::<Type, BufferError>(e) && final(buf).pos() == old(buf).pos(),
            },
    {
        let v = buf.unpack_u16()?;
        Ok(Self::from(v))
    }

    /// Writes the type code.
    pub fn write(&self, buf: &mut PackBuffer) -> (r: usize)
        ensures
            final(buf).bytes() == old(buf).bytes() + u16_wire(type_code(*self)),
            r == 2,
    {
        buf.pack_u16(u16::from(*self));
        2
    }
}

/// Whether a code stands for one of the named types.
pub open spec fn is_known_type_code(code: u16) -> bool {
    !(type_from_code(code) is UNKNOWN)
}

/// Every code survives the trip to a type and back.
pub proof fn lemma_type_code_roundtrip(code: u16)
    ensures
        type_code(type_from_code(code)) == code,
{
}

/// Every type survives the trip to its code and back, except `UNKNOWN(c)`
/// with a code `c` that a named type has.
pub proof fn lemma_type_roundtrip(v: Type)
    requires
        v matches Type::UNKNOWN(c) ==> !is_known_type_code(c),
    ensures
        type_from_code(type_code(v)) == v,
{
}

/// The mnemonic of every named type reads back as that type.
pub proof fn lemma_type_text_roundtrip(v: Type)
    requires
        !(v is UNKNOWN),
    ensures
        type_from_word(type_text(v)) == Ok::<Type, ProtocolError>(v),
{
    broadcast use vstd::string::group_string_axioms;

    reveal_strlit("A");
    assert("A"@ =~= seq!['A']);
    reveal_strlit("NS");
    assert("NS"@ =~= seq!['N', 'S']);
    reveal_strlit("CNAME");
    assert("CNAME"@ =~= seq!['C', 'N', 'A', 'M', 'E']);
    reveal_strlit("SOA");
    assert("SOA"@ =~= seq!['S', 'O', 'A']);
    reveal_strlit("NULL");
    assert("NULL"@ =~= seq!['N', 'U', 'L', 'L']);
    reveal_strlit("PTR");
    assert("PTR"@ =~= seq!['P', 'T', 'R']);
    reveal_strlit("HINFO");
    assert("HINFO"@ =~= seq!['H', 'I', 'N', 'F', 'O']);
    reveal_strlit("MINFO");
    assert("MINFO"@ =~= seq!['M', 'I', 'N', 'F', 'O']);
    reveal_strlit("MX");
    assert("MX"@ =~= seq!['M', 'X']);
    reveal_strlit("TXT");
    assert("TXT"@ =~= seq!['T', 'X', 'T']);
    reveal_strlit("AAAA");
    assert("AAAA"@ =~= seq!['A', 'A', 'A', 'A']);
    reveal_strlit("OPT");
    assert("OPT"@ =~= seq!['O', 'P', 'T']);
    reveal_strlit("AXFR");
    assert("AXFR"@ =~= seq!['A', 'X', 'F', 'R']);
    reveal_strlit("MAILB");
    assert("MAILB"@ =~= seq!['M', 'A', 'I', 'L', 'B']);
    reveal_strlit("MAILA");
    assert("MAILA"@ =~= seq!['M', 'A', 'I', 'L', 'A']);
    reveal_strlit("ANY");
    assert("ANY"@ =~= seq!['A', 'N', 'Y']);
}

/// Parsing a type mnemonic ignores the case of ASCII text: the text and its
/// lowercase form, which is ASCII too, give the same type.
pub proof fn lemma_type_text_case_insensitive(s: Seq<char>)
    requires
        vstd::utf8::is_ascii_chars(s),
    ensures
        vstd::utf8::is_ascii_chars(ascii_lower(s)),
        type_from_word(ascii_upper(ascii_lower(s))) == type_from_word(ascii_upper(s)),
{
    crate::text::lemma_ascii_upper_of_lower(s);
}

/// The mnemonic of every named type is a word of ASCII uppercase letters.
proof fn lemma_type_text_upper(v: Type)
    requires
        !(v is UNKNOWN),
    ensures
        is_upper_word(type_text(v)),
{
    broadcast use vstd::string::group_string_axioms;

    match v {
        Type::A => {
            reveal_strlit("A");
            assert("A"@ =~= seq!['A']);
        },
        Type::NS => {
            reveal_strlit("NS");
            assert("NS"@ =~= seq!['N', 'S']);
        },
        Type::CNAME => {
            reveal_strlit("CNAME");
            assert("CNAME"@ =~= seq!['C', 'N', 'A', 'M', 'E']);
        },
        Type::SOA => {
            reveal_strlit("SOA");
            assert("SOA"@ =~= seq!['S', 'O', 'A']);
        },
        Type::NULL => {
            reveal_strlit("NULL");
            assert("NULL"@ =~= seq!['N', 'U', 'L', 'L']);
        },
        Type::PTR => {
            reveal_strlit("PTR");
            assert("PTR"@ =~= seq!['P', 'T', 'R']);
        },
        Type::HINFO => {
            reveal_strlit("HINFO");
            assert("HINFO"@ =~= seq!['H', 'I', 'N', 'F', 'O']);
        },
        Type::MINFO => {
            reveal_strlit("MINFO");
            assert("MINFO"@ =~= seq!['M', 'I', 'N', 'F', 'O']);
        },
        Type::MX => {
            reveal_strlit("MX");
            assert("MX"@ =~= seq!['M', 'X']);
        },
        Type::TXT => {
            reveal_strlit("TXT");
            assert("TXT"@ =~= seq!['T', 'X', 'T']);
        },
        Type::AAAA => {
            reveal_strlit("AAAA");
            assert("AAAA"@ =~= seq!['A', 'A', 'A', 'A']);
        },
        Type::OPT => {
            reveal_strlit("OPT");
            assert("OPT"@ =~= seq!['O', 'P', 'T']);
        },
        Type::AXFR => {
            reveal_strlit("AXFR");
            assert("AXFR"@ =~= seq!['A', 'X', 'F', 'R']);
        },
        Type::MAILB => {
            reveal_strlit("MAILB");
            assert("MAILB"@ =~= seq!['M', 'A', 'I', 'L', 'B']);
        },
        Type::MAILA => {
            reveal_strlit("MAILA");
            assert("MAILA"@ =~= seq!['M', 'A', 'I', 'L', 'A']);
        },
        Type::ANY => {
            reveal_strlit("ANY");
            assert("ANY"@ =~= seq!['A', 'N', 'Y']);
        },
        Type::UNKNOWN(_) => {},
    }
}

/// The text of every named type reads back through [`Type::try_from`]: it is
/// ASCII, uppercasing leaves it as it is, and it names the type.
pub proof fn lemma_type_text_parses_back(v: Type)
    requires
        !(v is UNKNOWN),
    ensures
        vstd::utf8::is_ascii_chars(type_text(v)),
        type_from_word(ascii_upper(type_text(v))) == Ok::<Type, ProtocolError>(v),
{
    lemma_type_text_upper(v);
    crate::text::lemma_upper_word(type_text(v));
    lemma_type_text_roundtrip(v);
}

/// The TYPE values of RFC 1035, section 3.2.2 (with AAAA from RFC 3596 and
/// OPT from RFC 6891): each named type is written as its value and read back
/// from it, and a code that no named type has is kept as `UNKNOWN`.
pub proof fn lemma_type_table(code: u16)
    ensures
        type_code(Type::A) == 1 && type_from_code(1) == Type::A,
        type_code(Type::NS) == 2 && type_from_code(2) == Type::NS,
        type_code(Type::CNAME) == 5 && type_from_code(5) == Type::CNAME,
        type_code(Type::SOA) == 6 && type_from_code(6) == Type::SOA,
        type_code(Type::NULL) == 10 && type_from_code(10) == Type::NULL,
        type_code(Type::PTR) == 12 && type_from_code(12) == Type::PTR,
        type_code(Type::HINFO) == 13 && type_from_code(13) == Type::HINFO,
        type_code(Type::MINFO) == 14 && type_from_code(14) == Type::MINFO,
        type_code(Type::MX) == 15 && type_from_code(15) == Type::MX,
        type_code(Type::TXT) == 16 && type_from_code(16) == Type::TXT,
        type_code(Type::AAAA) == 28 && type_from_code(28) == Type::AAAA,
        type_code(Type::OPT) == 41 && type_from_code(41) == Type::OPT,
        type_code(Type::AXFR) == 252 && type_from_code(252) == Type::AXFR,
        type_code(Type::MAILB) == 253 && type_from_code(253) == Type::MAILB,
        type_code(Type::MAILA) == 254 && type_from_code(254) == Type::MAILA,
        type_code(Type::ANY) == 255 && type_from_code(255) == Type::ANY,
        type_code(Type::UNKNOWN(code)) == code,
        !(code == 1 || code == 2 || code == 5 || code == 6 || code == 10 || code == 12 || code
            == 13 || code == 14 || code == 15 || code == 16 || code == 28 || code == 41 || code
            == 252 || code == 253 || code == 254 || code == 255) ==> type_from_code(code)
            == Type::UNKNOWN(code),
{
}

} // verus!
