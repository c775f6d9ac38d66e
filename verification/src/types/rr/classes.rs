use vstd::prelude::*;

use crate::errors::{BufferError, ProtocolError};
use crate::packing::{read_u16_at, u16_wire, PackBuffer, UnpackBuffer};
use crate::text::{ascii_lower, ascii_upper, decimal, is_upper_word, push_char, push_decimal, str_equals, to_uppercase, uppercase};

verus! {

/// [`Class`] describes resource record class codes.
/// See https://datatracker.ietf.org/doc/html/rfc1035#section-3.2.4
/// ANY is a query class and should only be allowed in questions.
#[derive(Debug, Clone, Copy, PartialEq, Eq, Structural)]
pub enum Class {
    /// The Internet
    IN,

    /// The CSNET class (Obsolete - used only for examples in some obsolete RFCs)
    CS,

    /// The CHAOS class
    CH,

    /// Hesiod [Dyer 87]
    HS,

    /// Any class (*)
    ANY,

    /// If we receive an unknown RR class, we default back to this "class".
    /// This can be the case when we deal with OPT records: EDNS uses this
    /// field to indicate the sender's UDP payload size instead of the class.

    UNKNOWN(u16),
}

/// The class that a code on the wire stands for.
pub open spec fn class_from_code(code: u16) -> Class {
    if code == 1 {
        Class::IN
    } else if code == 2 {
        Class::CS
    } else if code == 3 {
        Class::CH
    } else if code == 4 {
        Class::HS
    } else if code == 255 {
        Class::ANY
    } else {
        Class::UNKNOWN(code)
    }
}

/// The code of a class.
pub open spec fn class_code(v: Class) -> u16 {
    match v {
        Class::IN => 1,
        Class::CS => 2,
        Class::CH => 3,
        Class::HS => 4,
        Class::ANY => 255,
        Class::UNKNOWN(c) => c,
    }
}

/// The mnemonic of a class; an unknown code `c` reads `UNKNOWN(c)`.
pub open spec fn class_text(v: Class) -> Seq<char> {
    match v {
        Class::IN => "IN"@,
        Class::CS => "CS"@,
        Class::CH => "CH"@,
        Class::HS => "HS"@,
        Class::ANY => "ANY"@,
        Class::UNKNOWN(c) => "UNKNOWN("@ + decimal(c as nat) + ")"@,
    }
}

/// The class that an (already uppercased) mnemonic names.
pub open spec fn class_from_word(s: Seq<char>) -> Result<Class, ProtocolError> {
    if s == "IN"@ {
        Ok(Class::IN)
    } else if s == "CS"@ {
        Ok(Class::CS)
    } else if s == "CH"@ {
        Ok(Class::CH)
    } else if s == "HS"@ {
        Ok(Class::HS)
    } else if s == "ANY"@ {
        Ok(Class::ANY)
    } else {
        Err(ProtocolError::ClassParseError)
    }
}

/// Reading a class code at offset `p`.
pub open spec fn read_class_at(b: Seq<u8>, p: int) -> Result<(Class, int), BufferError> {
    match read_u16_at(b, p) {
        Ok((v, q)) => Ok((class_from_code(v), q)),
        Err(e) => Err(e),
    }
}

impl Default for Class {
    /// The Internet class.
    fn default() -> (r: Self)
        ensures
            r == Class::IN,
    {
        Self::IN
    }
}

impl From<u16> for Class {
    fn from(value: u16) -> (r: Self) {
        match value {
            1 => Self::IN,
            2 => Self::CS,
            3 => Self::CH,
            4 => Self::HS,
            255 => Self::ANY,
            _ => Self::UNKNOWN(value),
        }
    }
}

impl vstd::std_specs::convert::FromSpecImpl<u16> for Class {
    open spec fn obeys_from_spec() -> bool {
        true
    }

    open spec fn from_spec(value: u16) -> Self {
        class_from_code(value)
    }
}

impl From<Class> for u16 {
    fn from(value: Class) -> (r: Self) {
        match value {
            Class::IN => 1,
            Class::CS => 2,
            Class::CH => 3,
            Class::HS => 4,
            Class::ANY => 255,
            Class::UNKNOWN(v) => v,
        }
    }
}

impl vstd::std_specs::convert::FromSpecImpl<Class> for u16 {
    open spec fn obeys_from_spec() -> bool {
        true
    }

    open spec fn from_spec(value: Class) -> Self {
        class_code(value)
    }
}

impl Class {
    /// The mnemonic of the class.
    pub fn to_string(&self) -> (r: String)
        ensures
            r@ == class_text(*self),
    {
        match self {
            Class::IN => String::from_str("IN"),
            Class::CS => String::from_str("CS"),
            Class::CH => String::from_str("CH"),
            Class::HS => String::from_str("HS"),
            Class::ANY => String::from_str("ANY"),
            Class::UNKNOWN(c) => {
                let mut s = String::from_str("UNKNOWN(");
                push_decimal(&mut s, *c as u32);
                proof {
                    reveal_strlit(")");
                }
                push_char(&mut s, ')');
                assert(s@ =~= "UNKNOWN("@ + decimal(*c as nat) + ")"@);
                s
            },
        }
    }

    /// The class that an already uppercased mnemonic names.
    pub fn from_uppercase(s: &str) -> (r: Result<Class, ProtocolError>)
        ensures
            r == class_from_word(s@),
    {
        if str_equals(s, "IN") {
            return Ok(Self::IN);
        }
        if str_equals(s, "CS") {
            return Ok(Self::CS);
        }
        if str_equals(s, "CH") {
            return Ok(Self::CH);
        }
        if str_equals(s, "HS") {
            return Ok(Self::HS);
        }
        if str_equals(s, "ANY") {
            return Ok(Self::ANY);
        }
        Err(ProtocolError::ClassParseError)
    }

    /// Parses a mnemonic, whatever its case.
    pub fn try_from(value: &str) -> (r: Result<Class, ProtocolError>)
        ensures
            r == class_from_word(uppercase(value@)),
            vstd::utf8::is_ascii_chars(value@) ==> r == class_from_word(ascii_upper(value@)),
    {
        Self::from_uppercase(to_uppercase(value).as_str())
    }

    /// Reads a class code.
    pub fn read(buf: &mut UnpackBuffer) -> (r: Result<Class, BufferError>)
        ensures
            final(buf).bytes() == old(buf).bytes(),
            match read_class_at(old(buf).bytes(), old(buf).pos()) {
                Ok((v, p)) => r == Ok::<Class, BufferError>(v) && final(buf).pos() == p,
                Err(e) => r == Err::<Class, BufferError>(e) && final(buf).pos() == old(buf).pos(),
            },
    {
        let v = buf.unpack_u16()?;
        Ok(Self::from(v))
    }

    /// Writes the class code.
    pub fn write(&self, buf: &mut PackBuffer) -> (r: usize)
        ensures
            final(buf).bytes() == old(buf).bytes() + u16_wire(class_code(*self)),
            r == 2,
    {
        buf.pack_u16(u16::from(*self));
        2
    }
}

/// Whether a code stands for one of the named classs.
pub open spec fn is_known_class_code(code: u16) -> bool {
    !(class_from_code(code) is UNKNOWN)
}

/// Every code survives the trip to a class and back.
pub proof fn lemma_class_code_roundtrip(code: u16)
    ensures
        class_code(class_from_code(code)) == code,
{
}

/// Every class survives the trip to its code and back, except `UNKNOWN(c)`
/// with a code `c` that a named class has.
pub proof fn lemma_class_roundtrip(v: Class)
    requires
        v matches Class::UNKNOWN(c) ==> !is_known_class_code(c),
    ensures
        class_from_code(class_code(v)) == v,
{
}

/// The mnemonic of every named class reads back as that class.
pub proof fn lemma_class_text_roundtrip(v: Class)
    requires
        !(v is UNKNOWN),
    ensures
        class_from_word(class_text(v)) == Ok::<Class, ProtocolError>(v),
{
    broadcast use vstd::string::group_string_axioms;

    reveal_strlit("IN");
    assert("IN"@ =~= seq!['I', 'N']);
    reveal_strlit("CS");
    assert("CS"@ =~= seq!['C', 'S']);
    reveal_strlit("CH");
    assert("CH"@ =~= seq!['C', 'H']);
    reveal_strlit("HS");
    assert("HS"@ =~= seq!['H', 'S']);
    reveal_strlit("ANY");
    assert("ANY"@ =~= seq!['A', 'N', 'Y']);
}

/// Parsing a class mnemonic ignores the case of ASCII text.
pub proof fn lemma_class_text_case_insensitive(s: Seq<char>)
    requires
        vstd::utf8::is_ascii_chars(s),
    ensures
        vstd::utf8::is_ascii_chars(ascii_lower(s)),
        class_from_word(ascii_upper(ascii_lower(s))) == class_from_word(ascii_upper(s)),
{
    crate::text::lemma_ascii_upper_of_lower(s);
}

/// The mnemonic of every named class is a word of ASCII uppercase letters.
proof fn lemma_class_text_upper(v: Class)
    requires
        !(v is UNKNOWN),
    ensures
        is_upper_word(class_text(v)),
{
    broadcast use vstd::string::group_string_axioms;

    match v {
        Class::IN => {
            reveal_strlit("IN");
            assert("IN"@ =~= seq!['I', 'N']);
        },
        Class::CS => {
            reveal_strlit("CS");
            assert("CS"@ =~= seq!['C', 'S']);
        },
        Class::CH => {
            reveal_strlit("CH");
            assert("CH"@ =~= seq!['C', 'H']);
        },
        Class::HS => {
            reveal_strlit("HS");
            assert("HS"@ =~= seq!['H', 'S']);
        },
        Class::ANY => {
            reveal_strlit("ANY");
            assert("ANY"@ =~= seq!['A', 'N', 'Y']);
        },
        Class::UNKNOWN(_) => {},
    }
}

/// The text of every named class reads back through [`Class::try_from`].
pub proof fn lemma_class_text_parses_back(v: Class)
    requires
        !(v is UNKNOWN),
    ensures
        vstd::utf8::is_ascii_chars(class_text(v)),
        class_from_word(ascii_upper(class_text(v))) == Ok::<Class, ProtocolError>(v),
{
    lemma_class_text_upper(v);
    crate::text::lemma_upper_word(class_text(v));
    lemma_class_text_roundtrip(v);
}

/// The CLASS values of RFC 1035, section 3.2.4 and 3.2.5: IN is 1, CS 2, CH
/// 3, HS 4 and ANY 255, each read back from its value, and any other code is
/// kept as `UNKNOWN`.
pub proof fn lemma_class_table(code: u16)
    ensures
        class_code(Class::IN) == 1 && class_from_code(1) == Class::IN,
        class_code(Class::CS) == 2 && class_from_code(2) == Class::CS,
        class_code(Class::CH) == 3 && class_from_code(3) == Class::CH,
        class_code(Class::HS) == 4 && class_from_code(4) == Class::HS,
        class_code(Class::ANY) == 255 && class_from_code(255) == Class::ANY,
        class_code(Class::UNKNOWN(code)) == code,
        !(code == 1 || code == 2 || code == 3 || code == 4 || code == 255) ==> class_from_code(
            code,
        ) == Class::UNKNOWN(code),
{
}

} // verus!
