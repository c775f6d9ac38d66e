use vstd::prelude::*;

verus! {

/// [`Rcode`] describes the kind of response.
///
/// Response code - this 4 bit field is set as part of responses.
/// See [RFC 1035](https://datatracker.ietf.org/doc/html/rfc1035#section-4.1.1).
#[derive(Debug, Clone, Copy, PartialEq, Eq, Structural)]
pub enum Rcode {
    /// (0) No error condition.
    NoError,

    /// (1) Format error - The name server was unable to interpret the query.
    FormatError,

    /// (2) Server failure - The name server was unable to process this query due
    /// to a problem with the name server.
    ServerFailure,

    /// (3) Name Error - Meaningful only for responses from an authoritative name
    /// server, this code signifies that the domain name referenced in the query
    /// does not exist.
    NameError,

    /// (4) Not Implemented - The name server does not support the requested kind
    /// of query.
    NotImpl,

    /// (5) Refused - The name server refuses to perform the specified operation
    /// for policy reasons.
    Refused,

    /// (6-15) Initially reserved for future use (in RFC 1035).
    ///
    /// RCODES above 15 (EXTENDED-RCODE) need to be combined with the upper 8
    /// bits in the OPT record.
    Reserved,
}

/// The response code that a code on the wire stands for.
pub open spec fn rcode_from_code(code: u16) -> Rcode {
    if code == 0 {
        Rcode::NoError
    } else if code == 1 {
        Rcode::FormatError
    } else if code == 2 {
        Rcode::ServerFailure
    } else if code == 3 {
        Rcode::NameError
    } else if code == 4 {
        Rcode::NotImpl
    } else if code == 5 {
        Rcode::Refused
    } else {
        Rcode::Reserved
    }
}

/// The code of a response code; `Reserved` has the code 65535.
pub open spec fn rcode_code(rcode: Rcode) -> u16 {
    match rcode {
        Rcode::NoError => 0,
        Rcode::FormatError => 1,
        Rcode::ServerFailure => 2,
        Rcode::NameError => 3,
        Rcode::NotImpl => 4,
        Rcode::Refused => 5,
        Rcode::Reserved => 65535,
    }
}

/// The text of a response code.
pub open spec fn rcode_text(rcode: Rcode) -> Seq<char> {
    match rcode {
        Rcode::NoError => "NOERROR"@,
        Rcode::FormatError => "FORMATERROR"@,
        Rcode::ServerFailure => "SERVERFAILURE"@,
        Rcode::NameError => "NAMEERROR"@,
        Rcode::NotImpl => "NOTIMPLEMENTED"@,
        Rcode::Refused => "REFUSED"@,
        Rcode::Reserved => "RESERVED"@,
    }
}

impl Rcode {
    /// The text of the response code.
    pub fn to_string(&self) -> (r: String)
        ensures
            r@ == rcode_text(*self),
    {
        match self {
            Rcode::NoError => String::from_str("NOERROR"),
            Rcode::FormatError => String::from_str("FORMATERROR"),
            Rcode::ServerFailure => String::from_str("SERVERFAILURE"),
            Rcode::NameError => String::from_str("NAMEERROR"),
            Rcode::NotImpl => String::from_str("NOTIMPLEMENTED"),
            Rcode::Refused => String::from_str("REFUSED"),
            Rcode::Reserved => String::from_str("RESERVED"),
        }
    }
}

impl From<u16> for Rcode {
    fn from(code: u16) -> (r: Self) {
        match code {
            0 => Self::NoError,
            1 => Self::FormatError,
            2 => Self::ServerFailure,
            3 => Self::NameError,
            4 => Self::NotImpl,
            5 => Self::Refused,
            _ => Self::Reserved,
        }
    }
}

impl vstd::std_specs::convert::FromSpecImpl<u16> for Rcode {
    open spec fn obeys_from_spec() -> bool {
        true
    }

    open spec fn from_spec(code: u16) -> Self {
        rcode_from_code(code)
    }
}

impl From<Rcode> for u16 {
    fn from(value: Rcode) -> (r: Self) {
        match value {
            Rcode::NoError => 0,
            Rcode::FormatError => 1,
            Rcode::ServerFailure => 2,
            Rcode::NameError => 3,
            Rcode::NotImpl => 4,
            Rcode::Refused => 5,
            Rcode::Reserved => 65535,
        }
    }
}

impl vstd::std_specs::convert::FromSpecImpl<Rcode> for u16 {
    open spec fn obeys_from_spec() -> bool {
        true
    }

    open spec fn from_spec(value: Rcode) -> Self {
        rcode_code(value)
    }
}

/// Every response code survives the trip to its code and back.
pub proof fn lemma_rcode_roundtrip(rcode: Rcode)
    ensures
        rcode_from_code(rcode_code(rcode)) == rcode,
{
}

/// The codes 0 to 5 survive the trip to a response code and back.
pub proof fn lemma_rcode_code_roundtrip(code: u16)
    requires
        code <= 5,
    ensures
        rcode_code(rcode_from_code(code)) == code,
{
}

/// The RCODE values of RFC 1035, section 4.1.1: codes 0 to 5 are no error,
/// format error, server failure, name error, not implemented and refused,
/// in that order, each response code is written as its own value, and every
/// other code is reserved.
pub proof fn lemma_rcode_table(code: u16)
    ensures
        rcode_from_code(0) == Rcode::NoError,
        rcode_from_code(1) == Rcode::FormatError,
        rcode_from_code(2) == Rcode::ServerFailure,
        rcode_from_code(3) == Rcode::NameError,
        rcode_from_code(4) == Rcode::NotImpl,
        rcode_from_code(5) == Rcode::Refused,
        code > 5 ==> rcode_from_code(code) == Rcode::Reserved,
        rcode_code(Rcode::NoError) == 0,
        rcode_code(Rcode::FormatError) == 1,
        rcode_code(Rcode::ServerFailure) == 2,
        rcode_code(Rcode::NameError) == 3,
        rcode_code(Rcode::NotImpl) == 4,
        rcode_code(Rcode::Refused) == 5,
{
}

} // verus!
