use vstd::prelude::*;

verus! {

/// [`Opcode`] describes the kind of query of the message.
#[derive(Debug, Clone, Copy, PartialEq, Eq, Structural)]
pub enum Opcode {
    Query,
    IQuery,
    Status,
    Reserved,
}

/// The opcode that a code on the wire stands for.
pub open spec fn opcode_from_code(code: u16) -> Opcode {
    if code == 0 {
        Opcode::Query
    } else if code == 1 {
        Opcode::IQuery
    } else if code == 2 {
        Opcode::Status
    } else {
        Opcode::Reserved
    }
}

/// The code of an opcode; `Reserved` has the code 65535.
pub open spec fn opcode_code(op: Opcode) -> u16 {
    match op {
        Opcode::Query => 0,
        Opcode::IQuery => 1,
        Opcode::Status => 2,
        Opcode::Reserved => 65535,
    }
}

impl From<u16> for Opcode {
    fn from(code: u16) -> (r: Self) {
        match code {
            0 => Self::Query,
            1 => Self::IQuery,
            2 => Self::Status,
            _ => Self::Reserved,
        }
    }
}

impl vstd::std_specs::convert::FromSpecImpl<u16> for Opcode {
    open spec fn obeys_from_spec() -> bool {
        true
    }

    open spec fn from_spec(code: u16) -> Self {
        opcode_from_code(code)
    }
}

impl From<Opcode> for u16 {
    fn from(value: Opcode) -> (r: Self) {
        match value {
            Opcode::Query => 0,
            Opcode::IQuery => 1,
            Opcode::Status => 2,
            Opcode::Reserved => 65535,
        }
    }
}

impl vstd::std_specs::convert::FromSpecImpl<Opcode> for u16 {
    open spec fn obeys_from_spec() -> bool {
        true
    }

    open spec fn from_spec(value: Opcode) -> Self {
        opcode_code(value)
    }
}

/// Every opcode survives the trip to its code and back.
pub proof fn lemma_opcode_roundtrip(op: Opcode)
    ensures
        opcode_from_code(opcode_code(op)) == op,
{
}

/// The codes 0 to 2 survive the trip to an opcode and back.
pub proof fn lemma_opcode_code_roundtrip(code: u16)
    requires
        code <= 2,
    ensures
        opcode_code(opcode_from_code(code)) == code,
{
}

/// The name of an opcode, as `{:?}` shows it.
pub open spec fn opcode_text(op: Opcode) -> Seq<char> {
    match op {
        Opcode::Query => "Query"@,
        Opcode::IQuery => "IQuery"@,
        Opcode::Status => "Status"@,
        Opcode::Reserved => "Reserved"@,
    }
}

impl Opcode {
    /// The name of the opcode.
    pub fn to_string(&self) -> (r: String)
        ensures
            r@ == opcode_text(*self),
    {
        match self {
            Opcode::Query => String::from_str("Query"),
            Opcode::IQuery => String::from_str("IQuery"),
            Opcode::Status => String::from_str("Status"),
            Opcode::Reserved => String::from_str("Reserved"),
        }
    }
}

/// The OPCODE values of RFC 1035, section 4.1.1: 0 is a standard query, 1
/// an inverse query and 2 a server status request, each opcode is written as
/// its own value, and every other code is reserved.
pub proof fn lemma_opcode_table(code: u16)
    ensures
        opcode_from_code(0) == Opcode::Query,
        opcode_from_code(1) == Opcode::IQuery,
        opcode_from_code(2) == Opcode::Status,
        code > 2 ==> opcode_from_code(code) == Opcode::Reserved,
        opcode_code(Opcode::Query) == 0,
        opcode_code(Opcode::IQuery) == 1,
        opcode_code(Opcode::Status) == 2,
{
}

} // verus!
