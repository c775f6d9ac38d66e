use portal::errors::{BufferError, ProtocolError};
use portal::packing::{PackBuffer, UnpackBuffer};
use portal::types::ip_version::IpVersion;
use portal::types::opcode::Opcode;
use portal::types::rcode::Rcode;
use portal::types::rr::classes::Class;
use portal::types::rr::types::Type;
use portal::utils::{Network, TimeoutResult};

#[test]
fn type_codes_roundtrip() {
    let all = [
        Type::A,
        Type::NS,
        Type::CNAME,
        Type::SOA,
        Type::NULL,
        Type::PTR,
        Type::HINFO,
        Type::MINFO,
        Type::MX,
        Type::TXT,
        Type::AAAA,
        Type::OPT,
        Type::AXFR,
        Type::MAILB,
        Type::MAILA,
        Type::ANY,
    ];
    for t in all {
        assert_eq!(Type::from(u16::from(t)), t);
        assert_eq!(Type::try_from(t.to_string().as_str()), Ok(t));
    }
    assert_eq!(u16::from(Type::A), 1);
    assert_eq!(u16::from(Type::AAAA), 28);
    assert_eq!(u16::from(Type::OPT), 41);
    assert_eq!(u16::from(Type::ANY), 255);
    assert_eq!(Type::from(1234), Type::UNKNOWN(1234));
    assert_eq!(u16::from(Type::UNKNOWN(1234)), 1234);
}

#[test]
fn type_text() {
    assert_eq!(Type::MX.to_string(), String::from("MX"));
    assert_eq!(Type::UNKNOWN(99).to_string(), String::from("UNKNOWN(99)"));
    assert_eq!(Type::try_from("aaaa"), Ok(Type::AAAA));
    assert_eq!(Type::try_from("Cname"), Ok(Type::CNAME));
    assert_eq!(Type::try_from("BOGUS"), Err(ProtocolError::TypeParseError));
    assert_eq!(Type::from_uppercase("txt"), Err(ProtocolError::TypeParseError));
    assert_eq!(Type::from_uppercase("TXT"), Ok(Type::TXT));
}

#[test]
fn type_read_write() {
    let mut out = PackBuffer::new();
    assert_eq!(Type::SOA.write(&mut out), 2);
    assert_eq!(out.into_bytes(), vec![0, 6]);
    let mut buf = UnpackBuffer::new(vec![0, 15, 1]);
    assert_eq!(Type::read(&mut buf), Ok(Type::MX));
    assert_eq!(Type::read(&mut buf), Err(BufferError::BufferTooShort));
}

#[test]
fn class_codes_and_text() {
    for c in [Class::IN, Class::CS, Class::CH, Class::HS, Class::ANY] {
        assert_eq!(Class::from(u16::from(c)), c);
        assert_eq!(Class::try_from(c.to_string().as_str()), Ok(c));
    }
    assert_eq!(u16::from(Class::IN), 1);
    assert_eq!(u16::from(Class::ANY), 255);
    assert_eq!(Class::from(4096), Class::UNKNOWN(4096));
    assert_eq!(Class::UNKNOWN(4096).to_string(), String::from("UNKNOWN(4096)"));
    assert_eq!(Class::try_from("in"), Ok(Class::IN));
    assert_eq!(Class::try_from("XX"), Err(ProtocolError::ClassParseError));
    let mut out = PackBuffer::new();
    assert_eq!(Class::CH.write(&mut out), 2);
    assert_eq!(out.into_bytes(), vec![0, 3]);
    let mut buf = UnpackBuffer::new(vec![0, 1]);
    assert_eq!(Class::read(&mut buf), Ok(Class::IN));
}

#[test]
fn opcode_codes() {
    assert_eq!(Opcode::from(0), Opcode::Query);
    assert_eq!(Opcode::from(1), Opcode::IQuery);
    assert_eq!(Opcode::from(2), Opcode::Status);
    assert_eq!(Opcode::from(3), Opcode::Reserved);
    assert_eq!(Opcode::from(200), Opcode::Reserved);
    for o in [Opcode::Query, Opcode::IQuery, Opcode::Status, Opcode::Reserved] {
        assert_eq!(Opcode::from(u16::from(o)), o);
    }
}

#[test]
fn rcode_codes_and_text() {
    let all = [
        Rcode::NoError,
        Rcode::FormatError,
        Rcode::ServerFailure,
        Rcode::NameError,
        Rcode::NotImpl,
        Rcode::Refused,
        Rcode::Reserved,
    ];
    for r in all {
        assert_eq!(Rcode::from(u16::from(r)), r);
    }
    assert_eq!(Rcode::from(3), Rcode::NameError);
    assert_eq!(Rcode::from(9), Rcode::Reserved);
    assert_eq!(Rcode::NameError.to_string(), String::from("NAMEERROR"));
    assert_eq!(Rcode::Refused.to_string(), String::from("REFUSED"));
}

#[test]
fn ip_version_from_flags() {
    assert_eq!(IpVersion::from((false, false)), IpVersion::Both);
    assert_eq!(IpVersion::from((true, false)), IpVersion::V4);
    assert_eq!(IpVersion::from((false, true)), IpVersion::V6);
    assert_eq!(IpVersion::from((true, true)), IpVersion::V4);
    assert_eq!(IpVersion::default(), IpVersion::Both);
}

#[test]
fn network_from_text() {
    assert_eq!(Network::from_str("tcp").unwrap(), Network::Tcp);
    assert_eq!(Network::from_str("UDP6").unwrap(), Network::Udp);
    assert_eq!(Network::from_str("Tcp4").unwrap(), Network::Tcp);
    let e = Network::from_str("sctp").unwrap_err();
    assert_eq!(e.input(), &String::from("sctp"));
    assert_eq!(e.to_string(), String::from("Invalid network sctp, expected tcp/udp"));
}

#[test]
fn timeout_result_from_outcome() {
    let r: TimeoutResult<u8, String> = TimeoutResult::from_outcome(None);
    assert!(matches!(r, TimeoutResult::Timeout));
    let r: TimeoutResult<u8, String> = TimeoutResult::from_outcome(Some(Ok(3)));
    assert!(matches!(r, TimeoutResult::Success(3)));
    let r: TimeoutResult<u8, String> = TimeoutResult::from_outcome(Some(Err(String::from("x"))));
    assert!(matches!(r, TimeoutResult::Error(e) if e == "x"));
}

#[test]
fn protocol_error_text() {
    assert_eq!(ProtocolError::PointerLoop.to_string(), String::from("Compression pointer loop"));
    assert_eq!(
        ProtocolError::InvalidLabelLenOrPointer(130).to_string(),
        String::from("Invalid label length or pointer octet 130")
    );
}

#[test]
fn network_error_new_keeps_input() {
    let e = portal::utils::NetworkError::new(String::from("sctp"));
    assert_eq!(e.input(), "sctp");
    assert_eq!(e.to_string(), "Invalid network sctp, expected tcp/udp");
}
