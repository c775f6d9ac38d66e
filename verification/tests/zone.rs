use portal::types::rr::{Class, RData, Type};
use portal::zone::{Zone, ZoneError, ZoneParseState};

const HINTS: &str = "; root hints\n\
;\n\
.                        3600000      NS    A.ROOT-SERVERS.NET.\n\
A.ROOT-SERVERS.NET.      3600000      A     198.41.0.4\n\
A.ROOT-SERVERS.NET.      3600000      AAAA  2001:503:ba3e::2:30\n\
;\n\
.                        3600000      NS    B.ROOT-SERVERS.NET.\n\
B.ROOT-SERVERS.NET.      3600000      A     170.247.170.2\n\
; End of file";

fn parse_error(text: &str) -> String {
    match Zone::from_str(text) {
        Err(ZoneError::ParseError(m)) => m,
        _ => panic!("expected a parse error"),
    }
}

#[test]
fn zone_from_root_hints_text() {
    let zone = Zone::from_str(HINTS).unwrap();
    let records = zone.records();
    assert_eq!(records.len(), 5);

    let ns = &records[0];
    assert_eq!(ns.header().name().as_dotted_string(), ".");
    assert_eq!(*ns.header().ty(), Type::NS);
    assert_eq!(*ns.header().class(), Class::IN);
    assert_eq!(ns.header().ttl(), 3600000);
    match ns.rdata() {
        RData::NS(n) => assert_eq!(n.as_dotted_string(), "a.root-servers.net."),
        _ => panic!("expected NS data"),
    }
    // a.root-servers.net. takes 20 octets on the wire
    assert_eq!(ns.header().rdlen(), 20);

    let a = &records[1];
    assert_eq!(a.header().name().as_dotted_string(), "a.root-servers.net.");
    assert_eq!(*a.header().ty(), Type::A);
    assert_eq!(a.header().rdlen(), 4);
    match a.rdata() {
        RData::A(addr) => assert_eq!(*addr, [198, 41, 0, 4]),
        _ => panic!("expected A data"),
    }

    let aaaa = &records[2];
    assert_eq!(*aaaa.header().ty(), Type::AAAA);
    assert_eq!(aaaa.header().rdlen(), 16);
    match aaaa.rdata() {
        RData::AAAA(addr) => assert_eq!(
            *addr,
            [0x20, 0x01, 0x05, 0x03, 0xba, 0x3e, 0, 0, 0, 0, 0, 0, 0, 0x02, 0, 0x30]
        ),
        _ => panic!("expected AAAA data"),
    }

    match records[4].rdata() {
        RData::A(addr) => assert_eq!(*addr, [170, 247, 170, 2]),
        _ => panic!("expected A data"),
    }
}

#[test]
fn zone_from_text_without_records() {
    let text = "; root hints\n\n$ORIGIN .\n.   3600000 NS A.ROOT-SERVERS.NET.\n";
    let zone = Zone::from_str(text).unwrap();
    assert_eq!(zone.records().len(), 1);
    assert_eq!(*zone.records()[0].header().ty(), Type::NS);
}

#[test]
fn zone_from_empty_text() {
    assert_eq!(Zone::from_str("").unwrap().records().len(), 0);
    assert_eq!(Zone::from_str("\n\n;only comments\n").unwrap().records().len(), 0);
}

#[test]
fn zone_relative_names_and_origin() {
    let text = "$ORIGIN example.com.\n@ 300 IN NS ns1.example.com.\nwww IN 120 A 10.0.0.1\n";
    let zone = Zone::from_str(text).unwrap();
    let records = zone.records();
    assert_eq!(records.len(), 2);
    assert_eq!(records[0].header().name().as_dotted_string(), "example.com.");
    assert_eq!(records[0].header().ttl(), 300);
    assert_eq!(records[1].header().name().as_dotted_string(), "www.example.com.");
    assert_eq!(records[1].header().ttl(), 120);
    assert_eq!(*records[1].header().class(), Class::IN);
}

#[test]
fn zone_indented_line_keeps_owner_and_ttl() {
    let text = "host.example. 600 A 192.0.2.1\n   AAAA ::1\n";
    let zone = Zone::from_str(text).unwrap();
    let records = zone.records();
    assert_eq!(records.len(), 2);
    assert_eq!(records[1].header().name().as_dotted_string(), "host.example.");
    assert_eq!(records[1].header().ttl(), 600);
    assert_eq!(*records[1].header().ty(), Type::AAAA);
}

#[test]
fn zone_class_before_ttl_and_case() {
    let text = "Host.Example. ch 42 a 192.0.2.7\n";
    let zone = Zone::from_str(text).unwrap();
    let r = &zone.records()[0];
    assert_eq!(r.header().name().as_dotted_string(), "host.example.");
    assert_eq!(*r.header().class(), Class::CH);
    assert_eq!(r.header().ttl(), 42);
    assert_eq!(*r.header().ty(), Type::A);
}

#[test]
fn zone_errors() {
    assert_eq!(parse_error("host. 60 IN"), "Missing record type");
    assert_eq!(parse_error("host. 60 IN A"), "Missing record data");
    assert_eq!(parse_error("host. 60 IN MX 10"), "Unsupported record type MX");
    assert_eq!(parse_error("  60 IN A 192.0.2.1"), "Record without owner");
    assert_eq!(parse_error("@ 60 IN A 192.0.2.1"), "No origin for @");
    assert_eq!(parse_error("$ORIGIN"), "Missing origin name");
    assert!(parse_error("host. 60 IN A 300.0.0.1").starts_with("Error while parsing A record data: "));
}

#[test]
fn zone_stops_at_first_bad_line() {
    let text = "a. 1 A 192.0.2.1\nb. 1 NOPE x\nc. 1 A 192.0.2.3\n";
    assert!(Zone::from_str(text).is_err());
}

#[test]
fn zone_parse_state_default() {
    assert!(matches!(ZoneParseState::default(), ZoneParseState::NewLine));
}

#[test]
fn zone_crlf_lines() {
    let text = "; hints\r\n.  3600000  NS  A.ROOT-SERVERS.NET.\r\nA.ROOT-SERVERS.NET.  3600000  A  198.41.0.4\r\n";
    let zone = Zone::from_str(text).unwrap();
    assert_eq!(zone.records().len(), 2);
    match zone.records()[0].rdata() {
        RData::NS(n) => assert_eq!(n.as_dotted_string(), "a.root-servers.net."),
        _ => panic!("expected NS data"),
    }
}
