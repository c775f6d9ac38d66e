use portal::errors::{BufferError, ProtocolError};
use portal::packing::{PackBuffer, UnpackBuffer};
use portal::types::dns::Name;
use portal::types::rr::rdata::{RData, RDataError, HINFO, MINFO, MX, NULL, SOA, TXT};
use portal::types::rr::record::Record;
use portal::types::rr::rheader::RHeader;
use portal::types::rr::types::Type;

fn header(ty: Type, rdlen: u16) -> RHeader {
    let mut h = RHeader::new();
    h.set_ty(ty);
    h.set_rdlen(rdlen);
    h
}

fn read_rdata(ty: Type, bytes: Vec<u8>) -> Result<RData, RDataError> {
    let h = header(ty, bytes.len() as u16);
    let mut buf = UnpackBuffer::new(bytes);
    RData::read(&mut buf, &h)
}

fn written(d: &RData) -> Vec<u8> {
    let mut out = PackBuffer::new();
    d.write(&mut out).unwrap();
    out.into_bytes()
}

fn soa_bytes() -> Vec<u8> {
    let mut b = vec![2, b'n', b's', 0, 4, b'h', b'o', b's', b't', 0];
    for v in [2024u32, 7200, 3600, 1209600, 300] {
        b.extend_from_slice(&v.to_be_bytes());
    }
    b
}

#[test]
fn rdata_a_read_text_write() {
    let d = read_rdata(Type::A, vec![10, 2, 0, 52]).unwrap();
    assert!(matches!(d, RData::A(a) if a == [10, 2, 0, 52]));
    assert_eq!(d.to_string(), String::from("10.2.0.52"));
    assert_eq!(d.len(), 4);
    assert_eq!(written(&d), vec![10, 2, 0, 52]);
}

#[test]
fn rdata_aaaa_read_text() {
    let mut bytes = vec![0x20, 0x01, 0x0d, 0xb8];
    bytes.extend_from_slice(&[0; 11]);
    bytes.push(1);
    let d = read_rdata(Type::AAAA, bytes.clone()).unwrap();
    assert_eq!(d.to_string(), String::from("2001:db8::1"));
    assert_eq!(d.len(), 16);
    assert_eq!(written(&d), bytes);
}

#[test]
fn rdata_from_text() {
    let d = RData::try_from_str(Type::A, "192.0.5.6").unwrap();
    assert!(matches!(d, RData::A(a) if a == [192, 0, 5, 6]));
    let d = RData::try_from_str(Type::AAAA, "::1").unwrap();
    assert!(matches!(d, RData::AAAA(a) if a[15] == 1 && a[..15].iter().all(|b| *b == 0)));
    let d = RData::try_from_str(Type::CNAME, "Alias.Example.COM").unwrap();
    assert!(matches!(d, RData::CNAME(n) if n == Name::try_from("alias.example.com").unwrap()));
    let e = RData::try_from_str(Type::A, "10.2.0").unwrap_err();
    assert_eq!(e.to_string(), String::from("Error while parsing A record data: invalid IPv4 address syntax"));
    let long = "a".repeat(64);
    let e = RData::try_from_str(Type::NS, long.as_str()).unwrap_err();
    assert_eq!(
        e.to_string(),
        String::from("Error while parsing NS record data: Domain name label too long")
    );
    // Parsing a label stops at the first octet that a label cannot hold.
    let d = RData::try_from_str(Type::NS, "bad_host.net").unwrap();
    assert!(matches!(d, RData::NS(n) if n == Name::try_from("bad.net").unwrap()));
}

#[test]
fn rdata_soa_read_text_write() {
    let d = read_rdata(Type::SOA, soa_bytes()).unwrap();
    assert_eq!(
        d.to_string(),
        String::from(
            "SOA ns. host. (\n  2024; serial\n  7200; refresh\n  3600; retry\n  1209600; expire\n  300; minimum\n)"
        )
    );
    assert_eq!(d.len(), soa_bytes().len());
    assert_eq!(written(&d), soa_bytes());
    if let RData::SOA(soa) = &d {
        assert_eq!(*soa.get_mname(), Name::try_from("ns").unwrap());
        assert_eq!(soa.len(), 30);
    } else {
        panic!("not SOA data");
    }
    let mut buf = UnpackBuffer::new(soa_bytes());
    assert!(SOA::read(&mut buf).is_ok());
}

#[test]
fn rdata_soa_too_short() {
    let mut bytes = soa_bytes();
    bytes.truncate(20);
    assert_eq!(read_rdata(Type::SOA, bytes).err(), Some(RDataError::BufferError(BufferError::BufferTooShort)));
}

#[test]
fn rdata_mx_read_text_write() {
    let bytes = vec![0, 10, 4, b'm', b'a', b'i', b'l', 0];
    let d = read_rdata(Type::MX, bytes.clone()).unwrap();
    assert_eq!(d.to_string(), String::from("PREF: 10 EX: mail."));
    assert_eq!(d.len(), 8);
    assert_eq!(written(&d), bytes);
    let mut buf = UnpackBuffer::new(bytes);
    let mx = MX::read(&mut buf).unwrap();
    assert_eq!(mx.len(), 8);
}

#[test]
fn rdata_minfo_read_text() {
    let bytes = vec![1, b'a', 0, 1, b'b', 0];
    let d = read_rdata(Type::MINFO, bytes.clone()).unwrap();
    assert_eq!(d.to_string(), String::from("RMAILBOX: a. EMAILBOX: b."));
    assert_eq!(written(&d), bytes.clone());
    let mut buf = UnpackBuffer::new(bytes);
    assert_eq!(MINFO::read(&mut buf).unwrap().len(), 6);
}

#[test]
fn rdata_hinfo_read_text() {
    let bytes = vec![2, 120, 56, 5, 108, 105, 110, 117, 120];
    let d = read_rdata(Type::HINFO, bytes.clone()).unwrap();
    assert_eq!(d.to_string(), String::from("CPU: [120, 56] OS: [108, 105, 110, 117, 120]"));
    assert_eq!(d.len(), 9);
    assert_eq!(written(&d), bytes.clone());
    let mut buf = UnpackBuffer::new(bytes);
    assert_eq!(HINFO::read(&mut buf).unwrap().to_string(), d.to_string());
}

#[test]
fn rdata_null_read_text() {
    let d = read_rdata(Type::NULL, vec![1, 2, 3]).unwrap();
    assert_eq!(d.to_string(), String::from("[1, 2, 3]"));
    assert_eq!(d.len(), 3);
    assert_eq!(written(&d), vec![1, 2, 3]);
    let d = read_rdata(Type::NULL, vec![]).unwrap();
    assert_eq!(d.to_string(), String::from("[]"));
    assert_eq!(NULL::new().to_string(), String::from("[]"));
}

#[test]
fn rdata_txt_read_text() {
    let bytes = vec![2, b'h', b'i', 0, 1, b'x'];
    let d = read_rdata(Type::TXT, bytes.clone()).unwrap();
    assert_eq!(d.to_string(), String::from("  [104, 105]  []  [120]"));
    assert_eq!(d.len(), 6);
    assert_eq!(written(&d), bytes.clone());
    let mut buf = UnpackBuffer::new(bytes);
    let t = TXT::read(&mut buf, 6).unwrap();
    assert_eq!(t.size(), 6);
}

#[test]
fn rdata_txt_string_too_long_for_rdlen() {
    // RDLENGTH says 2, the string takes 3 octets.
    let h = header(Type::TXT, 2);
    let mut buf = UnpackBuffer::new(vec![2, b'h', b'i']);
    assert_eq!(
        RData::read(&mut buf, &h).err(),
        Some(RDataError::InvalidRDataLen { expected: 2, got: 3 })
    );
}

#[test]
fn rdata_name_types() {
    let bytes = vec![3, b'f', b'o', b'o', 0];
    for ty in [Type::NS, Type::CNAME, Type::PTR] {
        let d = read_rdata(ty, bytes.clone()).unwrap();
        assert_eq!(d.to_string(), String::from("foo."));
        assert_eq!(d.len(), 5);
        assert_eq!(written(&d), bytes);
    }
    assert_eq!(
        read_rdata(Type::NS, vec![3, b'f', b'o']).err(),
        Some(RDataError::NameError(ProtocolError::DomainNameLabelTooLong))
    );
}

#[test]
fn rdata_default_is_empty_null() {
    let d = RData::default();
    assert!(matches!(d, RData::NULL(_)));
    assert_eq!(written(&d), Vec::<u8>::new());
}

#[test]
fn record_text() {
    let mut h = header(Type::MX, 8);
    h.set_name(Name::try_from("example.com").unwrap());
    h.set_ttl(300);
    let mut buf = UnpackBuffer::new(vec![0, 10, 4, b'm', b'a', b'i', b'l', 0]);
    let d = RData::read(&mut buf, &h).unwrap();
    let mut r = Record::new_with_header(h);
    r.set_rdata(d);
    assert_eq!(r.to_string(), String::from("example.com.\t300\tIN\tMX\tPREF: 10 EX: mail."));
    assert_eq!(r.size(), 10 + 13 + 8);
    assert!(!r.is_soa());
    assert!(!r.is_edns());
}

#[test]
fn record_normalize_rdlen() {
    let mut r = Record::new();
    r.set_rdata(RData::try_from_str(Type::A, "1.2.3.4").unwrap());
    assert_eq!(r.header().rdlen(), 0);
    // The record length is stored: header and data.
    r.normalize_rdlen();
    assert_eq!(r.header().rdlen(), 15);
    r.set_header_name(Name::try_from("a.b").unwrap());
    assert_eq!(*r.header().name(), Name::try_from("a.b").unwrap());
}

#[test]
fn rdata_ipv4_text_is_dot_decimal() {
    assert!(matches!(RData::try_from_str(Type::A, "10.255.0.4"), Ok(RData::A([10, 255, 0, 4]))));
    assert!(matches!(RData::try_from_str(Type::A, "0.0.0.0"), Ok(RData::A([0, 0, 0, 0]))));
    assert!(RData::try_from_str(Type::A, "01.2.3.4").is_err());
    assert!(RData::try_from_str(Type::A, "256.2.3.4").is_err());
    assert!(RData::try_from_str(Type::A, "1.2.3.4.").is_err());
    assert!(RData::try_from_str(Type::A, "1..3.4").is_err());
    assert!(RData::try_from_str(Type::A, "0x1.2.3.4").is_err());
}
