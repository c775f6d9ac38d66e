use portal::errors::BufferError;
use portal::packing::{PackBuffer, UnpackBuffer};
use portal::types::dns::{Header, Message};
use portal::types::edns::{EdnsHeader, EdnsOption, OptionCode, OptionData, COOKIE};
use portal::types::rr::classes::Class;
use portal::types::rr::rdata::{RData, RDataError, OPT};
use portal::types::rr::rheader::RHeader;
use portal::types::rr::types::Type;

fn opt_header(rdlen: u16) -> RHeader {
    let mut h = RHeader::new();
    h.set_ty(Type::OPT);
    h.set_class(Class::UNKNOWN(4096));
    h.set_rdlen(rdlen);
    h
}

fn cookie_option() -> Vec<u8> {
    vec![0, 10, 0, 8, 1, 2, 3, 4, 5, 6, 7, 8]
}

#[test]
fn option_code_conversions() {
    assert_eq!(OptionCode::from(10), OptionCode::COOKIE);
    assert_eq!(OptionCode::from(3), OptionCode::NSID);
    assert_eq!(OptionCode::from(0), OptionCode::RESERVED(0));
    assert_eq!(OptionCode::from(65100), OptionCode::RESERVEDLOCAL(65100));
    assert_eq!(OptionCode::from(30000), OptionCode::UNASSIGNED(30000));
    assert_eq!(u16::from(OptionCode::COOKIE), 10);
    assert_eq!(u16::from(OptionCode::from(20292)), 20292);
}

#[test]
fn edns_option_cookie_read_write() {
    let mut buf = UnpackBuffer::new(cookie_option());
    let o = EdnsOption::read(&mut buf).unwrap();
    assert_eq!(o.code(), OptionCode::COOKIE);
    assert_eq!(o.len(), 8);
    let mut out = PackBuffer::new();
    assert_eq!(o.write(&mut out), 12);
    assert_eq!(out.into_bytes(), cookie_option());
}

#[test]
fn cookie_with_server_part() {
    let mut buf = UnpackBuffer::new(vec![1, 2, 3, 4, 5, 6, 7, 8, 9, 10]);
    let c = COOKIE::unpack(&mut buf, 10).unwrap();
    let mut out = PackBuffer::new();
    assert_eq!(c.pack(&mut out), 10);
    assert_eq!(out.into_bytes(), vec![1, 2, 3, 4, 5, 6, 7, 8, 9, 10]);
}

#[test]
fn cookie_too_short() {
    let mut buf = UnpackBuffer::new(vec![1, 2, 3, 4]);
    assert_eq!(COOKIE::unpack(&mut buf, 4).err(), Some(RDataError::InvalidOptionLen(4)));
    let mut buf = UnpackBuffer::new(vec![1, 2, 3, 4]);
    assert_eq!(
        COOKIE::unpack(&mut buf, 8).err(),
        Some(RDataError::BufferError(BufferError::BufferTooShort))
    );
}

#[test]
fn option_data_unsupported_code() {
    let mut buf = UnpackBuffer::new(vec![0, 3, 0, 2, 1, 2]);
    assert_eq!(
        EdnsOption::read(&mut buf).err(),
        Some(RDataError::UnsupportedOption(OptionCode::NSID))
    );
    let mut buf = UnpackBuffer::new(vec![1, 2]);
    assert_eq!(
        OptionData::unpack(&mut buf, OptionCode::PADDING, 2).err(),
        Some(RDataError::UnsupportedOption(OptionCode::PADDING))
    );
}

#[test]
fn opt_read_write() {
    let h = opt_header(12);
    let mut buf = UnpackBuffer::new(cookie_option());
    let opt = OPT::read(&mut buf, &h).unwrap();
    let mut out = PackBuffer::new();
    assert_eq!(opt.write(&mut out), 12);
    assert_eq!(out.into_bytes(), cookie_option());
}

#[test]
fn opt_later_option_replaces_earlier() {
    let mut bytes = cookie_option();
    bytes.extend_from_slice(&[0, 10, 0, 8, 9, 9, 9, 9, 9, 9, 9, 9]);
    let h = opt_header(24);
    let mut buf = UnpackBuffer::new(bytes);
    let opt = OPT::read(&mut buf, &h).unwrap();
    let mut out = PackBuffer::new();
    assert_eq!(opt.write(&mut out), 12);
    assert_eq!(out.into_bytes(), vec![0, 10, 0, 8, 9, 9, 9, 9, 9, 9, 9, 9]);
}

#[test]
fn opt_rdata_and_edns_message() {
    let h = opt_header(12);
    let mut buf = UnpackBuffer::new(cookie_option());
    let d = RData::read(&mut buf, &h).unwrap();
    assert!(matches!(d, RData::OPT(_)));
    assert_eq!(
        d.to_string(),
        String::from(
            "OPT { header: EdnsHeader { name: Name { labels: [] }, sender_payload_size: 4096, upper_ext_rcode: 0, version: 0, zero: 0 }, options: {COOKIE: Option { code: COOKIE, data: COOKIE(COOKIE { client: [1, 2, 3, 4, 5, 6, 7, 8], server: None }), len: 8 }} }"
        )
    );
    let mut m = Message::new_with_header(Header::new(1));
    let mut r = portal::types::rr::record::Record::new_with_header(h);
    r.set_rdata(d);
    assert!(r.is_edns());
    m.add_additional(r);
    assert!(m.is_edns());
}

#[test]
fn edns_header_from_record_header() {
    let mut h = opt_header(0);
    // Extended RCODE 1, version 2, and the DO flag set.
    h.set_ttl(0x0102_8000);
    let e = EdnsHeader::from_rheader(&h);
    assert_eq!(
        e.to_string(),
        String::from(
            "EdnsHeader { name: Name { labels: [] }, sender_payload_size: 4096, upper_ext_rcode: 1, version: 2, zero: 32768 }"
        )
    );
}
