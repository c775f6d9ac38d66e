use portal::types::rr::records::{
    Record, ResourceRecord, A, AAAA, CNAME, HINFO, MB, MD, MF, MG, MINFO, MR, MX, NS, NULL, OPT,
    PTR, TXT,
};
use portal::types::rr::rheader::RHeader;
use portal::types::rr::types::Type;

fn header() -> RHeader {
    let mut h = RHeader::new();
    h.set_ty(Type::A);
    h.set_ttl(60);
    h
}

#[test]
fn legacy_a_record() {
    let r = A::new_with_header(header());
    match r {
        ResourceRecord::A(mut a) => {
            assert_eq!(a.address, [0, 0, 0, 0]);
            assert_eq!(a.len(), 4);
            assert_eq!(a.header().ttl(), 60);
            a.address = [192, 168, 0, 1];
            assert_eq!(a.to_string(), String::from("A <192.168.0.1>"));
        },
        _ => panic!("not an A record"),
    }
}

#[test]
fn legacy_aaaa_record() {
    match AAAA::new_with_header(header()) {
        ResourceRecord::AAAA(mut a) => {
            assert_eq!(a.len(), 16);
            assert_eq!(a.to_string(), String::from("AAAA <::>"));
            a.address[15] = 1;
            assert_eq!(a.to_string(), String::from("AAAA <::1>"));
        },
        _ => panic!("not an AAAA record"),
    }
}

#[test]
fn legacy_name_records_text() {
    match NS::new_with_header(header()) {
        ResourceRecord::NS(mut r) => {
            r.nsdname = String::from("ns1.example.");
            assert_eq!(r.to_string(), String::from("NS <ns1.example.>"));
            assert_eq!(r.len(), 13);
        },
        _ => panic!("not an NS record"),
    }
    match CNAME::new_with_header(header()) {
        ResourceRecord::CNAME(mut r) => {
            r.target = String::from("t");
            assert_eq!(r.to_string(), String::from("CNAME <t>"));
        },
        _ => panic!("not a CNAME record"),
    }
    match PTR::new_with_header(header()) {
        ResourceRecord::PTR(r) => assert_eq!(r.to_string(), String::from("PTR <>")),
        _ => panic!("not a PTR record"),
    }
    match MB::new_with_header(header()) {
        ResourceRecord::MB(r) => assert_eq!(r.to_string(), String::from("MB <>")),
        _ => panic!("not an MB record"),
    }
    match MD::new_with_header(header()) {
        ResourceRecord::MD(r) => assert_eq!(r.to_string(), String::from("MD <>")),
        _ => panic!("not an MD record"),
    }
    match MF::new_with_header(header()) {
        ResourceRecord::MF(r) => assert_eq!(r.to_string(), String::from("MF <>")),
        _ => panic!("not an MF record"),
    }
    match MG::new_with_header(header()) {
        ResourceRecord::MG(r) => assert_eq!(r.to_string(), String::from("MG <>")),
        _ => panic!("not an MG record"),
    }
    match MR::new_with_header(header()) {
        ResourceRecord::MR(r) => assert_eq!(r.to_string(), String::from("MR <>")),
        _ => panic!("not an MR record"),
    }
}

#[test]
fn legacy_data_records_text() {
    match MX::new_with_header(header()) {
        ResourceRecord::MX(mut r) => {
            r.preference = 5;
            r.exchange = String::from("mx.example.");
            assert_eq!(r.to_string(), String::from("MX <PREF: 5 - EX: mx.example.>"));
        },
        _ => panic!("not an MX record"),
    }
    match HINFO::new_with_header(header()) {
        ResourceRecord::HINFO(mut r) => {
            r.cpu = String::from("x86");
            r.os = String::from("linux");
            assert_eq!(r.to_string(), String::from("HINFO <CPU: x86 - OS: linux>"));
        },
        _ => panic!("not an HINFO record"),
    }
    match MINFO::new_with_header(header()) {
        ResourceRecord::MINFO(mut r) => {
            r.rmailbox = String::from("r");
            r.emailbox = String::from("e");
            assert_eq!(r.to_string(), String::from("MINFO <RMAIL: r - EMAIL: e>"));
        },
        _ => panic!("not a MINFO record"),
    }
    match TXT::new_with_header(header()) {
        ResourceRecord::TXT(mut r) => {
            r.data = String::from("hello");
            assert_eq!(r.to_string(), String::from("TXT <hello>"));
        },
        _ => panic!("not a TXT record"),
    }
    match NULL::new_with_header(header()) {
        ResourceRecord::NULL(r) => assert_eq!(r.to_string(), String::from("NULL <>")),
        _ => panic!("not a NULL record"),
    }
    match OPT::new_with_header(header()) {
        ResourceRecord::OPT(r) => assert_eq!(r.to_string(), String::from("OPT")),
        _ => panic!("not an OPT record"),
    }
}
