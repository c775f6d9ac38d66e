use portal::errors::{BufferError, ProtocolError};
use portal::packing::{PackBuffer, UnpackBuffer};
use portal::types::dns::{Header, Message, MessageError, Name, Question, QuestionError};
use portal::types::opcode::Opcode;
use portal::types::rcode::Rcode;
use portal::types::rr::classes::Class;
use portal::types::rr::rdata::{RData, RDataError};
use portal::types::rr::record::{Record, RecordError};
use portal::types::rr::rheader::{RHeader, RHeaderError};
use portal::types::rr::types::Type;

/// A query for the A records of www.example.com, with recursion desired.
fn query_bytes() -> Vec<u8> {
    vec![
        0x12, 0x34, 0x01, 0x00, 0x00, 0x01, 0x00, 0x00, 0x00, 0x00, 0x00, 0x00, // header
        3, b'w', b'w', b'w', 7, b'e', b'x', b'a', b'm', b'p', b'l', b'e', 3, b'c', b'o', b'm', 0,
        0x00, 0x01, 0x00, 0x01,
    ]
}

/// The answer to [`query_bytes`]: one A record, whose owner name is a
/// compression pointer to the question name.
fn response_bytes() -> Vec<u8> {
    let mut b = vec![
        0x12, 0x34, 0x81, 0x80, 0x00, 0x01, 0x00, 0x01, 0x00, 0x00, 0x00, 0x00, // header
        3, b'w', b'w', b'w', 7, b'e', b'x', b'a', b'm', b'p', b'l', b'e', 3, b'c', b'o', b'm', 0,
        0x00, 0x01, 0x00, 0x01,
    ];
    b.extend_from_slice(&[0xC0, 0x0C, 0x00, 0x01, 0x00, 0x01, 0x00, 0x00, 0x0E, 0x10, 0x00, 0x04]);
    b.extend_from_slice(&[93, 184, 216, 34]);
    b
}

fn read_message(bytes: Vec<u8>) -> Result<Message, MessageError> {
    let mut buf = UnpackBuffer::new(bytes);
    let header = Header::read(&mut buf).unwrap();
    Message::read(&mut buf, header)
}

#[test]
fn header_read_query_flags() {
    let mut buf = UnpackBuffer::new(query_bytes());
    let h = Header::read(&mut buf).unwrap();
    assert_eq!(h.id, 0x1234);
    assert!(h.is_query);
    assert_eq!(h.opcode, Opcode::Query);
    assert!(!h.authoritative);
    assert!(!h.truncated);
    assert!(h.rec_des);
    assert!(!h.rec_avail);
    assert_eq!(h.rcode, Rcode::NoError);
    assert_eq!(h.qdcount, 1);
    assert_eq!(h.ancount, 0);
    assert_eq!(buf.offset(), 12);
}

#[test]
fn header_read_response_flags() {
    let mut buf = UnpackBuffer::new(vec![0xAB, 0xCD, 0x84, 0x03, 0, 0, 0, 0, 0, 0, 0, 0]);
    let h = Header::read(&mut buf).unwrap();
    assert_eq!(h.id, 0xABCD);
    assert!(!h.is_query);
    assert!(h.authoritative);
    assert!(!h.rec_des);
    assert_eq!(h.rcode, Rcode::NameError);
}

#[test]
fn header_read_too_short() {
    let mut buf = UnpackBuffer::new(vec![0x12, 0x34, 0x01]);
    assert_eq!(Header::read(&mut buf), Err(BufferError::BufferTooShort));
}

#[test]
fn header_write_read_roundtrip() {
    let mut h = Header::new(7);
    h.is_query = false;
    h.opcode = Opcode::Status;
    h.authoritative = true;
    h.truncated = true;
    h.rec_avail = true;
    h.rcode = Rcode::Refused;
    h.qdcount = 1;
    h.ancount = 2;
    h.nscount = 3;
    h.arcount = 4;
    let mut out = PackBuffer::new();
    assert_eq!(h.write(&mut out), 12);
    let mut buf = UnpackBuffer::new(out.into_bytes());
    assert_eq!(Header::read(&mut buf), Ok(h));
}

#[test]
fn header_new_defaults() {
    let h = Header::new(99);
    assert_eq!(h.id, 99);
    assert!(h.is_query);
    assert!(h.rec_des);
    assert_eq!(h.opcode, Opcode::Query);
    assert_eq!(h.qdcount, 0);
}

#[test]
fn message_read_query() {
    let m = read_message(query_bytes()).unwrap();
    assert_eq!(m.qdcount(), 1);
    assert_eq!(m.questions().len(), 1);
    let q = m.question().unwrap();
    assert_eq!(q.name, Name::try_from("www.example.com").unwrap());
    assert_eq!(q.ty, Type::A);
    assert_eq!(q.class, Class::IN);
    assert_eq!(q.to_string(), String::from("www.example.com.\tIN\tA"));
    assert_eq!(m.size(), 12 + 17 + 4);
}

#[test]
fn message_write_gives_back_the_octets() {
    let m = read_message(query_bytes()).unwrap();
    let mut out = PackBuffer::new();
    assert_eq!(m.write(&mut out), Ok(33));
    assert_eq!(out.into_bytes(), query_bytes());
}

#[test]
fn message_read_response_with_pointer() {
    let m = read_message(response_bytes()).unwrap();
    assert_eq!(m.ancount(), 1);
    let r = &m.answers()[0];
    assert_eq!(*r.header().name(), Name::try_from("www.example.com").unwrap());
    assert_eq!(*r.header().ty(), Type::A);
    assert_eq!(r.header().ttl(), 3600);
    assert_eq!(r.header().rdlen(), 4);
    assert!(matches!(r.rdata(), RData::A(a) if *a == [93, 184, 216, 34]));
    assert!(!m.is_soa());
    assert!(!m.is_edns());
}

#[test]
fn message_write_read_roundtrip() {
    let m = read_message(response_bytes()).unwrap();
    let mut out = PackBuffer::new();
    let n = m.write(&mut out).unwrap();
    let bytes = out.into_bytes();
    assert_eq!(n, bytes.len());
    // The owner name is written in full, without compression.
    assert_eq!(bytes.len(), response_bytes().len() + 15);
    let again = read_message(bytes).unwrap();
    assert_eq!(again.header(), m.header());
    assert_eq!(again.questions().len(), 1);
    assert_eq!(again.answers().len(), 1);
    let r = &again.answers()[0];
    assert_eq!(*r.header().name(), Name::try_from("www.example.com").unwrap());
    assert!(matches!(r.rdata(), RData::A(a) if *a == [93, 184, 216, 34]));
}

#[test]
fn message_read_truncated_question() {
    let mut bytes = query_bytes();
    bytes.truncate(20);
    assert_eq!(
        read_message(bytes).err(),
        Some(MessageError::QuestionError(QuestionError::NameError(
            ProtocolError::DomainNameLabelTooLong
        )))
    );
}

#[test]
fn message_read_missing_answer() {
    let mut bytes = query_bytes();
    bytes[7] = 1; // ANCOUNT 1, but no record follows
    assert!(matches!(read_message(bytes), Err(MessageError::RecordError(_))));
}

#[test]
fn message_add_sections_keep_counts() {
    let mut m = Message::new_with_header(Header::new(1));
    let name = Name::try_from("example.org").unwrap();
    let q = Question { name: name.clone(), ty: Type::MX, class: Class::IN };
    m.add_question(q);
    m.add_answer(Record::new());
    m.add_authority(Record::new());
    m.add_additional(Record::new());
    m.add_additional(Record::new());
    assert_eq!(m.qdcount(), 1);
    assert_eq!(m.ancount(), 1);
    assert_eq!(m.nscount(), 1);
    assert_eq!(m.arcount(), 2);
    let mut more = vec![Record::new(), Record::new()];
    m.add_answers(&mut more);
    assert_eq!(m.ancount(), 3);
    assert_eq!(m.answers().len(), 3);
    assert!(more.is_empty());
}

#[test]
fn message_flags_setters() {
    let mut m = Message::new_with_header(Header::new(5));
    m.set_is_response(true);
    m.set_rec_avail(true);
    m.set_rcode(Rcode::ServerFailure);
    let h = m.header();
    assert!(!h.is_query);
    assert!(h.rec_avail);
    assert_eq!(h.rcode, Rcode::ServerFailure);
}

#[test]
fn question_read_write() {
    let mut buf = UnpackBuffer::new(query_bytes());
    Header::read(&mut buf).unwrap();
    let q = Question::read(&mut buf).unwrap();
    assert_eq!(q.size(), 21);
    let mut out = PackBuffer::new();
    assert_eq!(q.write(&mut out), Ok(21));
    assert_eq!(out.into_bytes(), query_bytes()[12..].to_vec());
}

#[test]
fn rheader_read_and_text() {
    let bytes = vec![
        3, b'f', b'o', b'o', 0, 0x00, 0x10, 0x00, 0x01, 0x00, 0x00, 0x00, 0x3C, 0x00, 0x05,
    ];
    let mut buf = UnpackBuffer::new(bytes.clone());
    let h = RHeader::read(&mut buf).unwrap();
    assert_eq!(*h.ty(), Type::TXT);
    assert_eq!(*h.class(), Class::IN);
    assert_eq!(h.ttl(), 60);
    assert_eq!(h.rdlen(), 5);
    assert_eq!(h.size(), 15);
    assert_eq!(h.to_string(), String::from("N: foo. T: TXT C: IN TTL: 60 (5)"));
    let mut out = PackBuffer::new();
    assert_eq!(h.write(&mut out), Ok(15));
    assert_eq!(out.into_bytes(), bytes);
}

#[test]
fn rheader_read_truncated() {
    let mut buf = UnpackBuffer::new(vec![0, 0x00, 0x01, 0x00]);
    assert_eq!(
        RHeader::read(&mut buf).err(),
        Some(RHeaderError::BufferError(BufferError::BufferTooShort))
    );
}

#[test]
fn record_read_unsupported_type() {
    // An owner name, TYPE ANY (255), CLASS IN, TTL 0, RDLENGTH 0.
    let bytes = vec![0, 0x00, 0xFF, 0x00, 0x01, 0, 0, 0, 0, 0, 0];
    let mut buf = UnpackBuffer::new(bytes);
    assert_eq!(
        Record::read(&mut buf).err(),
        Some(RecordError::RDataError(RDataError::UnsupportedType(Type::ANY)))
    );
}

#[test]
fn record_read_wrong_rdlen() {
    // An A record whose RDLENGTH says 5.
    let bytes = vec![0, 0x00, 0x01, 0x00, 0x01, 0, 0, 0, 0, 0, 5, 1, 2, 3, 4, 5];
    let mut buf = UnpackBuffer::new(bytes);
    assert_eq!(
        Record::read(&mut buf).err(),
        Some(RecordError::RDataError(RDataError::InvalidRDataLen { expected: 5, got: 4 }))
    );
}

#[test]
fn record_write_read_roundtrip() {
    let mut header = RHeader::new();
    header.set_name(Name::try_from("ns.example.net").unwrap());
    header.set_ty(Type::NS);
    header.set_ttl(86400);
    header.set_rdlen(20);
    let mut r = Record::new_with_header(header);
    r.set_rdata(RData::try_from_str(Type::NS, "a.iana-servers.net").unwrap());
    assert_eq!(r.size(), 46);
    let mut out = PackBuffer::new();
    let n = r.write(&mut out).unwrap();
    assert_eq!(n, 16 + 10 + 20);
    let mut buf = UnpackBuffer::new(out.into_bytes());
    let back = Record::read(&mut buf).unwrap();
    assert_eq!(*back.header().name(), Name::try_from("ns.example.net").unwrap());
    assert_eq!(back.header().ttl(), 86400);
    assert!(matches!(back.rdata(), RData::NS(n) if *n == Name::try_from("a.iana-servers.net").unwrap()));
    assert_eq!(buf.offset(), 46);
}

#[test]
fn message_size_counts_every_question() {
    let mut m = Message::new_with_header(Header::new(3));
    m.add_question(Question { name: Name::try_from("a.b").unwrap(), ty: Type::A, class: Class::IN });
    m.add_question(Question { name: Name::try_from("example.com").unwrap(), ty: Type::MX, class: Class::IN });
    assert_eq!(m.size(), 12 + (5 + 4) + (13 + 4));
    let empty = Message::new_with_header(Header::new(4));
    assert_eq!(empty.size(), 12);
}
