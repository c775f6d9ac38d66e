use portal::errors::ProtocolError;
use portal::packing::{PackBuffer, UnpackBuffer};
use portal::types::dns::{Label, Name};

#[test]
fn test_name_iter() {
    let n = Name::try_from("www.example.com").unwrap();
    let mut it = n.iter();
    let mut s = String::new();
    while let Some(l) = it.next() {
        let mut label = l.to_string();
        label.push('.');
        s.push_str(&label);
    }
    assert_eq!(s, String::from("www.example.com."))
}

#[test]
fn test_name_iter_rev() {
    let n = Name::try_from("www.example.com").unwrap();
    let mut it = n.iter();
    let mut s = String::new();
    while let Some(l) = it.next_back() {
        let mut label = String::from(".");
        label.push_str(l.to_string().as_str());
        s.push_str(&label);
    }
    assert_eq!(s, String::from(".com.example.www"))
}

#[test]
fn test_name_fragments() {
    let n = Name::try_from("www.example.com").unwrap();
    let f = n.fragments();

    assert_eq!(f.len(), 3);
    assert_eq!(
        f,
        vec![
            Name::try_from("com").unwrap(),
            Name::try_from("example.com").unwrap(),
            Name::try_from("www.example.com").unwrap()
        ]
    )
}

#[test]
fn name_num_labels() {
    let n = Name::try_from("www.example.com").unwrap();
    assert_eq!(n.num_labels(), 3);
    assert_eq!(n.num_labels_root(), 4);
    let n = Name::try_from("www.example.com.").unwrap();
    assert_eq!(n.num_labels(), 3);
    assert_eq!(n.num_labels_root(), 4);
}

#[test]
fn name_len_and_root() {
    let n = Name::try_from("www.example.com").unwrap();
    assert_eq!(n.len(), 17);
    assert!(!n.is_root());
    let root = Name::try_from(".").unwrap();
    assert!(root.is_root());
    assert_eq!(root.len(), 1);
    assert_eq!(root.as_dotted_string(), String::from("."));
}

#[test]
fn name_dotted_string() {
    let n = Name::try_from("www.example.com").unwrap();
    assert_eq!(n.as_dotted_string(), String::from("www.example.com."));
    let n = Name::try_from("WWW.Example.COM").unwrap();
    assert_eq!(n.as_dotted_string(), String::from("www.example.com."));
}

#[test]
fn name_add_label() {
    let mut n = Name::try_from("www.example").unwrap();
    n.add_label(Label::try_from("com".as_bytes()).unwrap()).unwrap();
    assert_eq!(n.as_dotted_string(), String::from("www.example.com."));
}

#[test]
fn name_add_label_too_long() {
    let label = Label::try_from([b'a'; 63].as_slice()).unwrap();
    let mut n = Name::default();
    // 4 labels of 63 octets take 4 * 64 + 1 = 257 octets: the fourth is refused.
    for _ in 0..3 {
        n.add_label(label.clone()).unwrap();
    }
    assert_eq!(n.len(), 193);
    assert_eq!(n.add_label(label.clone()), Err(ProtocolError::DomainNameTooLong));
    assert_eq!(n.num_labels(), 3);
}

#[test]
fn name_from_text_errors() {
    assert_eq!(
        Name::try_from_string(String::from("ex\u{e4}mple.com")),
        Err(ProtocolError::InvalidOmainNameLabelByte)
    );
    let long = "a".repeat(64);
    assert_eq!(Name::try_from(long.as_str()), Err(ProtocolError::DomainNameLabelTooLong));
}

#[test]
fn name_labels_rev() {
    let n = Name::try_from("www.example.com").unwrap();
    let rev: Vec<String> = n.labels_rev().iter().map(|l| l.to_string()).collect();
    assert_eq!(rev, vec!["com", "example", "www"]);
    assert_eq!(n.labels().len(), 3);
}

#[test]
fn label_canonical_form() {
    let l = Label::try_from("ExAmple".as_bytes()).unwrap();
    assert_eq!(l.bytes(), b"example".to_vec());
    // Octets after the first refused one are dropped.
    let l = Label::try_from("ab_cd".as_bytes()).unwrap();
    assert_eq!(l.bytes(), b"ab".to_vec());
    assert_eq!(l.len(), 2);
    assert_eq!(Label::try_from([b'a'; 64].as_slice()), Err(ProtocolError::DomainNameLabelTooLong));
    assert_eq!(Label::new().len(), 0);
}

#[test]
fn name_pack_unpack_roundtrip() {
    let n = Name::try_from("www.example.com").unwrap();
    let mut buf = PackBuffer::new();
    n.pack(&mut buf).unwrap();
    let bytes = buf.into_bytes();
    assert_eq!(
        bytes,
        vec![3, b'w', b'w', b'w', 7, b'e', b'x', b'a', b'm', b'p', b'l', b'e', 3, b'c', b'o', b'm', 0]
    );
    assert_eq!(bytes.len(), n.len());
    let mut rbuf = UnpackBuffer::new(bytes);
    let m = Name::unpack(&mut rbuf).unwrap();
    assert_eq!(m, n);
    assert_eq!(rbuf.offset(), 17);
}

#[test]
fn name_unpack_compression_pointer() {
    // "example.com" at offset 0, then "www" + pointer to 0 at offset 13.
    let bytes = vec![
        7, b'e', b'x', b'a', b'm', b'p', b'l', b'e', 3, b'c', b'o', b'm', 0, 3, b'w', b'w', b'w',
        0xC0, 0x00, 0xFF,
    ];
    let mut buf = UnpackBuffer::new(bytes);
    let first = Name::unpack(&mut buf).unwrap();
    assert_eq!(first.as_dotted_string(), "example.com.");
    assert_eq!(buf.offset(), 13);
    let second = Name::unpack(&mut buf).unwrap();
    assert_eq!(second.as_dotted_string(), "www.example.com.");
    // Reading resumes right after the pointer.
    assert_eq!(buf.offset(), 19);
}

#[test]
fn name_unpack_errors() {
    // A pointer to a location after itself.
    let mut buf = UnpackBuffer::new(vec![0xC0, 0x05, 0, 0, 0, 0]);
    assert_eq!(Name::unpack(&mut buf), Err(ProtocolError::InvalidPointerLocation));
    // Pointers that only point at each other.
    let mut buf = UnpackBuffer::new(vec![0xC0, 0x02, 0xC0, 0x00]);
    assert_eq!(Name::unpack(&mut buf), Err(ProtocolError::PointerLoop));
    // A length octet with the top bits 01.
    let mut buf = UnpackBuffer::new(vec![0x40, 0]);
    assert_eq!(Name::unpack(&mut buf), Err(ProtocolError::InvalidLabelLenOrPointer(0x40)));
    // A label that runs past the end.
    let mut buf = UnpackBuffer::new(vec![5, b'a', b'b']);
    assert_eq!(Name::unpack(&mut buf), Err(ProtocolError::DomainNameLabelTooLong));
    // A truncated pointer.
    let mut buf = UnpackBuffer::new(vec![0xC0]);
    assert_eq!(
        Name::unpack(&mut buf),
        Err(ProtocolError::Buffer(portal::errors::BufferError::BufferTooShort))
    );
    // No terminating null octet.
    let mut buf = UnpackBuffer::new(vec![1, b'a']);
    assert_eq!(
        Name::unpack(&mut buf),
        Err(ProtocolError::Buffer(portal::errors::BufferError::BufferTooShort))
    );
    // A name that grows too long through a pointer back to itself.
    let mut buf = UnpackBuffer::new(vec![1, b'a', 0xC0, 0x00]);
    assert_eq!(Name::unpack(&mut buf), Err(ProtocolError::DomainNameTooLong));
}

#[test]
fn name_unpack_root() {
    let mut buf = UnpackBuffer::new(vec![0, 1]);
    let n = Name::unpack(&mut buf).unwrap();
    assert!(n.is_root());
    assert_eq!(buf.offset(), 1);
}

#[test]
fn name_try_from_labels() {
    let n = Name::try_from("a.b").unwrap();
    let m = Name::try_from_labels(n.labels().as_slice()).unwrap();
    assert_eq!(m, n);
}

#[test]
fn name_dotted_text_parses_back() {
    for text in ["www.example.com", "a-b.c0", "x"] {
        let n = Name::try_from(text).unwrap();
        let back = Name::try_from_string(n.as_dotted_string()).unwrap();
        assert_eq!(back, n);
    }
    let root = Name::try_from(".").unwrap();
    assert!(root.is_root());
    assert_eq!(Name::try_from_string(root.as_dotted_string()).unwrap(), root);
}

#[test]
fn name_longest_is_255_octets() {
    let text = format!("{}.{}.{}", "a".repeat(63), "b".repeat(63), "c".repeat(63));
    let mut n = Name::try_from(text.as_str()).unwrap();
    assert_eq!(n.len(), 193);
    let l = Label::try_from("d".repeat(62).as_bytes()).unwrap();
    assert_eq!(n.add_label(l), Err(ProtocolError::DomainNameTooLong));
    assert_eq!(n.len(), 193);
    let l = Label::try_from("d".repeat(61).as_bytes()).unwrap();
    assert_eq!(n.add_label(l), Ok(()));
    assert_eq!(n.len(), 255);
}

#[test]
fn name_iter_ends_meet() {
    let n = Name::try_from("a.b").unwrap();
    let mut it = n.iter();
    assert_eq!(it.next().unwrap().to_string(), "a");
    assert_eq!(it.next().unwrap().to_string(), "b");
    assert!(it.next_back().is_none());
    assert!(it.next().is_none());
    let mut it = n.iter();
    assert_eq!(it.next_back().unwrap().to_string(), "b");
    assert_eq!(it.next().unwrap().to_string(), "a");
    assert!(it.next().is_none());
    assert!(it.next_back().is_none());
}

#[test]
fn name_parse_ignores_case() {
    assert_eq!(Name::try_from("WWW.Example.COM").unwrap(), Name::try_from("www.example.com").unwrap());
    assert_eq!(Name::try_from("www..example.com.").unwrap(), Name::try_from("www.example.com").unwrap());
}

#[test]
fn name_unpack_offset_after_errors() {
    // A pointer that points forward is refused after its two octets.
    let mut buf = UnpackBuffer::new(vec![0xC0, 0x05, 0, 0, 0, 0]);
    assert_eq!(Name::unpack(&mut buf), Err(ProtocolError::InvalidPointerLocation));
    assert_eq!(buf.offset(), 2);

    // An octet that is neither a label length nor a pointer stays unread.
    let mut buf = UnpackBuffer::new(vec![1, b'a', 0x80, 0]);
    assert_eq!(Name::unpack(&mut buf), Err(ProtocolError::InvalidLabelLenOrPointer(0x80)));
    assert_eq!(buf.offset(), 2);

    // A label longer than the data stays unread.
    let mut buf = UnpackBuffer::new(vec![1, b'a', 5, b'b']);
    assert!(Name::unpack(&mut buf).is_err());
    assert_eq!(buf.offset(), 2);

    // After a pointer, reading resumes after the first pointer.
    let mut buf = UnpackBuffer::new(vec![1, b'a', 0, 0xC0, 0x00, 9]);
    assert!(buf.jump_to(3).is_ok());
    assert_eq!(Name::unpack(&mut buf).unwrap().as_dotted_string(), "a.");
    assert_eq!(buf.offset(), 5);
}

#[test]
fn rdata_name_unpack_leaves_offset_as_name_unpack() {
    let cases: Vec<Vec<u8>> = vec![
        vec![0xC0, 0x05, 0, 0, 0, 0],
        vec![1, b'a', 0x80, 0],
        vec![1, b'a', 5, b'b'],
        vec![3, b'w', b'w', b'w', 0, 7],
        vec![0xC0],
    ];
    for bytes in cases {
        let mut a = UnpackBuffer::new(bytes.clone());
        let mut b = UnpackBuffer::new(bytes);
        let ra = Name::unpack(&mut a);
        let rb = portal::types::rr::rdata::name::unpack(&mut b);
        assert_eq!(ra, rb);
        assert_eq!(a.offset(), b.offset());
    }
}

#[test]
fn name_debug_text_lists_labels() {
    assert_eq!(Name::default().debug_text(), "Name { labels: [] }");
    let n = Name::try_from("Ab.c").unwrap();
    assert_eq!(n.debug_text(), "Name { labels: [Label([97, 98]), Label([99])] }");
    assert_eq!(n.debug_text(), format!("{:?}", n));
}
