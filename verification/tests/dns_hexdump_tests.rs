use rust_in_action::dns::{build_query, encode_a_query, message_id, read_reply, DnsCodecError, DomainName};
use rust_in_action::hexdump::format_line;

fn example_reply(answers: &[(u16, &[u8])]) -> Vec<u8> {
    let mut b = vec![0x12, 0x34, 0x81, 0x80, 0x00, 0x01, 0x00, answers.len() as u8, 0, 0, 0, 0];
    b.extend_from_slice(&[7, b'e', b'x', b'a', b'm', b'p', b'l', b'e', 3, b'c', b'o', b'm', 0]);
    b.extend_from_slice(&[0, 1, 0, 1]);
    for (rtype, rdata) in answers {
        b.extend_from_slice(&[0xc0, 0x0c]);
        b.extend_from_slice(&rtype.to_be_bytes());
        b.extend_from_slice(&[0, 1, 0, 0, 0x0e, 0x10]);
        b.extend_from_slice(&(rdata.len() as u16).to_be_bytes());
        b.extend_from_slice(rdata);
    }
    b
}

#[test]
fn query_header_carries_id() {
    let q = build_query("example.com", 0x1234).unwrap();
    assert_eq!(q[0], 0x12);
    assert_eq!(q[1], 0x34);
    assert_eq!(q[2] & 1, 1);
    assert_eq!((q[4], q[5]), (0, 1));
    assert_eq!(&q[q.len() - 4..], &[0, 1, 0, 1]);
}

#[test]
fn query_bytes_in_full() {
    let q = build_query("example.com", 0xABCD).unwrap();
    let mut expected = vec![0xAB, 0xCD, 0x01, 0x00, 0x00, 0x01, 0, 0, 0, 0, 0, 0];
    expected.extend_from_slice(&[7, b'e', b'x', b'a', b'm', b'p', b'l', b'e', 3, b'c', b'o', b'm', 0]);
    expected.extend_from_slice(&[0, 1, 0, 1]);
    assert_eq!(q, expected);
    let name = DomainName::parse("example.com").unwrap();
    assert_eq!(encode_a_query(&name, 0xABCD).unwrap(), expected);
}

#[test]
fn overlong_name_fails_to_encode() {
    let label = "a".repeat(60);
    let long = vec![label.as_str(); 5].join(".");
    assert!(DomainName::parse(&long).is_ok());
    match build_query(&long, 1) {
        Err(DnsCodecError::Encoding(_)) => {}
        other => panic!("unexpected {:?}", other),
    }
    let fits = vec![label.as_str(); 4].join(".");
    assert!(build_query(&fits, 1).is_ok());
}

#[test]
fn bad_domain_is_refused() {
    let long_label = "a".repeat(70);
    match build_query(&long_label, 1) {
        Err(DnsCodecError::ParseDomainName(_)) => {}
        other => panic!("unexpected {:?}", other),
    }
}

#[test]
fn message_ids_are_nonzero() {
    for _ in 0..1000 {
        assert_ne!(message_id(), 0);
    }
}

#[test]
fn reads_first_a_answer() {
    let mut reply = example_reply(&[(1, &[93, 184, 216, 34]), (1, &[1, 2, 3, 4])]);
    assert_eq!(read_reply(&reply).unwrap(), Some("93.184.216.34".to_string()));
    reply.resize(512, 0);
    assert_eq!(read_reply(&reply).unwrap(), Some("93.184.216.34".to_string()));
}

#[test]
fn skips_non_a_answers() {
    let reply = example_reply(&[(16, &[3, b'a', b'b', b'c']), (1, &[10, 0, 0, 1])]);
    assert_eq!(read_reply(&reply).unwrap(), Some("10.0.0.1".to_string()));
}

#[test]
fn no_answer_gives_none() {
    let reply = example_reply(&[]);
    assert_eq!(read_reply(&reply).unwrap(), None);
}

#[test]
fn garbage_does_not_decode() {
    match read_reply(&[0x00]) {
        Err(DnsCodecError::Decoding(_)) => {}
        other => panic!("unexpected {:?}", other),
    }
}

#[test]
fn dump_line_tokens() {
    let bytes = [0x00, 0xff, 0x41, 0x0a];
    assert_eq!(format_line(0x20, &bytes), "[0x00000020] . ## 41 0a ");
    assert_eq!(format_line(0x1_0000_0000, &[]), "[0x100000000] ");
}
