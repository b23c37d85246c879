use dns_parser::{Builder, BuilderError, Packet, QueryClass, QueryType};

#[test]
fn build_example_query_bytes() {
    // Must produce exactly the wire bytes of the reference query for
    // example.com A IN with id 1573 and recursion desired.
    let mut builder = Builder::new_query(1573, true);
    builder
        .add_question("example.com", false, QueryType::A, QueryClass::IN)
        .unwrap();
    let packet = builder.build();
    let expected = b"\x06%\x01\x00\x00\x01\x00\x00\x00\x00\x00\x00\
                     \x07example\x03com\x00\x00\x01\x00\x01";
    assert_eq!(packet, expected.to_vec());
}

#[test]
fn build_edns_query_bytes() {
    // Must produce exactly the wire bytes of the reference EDNS query
    // for google.com A IN with id 38350 and a 4096-byte OPT record.
    let mut builder = Builder::new_query(38350, true);
    builder
        .add_question("google.com", false, QueryType::A, QueryClass::IN)
        .unwrap();
    builder.set_opt(4096, 0, 0, 0);
    let packet = builder.build();
    let expected = b"\x95\xce\x01\x00\x00\x01\x00\x00\x00\x00\x00\x01\
                     \x06google\x03com\x00\x00\x01\x00\
                     \x01\x00\x00\x29\x10\x00\x00\x00\x00\x00\x00\x00";
    assert_eq!(packet, expected.to_vec());
}

#[test]
fn build_and_parse_round_trip() {
    let mut builder = Builder::new_query(23513, true);
    builder
        .add_question(
            "_xmpp-server._tcp.gmail.com",
            false,
            QueryType::SRV,
            QueryClass::IN,
        )
        .unwrap();
    builder
        .add_question("example.org", true, QueryType::AAAA, QueryClass::Any)
        .unwrap();
    let bytes = builder.build();
    let packet = Packet::parse(&bytes).unwrap();
    assert_eq!(packet.header.id, 23513);
    assert!(packet.header.query);
    assert!(packet.header.recursion_desired);
    assert_eq!(packet.header.questions, 2);
    assert_eq!(packet.questions.len(), 2);
    assert_eq!(packet.questions[0].qname.to_text(), "_xmpp-server._tcp.gmail.com");
    assert_eq!(packet.questions[0].qtype, QueryType::SRV);
    assert_eq!(packet.questions[0].qclass, QueryClass::IN);
    assert!(!packet.questions[0].prefer_unicast);
    assert_eq!(packet.questions[1].qname.to_text(), "example.org");
    assert_eq!(packet.questions[1].qtype, QueryType::AAAA);
    assert_eq!(packet.questions[1].qclass, QueryClass::Any);
    assert!(packet.questions[1].prefer_unicast);
    assert_eq!(packet.answers.len(), 0);
    assert_eq!(packet.nameservers.len(), 0);
    assert_eq!(packet.additional.len(), 0);
    assert!(packet.opt.is_none());
}

#[test]
fn build_refuses_long_label() {
    let mut builder = Builder::new_query(1, false);
    let long = "a".repeat(64);
    assert_eq!(
        builder.add_question(&long, false, QueryType::A, QueryClass::IN),
        Err(BuilderError::LabelTooLong)
    );
    // A 63-octet label is still fine.
    let ok = "a".repeat(63);
    assert!(builder
        .add_question(&ok, false, QueryType::A, QueryClass::IN)
        .is_ok());
}

#[test]
fn build_refuses_empty_label() {
    let mut builder = Builder::new_query(1, false);
    assert_eq!(
        builder.add_question("a..b", false, QueryType::A, QueryClass::IN),
        Err(BuilderError::EmptyLabel)
    );
    assert_eq!(
        builder.add_question(".a", false, QueryType::A, QueryClass::IN),
        Err(BuilderError::EmptyLabel)
    );
}

#[test]
fn build_refuses_long_name() {
    let mut builder = Builder::new_query(1, false);
    let mut name = "a".repeat(63);
    for _ in 0..3 {
        name.push('.');
        name.push_str(&"a".repeat(63));
    }
    // 4 * 63 + 3 = 255 bytes of text: two octets over the wire limit.
    assert_eq!(
        builder.add_question(&name, false, QueryType::A, QueryClass::IN),
        Err(BuilderError::NameTooLong)
    );
}

#[test]
fn build_refuses_non_ascii_name() {
    let mut builder = Builder::new_query(1, false);
    assert_eq!(
        builder.add_question("\u{fc}ber.example", false, QueryType::A, QueryClass::IN),
        Err(BuilderError::NameIsNotAscii)
    );
}

#[test]
fn build_query_with_opt_parses_back() {
    let mut builder = Builder::new_query(9, false);
    builder
        .add_question("example.com", false, QueryType::MX, QueryClass::IN)
        .unwrap();
    builder.set_opt(1400, 3, 0, 0x8000);
    let bytes = builder.build();
    let packet = Packet::parse(&bytes).unwrap();
    assert_eq!(packet.header.additional, 1);
    assert_eq!(packet.additional.len(), 0);
    let opt = packet.opt.expect("OPT record missing");
    assert_eq!(opt.udp, 1400);
    assert_eq!(opt.extrcode, 3);
    assert_eq!(opt.version, 0);
    assert_eq!(opt.flags, 0x8000);
}
