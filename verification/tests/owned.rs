use dns_parser::{Packet, RData, RDataBuf};

#[test]
fn deep_clone_owns_names_and_data() {
    let response = b"\x9f\xc5\x85\x83\x00\x01\x00\x00\x00\x01\x00\x00\
                     \x0edlkfjkdjdslfkj\x07youtube\x03com\x00\x00\x01\x00\x01\
                     \xc0\x1b\x00\x06\x00\x01\x00\x00\x2a\x30\x00\x1e\xc0\x1b\
                     \x05admin\xc0\x1b\x77\xed\x2a\x73\x00\x00\x51\x80\x00\x00\
                     \x0e\x10\x00\x00\x3a\x80\x00\x00\x2a\x30";
    let owned = {
        let packet = Packet::parse(response).unwrap();
        packet.deep_clone()
    };
    assert_eq!(owned.header.id, 40901);
    assert_eq!(owned.questions.len(), 1);
    assert_eq!(owned.questions[0].qname, "dlkfjkdjdslfkj.youtube.com");
    assert_eq!(owned.nameservers.len(), 1);
    assert_eq!(owned.nameservers[0].name, "youtube.com");
    assert_eq!(owned.nameservers[0].ttl, 10800);
    match owned.nameservers[0].data {
        RDataBuf::SOA(ref soa) => {
            assert_eq!(soa.primary_ns, "youtube.com");
            assert_eq!(soa.mailbox, "admin.youtube.com");
            assert_eq!(soa.serial, 2012031603);
            assert_eq!(soa.refresh, 20864);
            assert_eq!(soa.retry, 3600);
            assert_eq!(soa.expire, 14976);
            assert_eq!(soa.minimum_ttl, 10800);
        },
        ref x => panic!("Wrong rdata {:?}", x),
    }
    assert!(owned.opt.is_none());
}

#[test]
fn deep_clone_keeps_opt_and_records() {
    let query = b"\x95\xce\x01\x00\x00\x01\x00\x00\x00\x00\x00\x01\
                  \x06google\x03com\x00\x00\x01\x00\
                  \x01\x00\x00\x29\x10\x00\x00\x00\x00\x00\x00\x00";
    let packet = Packet::parse(query).unwrap();
    let owned = packet.deep_clone();
    let opt = owned.opt.expect("Missing OPT RR");
    assert_eq!(opt.udp, 4096);
    assert_eq!(opt.extrcode, 0);
    assert_eq!(opt.version, 0);
    assert_eq!(opt.flags, 0);
    match opt.data {
        RDataBuf::OPT(ref bytes) => assert_eq!(bytes.len(), 0),
        ref x => panic!("Wrong rdata {:?}", x),
    }
}

#[test]
fn record_buf_writes_opt_wire_form() {
    let query = b"\x95\xce\x01\x00\x00\x01\x00\x00\x00\x00\x00\x01\
                  \x06google\x03com\x00\x00\x01\x00\
                  \x01\x00\x00\x29\x10\x00\x00\x00\x00\x00\x00\x00";
    let packet = Packet::parse(query).unwrap();
    let record_buf = packet.opt.expect("Missing OPT RR").deep_clone();
    let mut buf: Vec<u8> = Vec::new();
    record_buf.write_to(&mut buf);
    assert_eq!(
        buf,
        b"\x00\x00\x29\x10\x00\x00\x00\x00\x00\x00\x00".to_vec()
    );
}

#[test]
fn deep_clone_copies_a_records() {
    let response = b"\x06%\x81\x80\x00\x01\x00\x01\x00\x00\x00\x00\
                     \x07example\x03com\x00\x00\x01\x00\x01\
                     \xc0\x0c\x00\x01\x00\x01\x00\x00\x04\xf8\
                     \x00\x04]\xb8\xd8\"";
    let packet = Packet::parse(response).unwrap();
    match packet.answers[0].data {
        RData::A(addr) => assert_eq!(addr, dns_parser::Ipv4(93, 184, 216, 34)),
        ref x => panic!("Wrong rdata {:?}", x),
    }
    let owned = packet.deep_clone();
    assert_eq!(owned.answers.len(), 1);
    assert_eq!(owned.answers[0].name, "example.com");
    match owned.answers[0].data {
        RDataBuf::A(addr) => assert_eq!(addr, dns_parser::Ipv4(93, 184, 216, 34)),
        ref x => panic!("Wrong rdata {:?}", x),
    }
}
