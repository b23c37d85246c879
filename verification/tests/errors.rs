use dns_parser::{Class, Error, Opcode, Packet, QueryClass, QueryType, RData, ResponseCode, Type};

// A valid response for example.com A used as the base of several
// mutations below.
fn example_response() -> Vec<u8> {
    b"\x06%\x81\x80\x00\x01\x00\x01\x00\x00\x00\x00\
      \x07example\x03com\x00\x00\x01\x00\x01\
      \xc0\x0c\x00\x01\x00\x01\x00\x00\x04\xf8\
      \x00\x04]\xb8\xd8\""
        .to_vec()
}

#[test]
fn truncated_packets_never_parse() {
    // Cutting any amount off a fully consumed packet must yield
    // UnexpectedEOF or HeaderTooShort, never success.
    let response = example_response();
    for cut in 1..response.len() {
        let shorter = &response[..response.len() - cut];
        match Packet::parse(shorter) {
            Err(Error::UnexpectedEOF) | Err(Error::HeaderTooShort) => {},
            other => panic!("truncation by {} gave {:?}", cut, other),
        }
    }
}

#[test]
fn trailing_padding_tolerated() {
    // Transport padding after the last record is ignored, not parsed.
    let mut response = example_response();
    response.extend_from_slice(&[0, 0, 0, 0]);
    let packet = Packet::parse(&response).unwrap();
    assert_eq!(packet.header.id, 1573);
    assert_eq!(packet.answers.len(), 1);
}

#[test]
fn ttl_above_signed_range_clamps_to_zero() {
    let mut response = example_response();
    // The answer's TTL field occupies bytes 35 to 38 of this packet.
    for i in 35..39 {
        response[i] = 0xff;
    }
    let packet = Packet::parse(&response).unwrap();
    assert_eq!(packet.answers[0].ttl, 0);
}

#[test]
fn counts_match_sections() {
    let response = example_response();
    let packet = Packet::parse(&response).unwrap();
    assert_eq!(packet.questions.len(), packet.header.questions as usize);
    assert_eq!(packet.answers.len(), packet.header.answers as usize);
    assert_eq!(packet.nameservers.len(), packet.header.nameservers as usize);
    let opt_count = if packet.opt.is_some() { 1 } else { 0 };
    assert_eq!(
        packet.additional.len() + opt_count,
        packet.header.additional as usize
    );
}

#[test]
fn wrong_rdata_length_refused() {
    let mut response = example_response();
    // Announce 3 rdata bytes for an A record that needs 4; shrink the
    // buffer to match so the error is about the record shape.
    response[40] = 3;
    response.truncate(44);
    assert_eq!(Packet::parse(&response).unwrap_err(), Error::WrongRdataLength);
}

#[test]
fn unknown_type_code_refused() {
    let mut response = example_response();
    // Type code 3 in the answer maps to no known TYPE.
    response[32] = 3;
    assert_eq!(Packet::parse(&response).unwrap_err(), Error::InvalidType(3));
}

#[test]
fn unknown_class_code_refused() {
    let mut response = example_response();
    response[34] = 9;
    assert_eq!(Packet::parse(&response).unwrap_err(), Error::InvalidClass(9));
}

#[test]
fn unknown_query_type_code_refused() {
    let mut query = b"\x06%\x01\x00\x00\x01\x00\x00\x00\x00\x00\x00\
                      \x07example\x03com\x00\x00\x01\x00\x01"
        .to_vec();
    query[26] = 99;
    assert_eq!(Packet::parse(&query).unwrap_err(), Error::InvalidQueryType(99));
    query[26] = 1;
    query[28] = 9;
    assert_eq!(Packet::parse(&query).unwrap_err(), Error::InvalidQueryClass(9));
}

#[test]
fn second_opt_record_refused() {
    let mut query = b"\x95\xce\x01\x00\x00\x01\x00\x00\x00\x00\x00\x02\
                      \x06google\x03com\x00\x00\x01\x00\x01"
        .to_vec();
    let opt = b"\x00\x00\x29\x10\x00\x00\x00\x00\x00\x00\x00";
    query.extend_from_slice(opt);
    query.extend_from_slice(opt);
    assert_eq!(Packet::parse(&query).unwrap_err(), Error::AdditionalOPT);
}

#[test]
fn txt_invalid_utf8_refused() {
    // A TXT answer whose single segment holds a lone continuation
    // byte.
    let response = b"\x06%\x81\x80\x00\x01\x00\x01\x00\x00\x00\x00\
                     \x01a\x00\x00\x10\x00\x01\
                     \xc0\x0c\x00\x10\x00\x01\x00\x00\x00\x3c\x00\x02\
                     \x01\xff";
    assert_eq!(Packet::parse(response).unwrap_err(), Error::TxtDataIsNotUTF8);
}

#[test]
fn response_code_field_is_four_bits() {
    assert_eq!(
        ResponseCode::parse(16),
        Err(Error::InvalidResponseCode(16))
    );
    assert_eq!(ResponseCode::parse(3), Ok(ResponseCode::NameError));
    assert_eq!(ResponseCode::parse(11), Ok(ResponseCode::Reserved(11)));
}

#[test]
fn enum_codes_round_trip() {
    assert_eq!(Type::parse(33), Ok(Type::SRV));
    assert_eq!(Type::SRV.code(), 33);
    assert_eq!(Type::parse(257), Ok(Type::CAA));
    assert_eq!(Type::parse(4), Err(Error::InvalidType(4)));
    assert_eq!(QueryType::parse(255), Ok(QueryType::All));
    assert_eq!(QueryType::All.code(), 255);
    assert_eq!(QueryType::parse(256), Err(Error::InvalidQueryType(256)));
    assert_eq!(Class::parse(4), Ok(Class::HS));
    assert_eq!(Class::HS.code(), 4);
    assert_eq!(QueryClass::parse(255), Ok(QueryClass::Any));
    assert_eq!(Opcode::parse(2), Opcode::ServerStatusRequest);
    assert_eq!(Opcode::parse(9), Opcode::Reserved(9));
    assert_eq!(Opcode::Reserved(9).code(), 9);
    assert_eq!(ResponseCode::Refused.code(), 5);
}

#[test]
fn unknown_rdata_kept_raw() {
    // An NSEC answer is recognized by code only; its rdata stays raw.
    let response = b"\x06%\x81\x80\x00\x01\x00\x01\x00\x00\x00\x00\
                     \x01a\x00\x00\x2f\x00\x01\
                     \xc0\x0c\x00\x2f\x00\x01\x00\x00\x00\x3c\x00\x03\
                     \x01\x02\x03";
    let packet = Packet::parse(response).unwrap();
    match packet.answers[0].data {
        RData::Unknown(t, ref bytes) => {
            assert_eq!(t, Type::NSEC);
            assert_eq!(bytes.as_slice(), &[1, 2, 3]);
        },
        ref x => panic!("Wrong rdata {:?}", x),
    }
    assert_eq!(packet.answers[0].data.type_code(), Type::NSEC);
}

#[test]
fn caa_record_parses() {
    // A CAA answer: flags 0, tag "issue", value "ca.example.net".
    let response = b"\x06%\x81\x80\x00\x01\x00\x01\x00\x00\x00\x00\
                     \x01a\x00\x01\x01\x00\x01\
                     \xc0\x0c\x01\x01\x00\x01\x00\x00\x00\x3c\x00\x15\
                     \x00\x05issueca.example.net";
    let packet = Packet::parse(response).unwrap();
    match packet.answers[0].data {
        RData::CAA(ref caa) => {
            assert_eq!(caa.flags, 0);
            assert_eq!(
                caa.property,
                dns_parser::Property::Issue(String::from("ca.example.net"))
            );
        },
        ref x => panic!("Wrong rdata {:?}", x),
    }
}
