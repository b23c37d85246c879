use dns_parser::Header;
use dns_parser::Opcode::StandardQuery;
use dns_parser::ResponseCode::NoError;

#[test]
fn header_parse_example_query() {
    let query = b"\x06%\x01\x00\x00\x01\x00\x00\x00\x00\x00\x00\
                  \x07example\x03com\x00\x00\x01\x00\x01";
    let header = Header::parse(query).unwrap();
    assert_eq!(
        header,
        Header {
            id: 1573,
            query: true,
            opcode: StandardQuery,
            authoritative: false,
            truncated: false,
            recursion_desired: true,
            recursion_available: false,
            authenticated_data: false,
            checking_disabled: false,
            response_code: NoError,
            questions: 1,
            answers: 0,
            nameservers: 0,
            additional: 0,
        }
    );
}

#[test]
fn header_parse_example_response() {
    let response = b"\x06%\x81\x80\x00\x01\x00\x01\x00\x00\x00\x00\
                     \x07example\x03com\x00\x00\x01\x00\x01\
                     \xc0\x0c\x00\x01\x00\x01\x00\x00\x04\xf8\
                     \x00\x04]\xb8\xd8\"";
    let header = Header::parse(response).unwrap();
    assert_eq!(
        header,
        Header {
            id: 1573,
            query: false,
            opcode: StandardQuery,
            authoritative: false,
            truncated: false,
            recursion_desired: true,
            recursion_available: true,
            authenticated_data: false,
            checking_disabled: false,
            response_code: NoError,
            questions: 1,
            answers: 1,
            nameservers: 0,
            additional: 0,
        }
    );
}

#[test]
fn header_too_short() {
    let short = b"\x06%\x01\x00\x00\x01\x00\x00\x00\x00\x00";
    assert_eq!(Header::parse(short), Err(dns_parser::Error::HeaderTooShort));
}

#[test]
fn header_reserved_bit_refused() {
    // The Z bit (0x0040 of the flag word) must be zero.
    let query = b"\x06%\x01\x40\x00\x00\x00\x00\x00\x00\x00\x00";
    assert_eq!(
        Header::parse(query),
        Err(dns_parser::Error::ReservedBitsAreNonZero)
    );
}

#[test]
fn header_ad_cd_bits() {
    // AD is 0x0020 and CD is 0x0010 of the flag word.
    let query = b"\x00\x01\x01\x30\x00\x00\x00\x00\x00\x00\x00\x00";
    let header = Header::parse(query).unwrap();
    assert!(header.authenticated_data);
    assert!(header.checking_disabled);
    assert!(header.recursion_desired);
    assert_eq!(Header::size(), 12);
}
