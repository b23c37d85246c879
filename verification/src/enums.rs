//! Wire-code enumerations: TYPE, QTYPE, CLASS, QCLASS, OPCODE and RCODE,
//! each with a bidirectional mapping between symbol and numeric code.

use vstd::prelude::*;

use crate::error::Error;

verus! {

/// The record TYPE according to RFC 1035 and extensions.
#[derive(Debug, PartialEq, Eq, Structural, Clone, Copy)]
pub enum Type {
    /// An IPv4 host address
    A,
    /// An authoritative name server
    NS,
    /// The canonical name for an alias
    CNAME,
    /// The start of a zone of authority
    SOA,
    /// A domain name pointer
    PTR,
    /// A mail exchange
    MX,
    /// Text strings
    TXT,
    /// An IPv6 host address (RFC 3596)
    AAAA,
    /// The location of a service (RFC 2782)
    SRV,
    /// The EDNS0 pseudo-record (RFC 6891)
    OPT,
    /// Existence proof in authenticated denial (recognized by code only)
    NSEC,
    /// General-purpose service binding (recognized by code only)
    SVCB,
    /// Service binding for HTTPS origins (recognized by code only)
    HTTPS,
    /// Certification authority authorization (RFC 6844)
    CAA,
}

/// The question QTYPE according to RFC 1035: every TYPE, plus the
/// request-only wildcards.
#[derive(Debug, PartialEq, Eq, Structural, Clone, Copy)]
pub enum QueryType {
    /// An IPv4 host address
    A,
    /// An authoritative name server
    NS,
    /// The canonical name for an alias
    CNAME,
    /// The start of a zone of authority
    SOA,
    /// A domain name pointer
    PTR,
    /// A mail exchange
    MX,
    /// Text strings
    TXT,
    /// An IPv6 host address (RFC 3596)
    AAAA,
    /// The location of a service (RFC 2782)
    SRV,
    /// The EDNS0 pseudo-record (RFC 6891)
    OPT,
    /// Existence proof in authenticated denial
    NSEC,
    /// General-purpose service binding
    SVCB,
    /// Service binding for HTTPS origins
    HTTPS,
    /// Certification authority authorization (RFC 6844)
    CAA,
    /// A request for a zone transfer
    AXFR,
    /// A request for mailbox-related records
    MAILB,
    /// A request for mail agent records
    MAILA,
    /// A request for all records
    All,
}

/// The CLASS value according to RFC 1035.
#[derive(Debug, PartialEq, Eq, Structural, Clone, Copy)]
pub enum Class {
    /// The Internet
    IN,
    /// The CSNET class (obsolete)
    CS,
    /// The CHAOS class
    CH,
    /// Hesiod
    HS,
}

/// The question QCLASS according to RFC 1035: every CLASS, plus the
/// request-only wildcard.
#[derive(Debug, PartialEq, Eq, Structural, Clone, Copy)]
pub enum QueryClass {
    /// The Internet
    IN,
    /// The CSNET class (obsolete)
    CS,
    /// The CHAOS class
    CH,
    /// Hesiod
    HS,
    /// Any class
    Any,
}

/// The OPCODE value according to RFC 1035.
#[derive(Debug, PartialEq, Eq, Structural, Clone, Copy)]
pub enum Opcode {
    /// Normal query
    StandardQuery,
    /// Inverse query (query a name by IP)
    InverseQuery,
    /// Server status request
    ServerStatusRequest,
    /// Opcode reserved for future use
    Reserved(u16),
}

/// The RCODE value according to RFC 1035.
#[derive(Debug, PartialEq, Eq, Structural, Clone, Copy)]
pub enum ResponseCode {
    /// No error condition
    NoError,
    /// The server was unable to interpret the query
    FormatError,
    /// The server was unable to process the query
    ServerFailure,
    /// The name referenced in the query does not exist
    NameError,
    /// The server does not support the requested kind of query
    NotImplemented,
    /// The server refuses to perform the operation
    Refused,
    /// A code in the range reserved for future use
    Reserved(u8),
}

/// The numeric code of a record TYPE.
pub open spec fn type_code_of(t: Type) -> u16 {
    match t {
        Type::A => 1,
        Type::NS => 2,
        Type::CNAME => 5,
        Type::SOA => 6,
        Type::PTR => 12,
        Type::MX => 15,
        Type::TXT => 16,
        Type::AAAA => 28,
        Type::SRV => 33,
        Type::OPT => 41,
        Type::NSEC => 47,
        Type::SVCB => 64,
        Type::HTTPS => 65,
        Type::CAA => 257,
    }
}

/// The record TYPE of a numeric code, if the code is known.
pub open spec fn type_of_code(code: u16) -> Option<Type> {
    if code == 1 {
        Some(Type::A)
    } else if code == 2 {
        Some(Type::NS)
    } else if code == 5 {
        Some(Type::CNAME)
    } else if code == 6 {
        Some(Type::SOA)
    } else if code == 12 {
        Some(Type::PTR)
    } else if code == 15 {
        Some(Type::MX)
    } else if code == 16 {
        Some(Type::TXT)
    } else if code == 28 {
        Some(Type::AAAA)
    } else if code == 33 {
        Some(Type::SRV)
    } else if code == 41 {
        Some(Type::OPT)
    } else if code == 47 {
        Some(Type::NSEC)
    } else if code == 64 {
        Some(Type::SVCB)
    } else if code == 65 {
        Some(Type::HTTPS)
    } else if code == 257 {
        Some(Type::CAA)
    } else {
        None
    }
}

/// The numeric code of a QTYPE.
pub open spec fn query_type_code_of(t: QueryType) -> u16 {
    match t {
        QueryType::A => 1,
        QueryType::NS => 2,
        QueryType::CNAME => 5,
        QueryType::SOA => 6,
        QueryType::PTR => 12,
        QueryType::MX => 15,
        QueryType::TXT => 16,
        QueryType::AAAA => 28,
        QueryType::SRV => 33,
        QueryType::OPT => 41,
        QueryType::NSEC => 47,
        QueryType::SVCB => 64,
        QueryType::HTTPS => 65,
        QueryType::CAA => 257,
        QueryType::AXFR => 252,
        QueryType::MAILB => 253,
        QueryType::MAILA => 254,
        QueryType::All => 255,
    }
}

/// The QTYPE of a numeric code, if the code is known.
pub open spec fn query_type_of_code(code: u16) -> Option<QueryType> {
    if code == 1 {
        Some(QueryType::A)
    } else if code == 2 {
        Some(QueryType::NS)
    } else if code == 5 {
        Some(QueryType::CNAME)
    } else if code == 6 {
        Some(QueryType::SOA)
    } else if code == 12 {
        Some(QueryType::PTR)
    } else if code == 15 {
        Some(QueryType::MX)
    } else if code == 16 {
        Some(QueryType::TXT)
    } else if code == 28 {
        Some(QueryType::AAAA)
    } else if code == 33 {
        Some(QueryType::SRV)
    } else if code == 41 {
        Some(QueryType::OPT)
    } else if code == 47 {
        Some(QueryType::NSEC)
    } else if code == 64 {
        Some(QueryType::SVCB)
    } else if code == 65 {
        Some(QueryType::HTTPS)
    } else if code == 257 {
        Some(QueryType::CAA)
    } else if code == 252 {
        Some(QueryType::AXFR)
    } else if code == 253 {
        Some(QueryType::MAILB)
    } else if code == 254 {
        Some(QueryType::MAILA)
    } else if code == 255 {
        Some(QueryType::All)
    } else {
        None
    }
}

/// The numeric code of a CLASS.
pub open spec fn class_code_of(c: Class) -> u16 {
    match c {
        Class::IN => 1,
        Class::CS => 2,
        Class::CH => 3,
        Class::HS => 4,
    }
}

/// The CLASS of a numeric code, if the code is known.
pub open spec fn class_of_code(code: u16) -> Option<Class> {
    if code == 1 {
        Some(Class::IN)
    } else if code == 2 {
        Some(Class::CS)
    } else if code == 3 {
        Some(Class::CH)
    } else if code == 4 {
        Some(Class::HS)
    } else {
        None
    }
}

/// The numeric code of a QCLASS.
pub open spec fn query_class_code_of(c: QueryClass) -> u16 {
    match c {
        QueryClass::IN => 1,
        QueryClass::CS => 2,
        QueryClass::CH => 3,
        QueryClass::HS => 4,
        QueryClass::Any => 255,
    }
}

/// The QCLASS of a numeric code, if the code is known.
pub open spec fn query_class_of_code(code: u16) -> Option<QueryClass> {
    if code == 1 {
        Some(QueryClass::IN)
    } else if code == 2 {
        Some(QueryClass::CS)
    } else if code == 3 {
        Some(QueryClass::CH)
    } else if code == 4 {
        Some(QueryClass::HS)
    } else if code == 255 {
        Some(QueryClass::Any)
    } else {
        None
    }
}

/// The numeric code of an OPCODE.
pub open spec fn opcode_code_of(o: Opcode) -> u16 {
    match o {
        Opcode::StandardQuery => 0,
        Opcode::InverseQuery => 1,
        Opcode::ServerStatusRequest => 2,
        Opcode::Reserved(x) => x,
    }
}

/// The OPCODE of a numeric code; every code maps to a symbol.
pub open spec fn opcode_of_code(code: u16) -> Opcode {
    if code == 0 {
        Opcode::StandardQuery
    } else if code == 1 {
        Opcode::InverseQuery
    } else if code == 2 {
        Opcode::ServerStatusRequest
    } else {
        Opcode::Reserved(code)
    }
}

/// The numeric code of an RCODE.
pub open spec fn response_code_code_of(r: ResponseCode) -> u8 {
    match r {
        ResponseCode::NoError => 0,
        ResponseCode::FormatError => 1,
        ResponseCode::ServerFailure => 2,
        ResponseCode::NameError => 3,
        ResponseCode::NotImplemented => 4,
        ResponseCode::Refused => 5,
        ResponseCode::Reserved(x) => x,
    }
}

/// The RCODE of a 4-bit numeric code.
pub open spec fn response_code_of_code(code: u8) -> ResponseCode {
    if code == 0 {
        ResponseCode::NoError
    } else if code == 1 {
        ResponseCode::FormatError
    } else if code == 2 {
        ResponseCode::ServerFailure
    } else if code == 3 {
        ResponseCode::NameError
    } else if code == 4 {
        ResponseCode::NotImplemented
    } else if code == 5 {
        ResponseCode::Refused
    } else {
        ResponseCode::Reserved(code)
    }
}

impl Type {
    /// Parse a record type code.
    pub fn parse(code: u16) -> (r: Result<Type, Error>)
        ensures
            r == (match type_of_code(code) {
                Some(t) => Ok::<Type, Error>(t),
                None => Err::<Type, Error>(Error::InvalidType(code)),
            }),
    {
        match code {
            1 => Ok(Type::A),
            2 => Ok(Type::NS),
            5 => Ok(Type::CNAME),
            6 => Ok(Type::SOA),
            12 => Ok(Type::PTR),
            15 => Ok(Type::MX),
            16 => Ok(Type::TXT),
            28 => Ok(Type::AAAA),
            33 => Ok(Type::SRV),
            41 => Ok(Type::OPT),
            47 => Ok(Type::NSEC),
            64 => Ok(Type::SVCB),
            65 => Ok(Type::HTTPS),
            257 => Ok(Type::CAA),
            x => Err(Error::InvalidType(x)),
        }
    }

    /// The numeric code of this record type.
    pub fn code(self) -> (r: u16)
        ensures
            r == type_code_of(self),
    {
        match self {
            Type::A => 1,
            Type::NS => 2,
            Type::CNAME => 5,
            Type::SOA => 6,
            Type::PTR => 12,
            Type::MX => 15,
            Type::TXT => 16,
            Type::AAAA => 28,
            Type::SRV => 33,
            Type::OPT => 41,
            Type::NSEC => 47,
            Type::SVCB => 64,
            Type::HTTPS => 65,
            Type::CAA => 257,
        }
    }
}

impl QueryType {
    /// Parse a question type code.
    pub fn parse(code: u16) -> (r: Result<QueryType, Error>)
        ensures
            r == (match query_type_of_code(code) {
                Some(t) => Ok::<QueryType, Error>(t),
                None => Err::<QueryType, Error>(Error::InvalidQueryType(code)),
            }),
    {
        match code {
            1 => Ok(QueryType::A),
            2 => Ok(QueryType::NS),
            5 => Ok(QueryType::CNAME),
            6 => Ok(QueryType::SOA),
            12 => Ok(QueryType::PTR),
            15 => Ok(QueryType::MX),
            16 => Ok(QueryType::TXT),
            28 => Ok(QueryType::AAAA),
            33 => Ok(QueryType::SRV),
            41 => Ok(QueryType::OPT),
            47 => Ok(QueryType::NSEC),
            64 => Ok(QueryType::SVCB),
            65 => Ok(QueryType::HTTPS),
            257 => Ok(QueryType::CAA),
            252 => Ok(QueryType::AXFR),
            253 => Ok(QueryType::MAILB),
            254 => Ok(QueryType::MAILA),
            255 => Ok(QueryType::All),
            x => Err(Error::InvalidQueryType(x)),
        }
    }

    /// The numeric code of this question type.
    pub fn code(self) -> (r: u16)
        ensures
            r == query_type_code_of(self),
    {
        match self {
            QueryType::A => 1,
            QueryType::NS => 2,
            QueryType::CNAME => 5,
            QueryType::SOA => 6,
            QueryType::PTR => 12,
            QueryType::MX => 15,
            QueryType::TXT => 16,
            QueryType::AAAA => 28,
            QueryType::SRV => 33,
            QueryType::OPT => 41,
            QueryType::NSEC => 47,
            QueryType::SVCB => 64,
            QueryType::HTTPS => 65,
            QueryType::CAA => 257,
            QueryType::AXFR => 252,
            QueryType::MAILB => 253,
            QueryType::MAILA => 254,
            QueryType::All => 255,
        }
    }
}

impl Class {
    /// Parse a record class code.
    pub fn parse(code: u16) -> (r: Result<Class, Error>)
        ensures
            r == (match class_of_code(code) {
                Some(c) => Ok::<Class, Error>(c),
                None => Err::<Class, Error>(Error::InvalidClass(code)),
            }),
    {
        match code {
            1 => Ok(Class::IN),
            2 => Ok(Class::CS),
            3 => Ok(Class::CH),
            4 => Ok(Class::HS),
            x => Err(Error::InvalidClass(x)),
        }
    }

    /// The numeric code of this class.
    pub fn code(self) -> (r: u16)
        ensures
            r == class_code_of(self),
    {
        match self {
            Class::IN => 1,
            Class::CS => 2,
            Class::CH => 3,
            Class::HS => 4,
        }
    }
}

impl QueryClass {
    /// Parse a question class code.
    pub fn parse(code: u16) -> (r: Result<QueryClass, Error>)
        ensures
            r == (match query_class_of_code(code) {
                Some(c) => Ok::<QueryClass, Error>(c),
                None => Err::<QueryClass, Error>(Error::InvalidQueryClass(code)),
            }),
    {
        match code {
            1 => Ok(QueryClass::IN),
            2 => Ok(QueryClass::CS),
            3 => Ok(QueryClass::CH),
            4 => Ok(QueryClass::HS),
            255 => Ok(QueryClass::Any),
            x => Err(Error::InvalidQueryClass(x)),
        }
    }

    /// The numeric code of this question class.
    pub fn code(self) -> (r: u16)
        ensures
            r == query_class_code_of(self),
    {
        match self {
            QueryClass::IN => 1,
            QueryClass::CS => 2,
            QueryClass::CH => 3,
            QueryClass::HS => 4,
            QueryClass::Any => 255,
        }
    }
}

impl Opcode {
    /// Parse an opcode; every code maps to a symbol, unassigned ones to
    /// `Reserved`.
    pub fn parse(code: u16) -> (r: Opcode)
        ensures
            r == opcode_of_code(code),
    {
        match code {
            0 => Opcode::StandardQuery,
            1 => Opcode::InverseQuery,
            2 => Opcode::ServerStatusRequest,
            x => Opcode::Reserved(x),
        }
    }

    /// The numeric code of this opcode.
    pub fn code(self) -> (r: u16)
        ensures
            r == opcode_code_of(self),
    {
        match self {
            Opcode::StandardQuery => 0,
            Opcode::InverseQuery => 1,
            Opcode::ServerStatusRequest => 2,
            Opcode::Reserved(x) => x,
        }
    }
}

impl ResponseCode {
    /// Parse a response code; the wire field is 4 bits wide, so codes
    /// above 15 are rejected.
    pub fn parse(code: u16) -> (r: Result<ResponseCode, Error>)
        ensures
            r == (if code > 15 {
                Err::<ResponseCode, Error>(Error::InvalidResponseCode(code))
            } else {
                Ok::<ResponseCode, Error>(response_code_of_code(code as u8))
            }),
    {
        match code {
            0 => Ok(ResponseCode::NoError),
            1 => Ok(ResponseCode::FormatError),
            2 => Ok(ResponseCode::ServerFailure),
            3 => Ok(ResponseCode::NameError),
            4 => Ok(ResponseCode::NotImplemented),
            5 => Ok(ResponseCode::Refused),
            x => {
                if x <= 15 {
                    Ok(ResponseCode::Reserved(x as u8))
                } else {
                    Err(Error::InvalidResponseCode(x))
                }
            },
        }
    }

    /// The numeric code of this response code.
    pub fn code(self) -> (r: u8)
        ensures
            r == response_code_code_of(self),
    {
        match self {
            ResponseCode::NoError => 0,
            ResponseCode::FormatError => 1,
            ResponseCode::ServerFailure => 2,
            ResponseCode::NameError => 3,
            ResponseCode::NotImplemented => 4,
            ResponseCode::Refused => 5,
            ResponseCode::Reserved(x) => x,
        }
    }
}

/// Symbol-to-code-to-symbol: decoding the code of a known TYPE yields
/// that TYPE again, so the mapping is total in both directions.
pub proof fn lemma_type_code_round_trip(t: Type)
    ensures
        type_of_code(type_code_of(t)) == Some(t),
{
}

/// Code-to-symbol-to-code: a known TYPE code survives the round trip.
pub proof fn lemma_type_of_code_round_trip(code: u16)
    ensures
        type_of_code(code) matches Some(t) ==> type_code_of(t) == code,
{
}

/// Every TYPE is also a QTYPE with the same code: QTYPE is a superset
/// of TYPE.
pub proof fn lemma_query_type_superset(t: Type)
    ensures
        query_type_of_code(type_code_of(t)) is Some,
        query_type_code_of(query_type_of_code(type_code_of(t)).unwrap()) == type_code_of(t),
{
}

/// Symbol-to-code-to-symbol for QTYPE.
pub proof fn lemma_query_type_code_round_trip(t: QueryType)
    ensures
        query_type_of_code(query_type_code_of(t)) == Some(t),
{
}

/// Code-to-symbol-to-code for OPCODE and RCODE: every code maps to a
/// symbol that carries the same code back, so the mapping is total in
/// both directions.
pub proof fn lemma_opcode_code_total(code: u16, rcode: u8)
    ensures
        opcode_code_of(opcode_of_code(code)) == code,
        response_code_code_of(response_code_of_code(rcode)) == rcode,
{
}

/// Symbol-to-code-to-symbol for CLASS and QCLASS.
pub proof fn lemma_class_code_round_trip(c: Class, q: QueryClass)
    ensures
        class_of_code(class_code_of(c)) == Some(c),
        query_class_of_code(query_class_code_of(q)) == Some(q),
{
}

} // verus!
