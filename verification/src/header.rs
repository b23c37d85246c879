//! The fixed 12-octet DNS header: identifier, flag word and the four
//! section counts.

use vstd::prelude::*;

use crate::bytes::{be16, read_u16};
use crate::enums::{
    opcode_code_of, opcode_of_code, response_code_code_of, response_code_of_code, Opcode,
    ResponseCode,
};
use crate::error::Error;

verus! {

/// A parsed DNS header.
///
/// The flag word is laid out, from the most significant bit: QR(1),
/// OPCODE(4), AA(1), TC(1), RD(1), RA(1), Z(1), AD(1), CD(1), RCODE(4).
/// The reserved Z bit must be zero.
#[derive(Debug, PartialEq, Eq, Structural, Clone, Copy)]
pub struct Header {
    /// The query identifier, echoed in the response
    pub id: u16,
    /// True for a query, false for a response (the QR bit, inverted)
    pub query: bool,
    /// The kind of query
    pub opcode: Opcode,
    /// The responding server is an authority for the domain (AA)
    pub authoritative: bool,
    /// The message was truncated in transport (TC)
    pub truncated: bool,
    /// The client asks the server to pursue the query recursively (RD)
    pub recursion_desired: bool,
    /// The server offers recursive resolution (RA)
    pub recursion_available: bool,
    /// All data in the response has been authenticated (AD, RFC 4035)
    pub authenticated_data: bool,
    /// The client accepts non-authenticated data (CD, RFC 4035)
    pub checking_disabled: bool,
    /// The outcome of the query
    pub response_code: ResponseCode,
    /// The number of entries in the question section
    pub questions: u16,
    /// The number of records in the answer section
    pub answers: u16,
    /// The number of records in the authority section
    pub nameservers: u16,
    /// The number of records in the additional section
    pub additional: u16,
}

/// The header read from the first 12 octets of `data`: short input is
/// refused, and so is a set Z bit.
pub open spec fn header_model(data: Seq<u8>) -> Result<Header, Error> {
    if data.len() < 12 {
        Err(Error::HeaderTooShort)
    } else {
        let flags = be16(data[2], data[3]);
        if (flags / 64) % 2 != 0 {
            Err(Error::ReservedBitsAreNonZero)
        } else {
            Ok(
                Header {
                    id: be16(data[0], data[1]),
                    query: flags < 0x8000,
                    opcode: opcode_of_code((flags / 2048) % 16),
                    authoritative: (flags / 1024) % 2 == 1,
                    truncated: (flags / 512) % 2 == 1,
                    recursion_desired: (flags / 256) % 2 == 1,
                    recursion_available: (flags / 128) % 2 == 1,
                    authenticated_data: (flags / 32) % 2 == 1,
                    checking_disabled: (flags / 16) % 2 == 1,
                    response_code: response_code_of_code((flags % 16) as u8),
                    questions: be16(data[4], data[5]),
                    answers: be16(data[6], data[7]),
                    nameservers: be16(data[8], data[9]),
                    additional: be16(data[10], data[11]),
                },
            )
        }
    }
}

impl Header {
    /// Parses the header at the front of a packet.
    pub fn parse(data: &[u8]) -> (r: Result<Header, Error>)
        ensures
            r == header_model(data@),
    {
        if data.len() < 12 {
            return Err(Error::HeaderTooShort);
        }
        let flags = read_u16(data, 2);
        if (flags / 64) % 2 != 0 {
            return Err(Error::ReservedBitsAreNonZero);
        }
        let response_code = match ResponseCode::parse(flags % 16) {
            Ok(rc) => rc,
            Err(e) => {
                return Err(e);
            },
        };
        Ok(
            Header {
                id: read_u16(data, 0),
                query: flags < 0x8000,
                opcode: Opcode::parse((flags / 2048) % 16),
                authoritative: (flags / 1024) % 2 == 1,
                truncated: (flags / 512) % 2 == 1,
                recursion_desired: (flags / 256) % 2 == 1,
                recursion_available: (flags / 128) % 2 == 1,
                authenticated_data: (flags / 32) % 2 == 1,
                checking_disabled: (flags / 16) % 2 == 1,
                response_code,
                questions: read_u16(data, 4),
                answers: read_u16(data, 6),
                nameservers: read_u16(data, 8),
                additional: read_u16(data, 10),
            },
        )
    }

    /// The size of the wire header in bytes.
    pub fn size() -> (r: usize)
        ensures
            r == 12,
    {
        12
    }
}

/// A header whose opcode and response code fit their 4-bit wire
/// fields.
pub open spec fn header_wf(h: Header) -> bool {
    opcode_code_of(h.opcode) <= 15 && response_code_code_of(h.response_code) <= 15
}

/// A header whose opcode and response code decode back to themselves:
/// no reserved symbol shadows an assigned code.
pub open spec fn header_canonical(h: Header) -> bool {
    opcode_of_code(opcode_code_of(h.opcode)) == h.opcode && response_code_of_code(
        response_code_code_of(h.response_code),
    ) == h.response_code
}

/// The flag word of a header, with the Z bit clear.
pub open spec fn flags_word(h: Header) -> u16 {
    ((if h.query {
        0int
    } else {
        0x8000int
    }) + opcode_code_of(h.opcode) * 2048 + (if h.authoritative {
        1024int
    } else {
        0int
    }) + (if h.truncated {
        512int
    } else {
        0int
    }) + (if h.recursion_desired {
        256int
    } else {
        0int
    }) + (if h.recursion_available {
        128int
    } else {
        0int
    }) + (if h.authenticated_data {
        32int
    } else {
        0int
    }) + (if h.checking_disabled {
        16int
    } else {
        0int
    }) + response_code_code_of(h.response_code) as u16) as u16
}

/// The 12 wire octets of a header.
pub open spec fn header_bytes(h: Header) -> Seq<u8> {
    seq![
        (h.id / 256) as u8,
        (h.id % 256) as u8,
        (flags_word(h) / 256) as u8,
        (flags_word(h) % 256) as u8,
        (h.questions / 256) as u8,
        (h.questions % 256) as u8,
        (h.answers / 256) as u8,
        (h.answers % 256) as u8,
        (h.nameservers / 256) as u8,
        (h.nameservers % 256) as u8,
        (h.additional / 256) as u8,
        (h.additional % 256) as u8,
    ]
}

/// Splitting the flag word back into its fields yields what was put
/// in.  Stated over the raw field values so that it can be settled by
/// bit-level reasoning.
proof fn lemma_flags_fields(q: u16, op: u16, aa: u16, tc: u16, rd: u16, ra: u16, ad: u16, cd: u16, rc: u16)
    by (bit_vector)
    requires
        q <= 1,
        op <= 15,
        aa <= 1,
        tc <= 1,
        rd <= 1,
        ra <= 1,
        ad <= 1,
        cd <= 1,
        rc <= 15,
    ensures
        ({
            let w = (q * 0x8000 + op * 2048 + aa * 1024 + tc * 512 + rd * 256 + ra * 128 + ad * 32
                + cd * 16 + rc) as u16;
            &&& (w < 0x8000 <==> q == 0)
            &&& (w / 2048) % 16 == op
            &&& (w / 1024) % 2 == aa
            &&& (w / 512) % 2 == tc
            &&& (w / 256) % 2 == rd
            &&& (w / 128) % 2 == ra
            &&& (w / 64) % 2 == 0
            &&& (w / 32) % 2 == ad
            &&& (w / 16) % 2 == cd
            &&& w % 16 == rc
        }),
{
}

/// Parsing the 12 octets written for a well-formed, canonical header
/// yields that header again, whatever follows them.
pub proof fn lemma_header_round_trip(h: Header, rest: Seq<u8>)
    requires
        header_wf(h),
        header_canonical(h),
    ensures
        header_model(header_bytes(h) + rest) == Ok::<Header, Error>(h),
{
    let data = header_bytes(h) + rest;
    assert(data.len() >= 12);
    let w = flags_word(h);
    lemma_flags_fields(
        if h.query {
            0
        } else {
            1
        },
        opcode_code_of(h.opcode),
        if h.authoritative {
            1
        } else {
            0
        },
        if h.truncated {
            1
        } else {
            0
        },
        if h.recursion_desired {
            1
        } else {
            0
        },
        if h.recursion_available {
            1
        } else {
            0
        },
        if h.authenticated_data {
            1
        } else {
            0
        },
        if h.checking_disabled {
            1
        } else {
            0
        },
        response_code_code_of(h.response_code) as u16,
    );
    assert(be16((w / 256) as u8, (w % 256) as u8) == w);
    assert(be16((h.id / 256) as u8, (h.id % 256) as u8) == h.id);
    assert(be16((h.questions / 256) as u8, (h.questions % 256) as u8) == h.questions);
    assert(be16((h.answers / 256) as u8, (h.answers % 256) as u8) == h.answers);
    assert(be16((h.nameservers / 256) as u8, (h.nameservers % 256) as u8) == h.nameservers);
    assert(be16((h.additional / 256) as u8, (h.additional % 256) as u8) == h.additional);
}

/// Appends the 12 wire octets of a header to `buf`.
pub fn write_header(h: &Header, buf: &mut Vec<u8>)
    requires
        header_wf(*h),
    ensures
        final(buf)@ == old(buf)@ + header_bytes(*h),
{
    let flags: u16 = (if h.query {
        0
    } else {
        0x8000
    }) + h.opcode.code() * 2048 + (if h.authoritative {
        1024u16
    } else {
        0
    }) + (if h.truncated {
        512u16
    } else {
        0
    }) + (if h.recursion_desired {
        256u16
    } else {
        0
    }) + (if h.recursion_available {
        128u16
    } else {
        0
    }) + (if h.authenticated_data {
        32u16
    } else {
        0
    }) + (if h.checking_disabled {
        16u16
    } else {
        0
    }) + h.response_code.code() as u16;
    crate::bytes::push_u16(buf, h.id);
    crate::bytes::push_u16(buf, flags);
    crate::bytes::push_u16(buf, h.questions);
    crate::bytes::push_u16(buf, h.answers);
    crate::bytes::push_u16(buf, h.nameservers);
    crate::bytes::push_u16(buf, h.additional);
    assert(buf@ =~= old(buf)@ + header_bytes(*h));
}

} // verus!
