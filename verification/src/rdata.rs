//! The per-TYPE resource-record payloads and their decoders.

use vstd::prelude::*;
use vstd::slice::{slice_subrange, slice_to_vec};
use vstd::string::StringExecFns;
use vstd::utf8::{decode_utf8, valid_utf8};

use crate::bytes::{be16, be32, read_u16, read_u32};
use crate::enums::Type;
use crate::error::Error;
use crate::name::{all_ascii, label_chars, scan_labels, scan_wire_len, Name};
use crate::text::{chars_of_ascii, string_from_utf8};

verus! {

/// An IPv4 address as its four octets.
#[derive(Debug, PartialEq, Eq, Structural, Clone, Copy)]
pub struct Ipv4(pub u8, pub u8, pub u8, pub u8);

/// An IPv6 address as its eight big-endian 16-bit groups.
#[derive(Debug, PartialEq, Eq, Structural, Clone, Copy)]
pub struct Ipv6(
    pub u16,
    pub u16,
    pub u16,
    pub u16,
    pub u16,
    pub u16,
    pub u16,
    pub u16,
);

impl Ipv4 {
    /// Appends the four address octets to `buf`.
    pub fn write_to(&self, buf: &mut Vec<u8>)
        ensures
            final(buf)@ == old(buf)@ + seq![self.0, self.1, self.2, self.3],
    {
        buf.push(self.0);
        buf.push(self.1);
        buf.push(self.2);
        buf.push(self.3);
        assert(buf@ =~= old(buf)@ + seq![self.0, self.1, self.2, self.3]);
    }
}

/// The start-of-authority payload (RFC 1035): two names and five
/// 32-bit timers.
#[derive(Debug)]
pub struct SoaRecord {
    /// The primary name server of the zone
    pub primary_ns: Name,
    /// The mailbox of the person responsible for the zone
    pub mailbox: Name,
    /// The version number of the zone
    pub serial: u32,
    /// The refresh interval in seconds
    pub refresh: u32,
    /// The retry interval in seconds
    pub retry: u32,
    /// The upper limit on the time the zone stays authoritative
    pub expire: u32,
    /// The minimum TTL for records of the zone
    pub minimum_ttl: u32,
}

/// The CAA property (RFC 6844): a recognized tag, or the raw pair.
#[derive(Debug, PartialEq, Eq)]
pub enum Property {
    /// Authorization to issue certificates for the domain
    Issue(String),
    /// Authorization to issue wildcard certificates
    IssueWild(String),
    /// A reporting address for policy violations
    Iodef(String),
    /// A tag this crate does not recognize, with its value
    Unknown {
        /// The property tag
        tag: String,
        /// The property value
        value: String,
    },
}

/// The certification-authority-authorization payload (RFC 6844).
#[derive(Debug)]
pub struct CaaRecord {
    /// The critical-handling flags octet
    pub flags: u8,
    /// The tagged property
    pub property: Property,
}

/// A decoded record payload, one arm per recognized TYPE, plus an
/// `Unknown` arm that keeps the raw bytes of a TYPE this crate only
/// recognizes by code.
#[derive(Debug)]
pub enum RData {
    /// An IPv4 address
    A(Ipv4),
    /// An IPv6 address
    AAAA(Ipv6),
    /// The canonical name of an alias
    CNAME(Name),
    /// An authoritative name server
    NS(Name),
    /// A pointer to another name
    PTR(Name),
    /// A mail exchange with its preference
    MX {
        /// The preference of this exchange, lower preferred
        preference: u16,
        /// The host that accepts the mail
        exchange: Name,
    },
    /// The start of a zone of authority
    SOA(SoaRecord),
    /// The location of a service (RFC 2782)
    SRV {
        /// The priority of the target host, lower preferred
        priority: u16,
        /// The relative weight among entries of equal priority
        weight: u16,
        /// The port of the service
        port: u16,
        /// The host of the service
        target: Name,
    },
    /// The concatenated text of a TXT record
    TXT(String),
    /// A certification authority authorization
    CAA(CaaRecord),
    /// The raw payload of an OPT pseudo-record
    OPT(Vec<u8>),
    /// The raw payload of a TYPE without a decoder
    Unknown(Type, Vec<u8>),
}

/// The model of a start-of-authority payload.
pub struct SoaModel {
    /// The labels of the primary name server
    pub primary_ns: Seq<Seq<u8>>,
    /// The labels of the responsible mailbox
    pub mailbox: Seq<Seq<u8>>,
    /// The version number of the zone
    pub serial: u32,
    /// The refresh interval in seconds
    pub refresh: u32,
    /// The retry interval in seconds
    pub retry: u32,
    /// The upper limit on the time the zone stays authoritative
    pub expire: u32,
    /// The minimum TTL for records of the zone
    pub minimum_ttl: u32,
}

/// The model of a CAA property.
pub enum PropertyModel {
    /// Authorization to issue certificates for the domain
    Issue(Seq<char>),
    /// Authorization to issue wildcard certificates
    IssueWild(Seq<char>),
    /// A reporting address for policy violations
    Iodef(Seq<char>),
    /// An unrecognized tag with its value
    Unknown {
        /// The property tag
        tag: Seq<char>,
        /// The property value
        value: Seq<char>,
    },
}

/// The model of a decoded record payload.
pub enum RDataModel {
    /// An IPv4 address
    A(Ipv4),
    /// An IPv6 address
    AAAA(Ipv6),
    /// The canonical name of an alias
    CNAME(Seq<Seq<u8>>),
    /// An authoritative name server
    NS(Seq<Seq<u8>>),
    /// A pointer to another name
    PTR(Seq<Seq<u8>>),
    /// A mail exchange with its preference
    MX {
        /// The preference of this exchange, lower preferred
        preference: u16,
        /// The labels of the host that accepts the mail
        exchange: Seq<Seq<u8>>,
    },
    /// The start of a zone of authority
    SOA(SoaModel),
    /// The location of a service
    SRV {
        /// The priority of the target host, lower preferred
        priority: u16,
        /// The relative weight among entries of equal priority
        weight: u16,
        /// The port of the service
        port: u16,
        /// The labels of the host of the service
        target: Seq<Seq<u8>>,
    },
    /// The concatenated text of a TXT record
    TXT(Seq<char>),
    /// A certification authority authorization
    CAA {
        /// The critical-handling flags octet
        flags: u8,
        /// The tagged property
        property: PropertyModel,
    },
    /// The raw payload of an OPT pseudo-record
    OPT(Seq<u8>),
    /// The raw payload of a TYPE without a decoder
    Unknown(Type, Seq<u8>),
}

impl View for SoaRecord {
    type V = SoaModel;

    open spec fn view(&self) -> SoaModel {
        SoaModel {
            primary_ns: self.primary_ns@,
            mailbox: self.mailbox@,
            serial: self.serial,
            refresh: self.refresh,
            retry: self.retry,
            expire: self.expire,
            minimum_ttl: self.minimum_ttl,
        }
    }
}

impl View for Property {
    type V = PropertyModel;

    open spec fn view(&self) -> PropertyModel {
        match self {
            Property::Issue(v) => PropertyModel::Issue(v@),
            Property::IssueWild(v) => PropertyModel::IssueWild(v@),
            Property::Iodef(v) => PropertyModel::Iodef(v@),
            Property::Unknown { tag, value } => PropertyModel::Unknown {
                tag: tag@,
                value: value@,
            },
        }
    }
}

impl View for RData {
    type V = RDataModel;

    open spec fn view(&self) -> RDataModel {
        match self {
            RData::A(a) => RDataModel::A(*a),
            RData::AAAA(a) => RDataModel::AAAA(*a),
            RData::CNAME(n) => RDataModel::CNAME(n@),
            RData::NS(n) => RDataModel::NS(n@),
            RData::PTR(n) => RDataModel::PTR(n@),
            RData::MX { preference, exchange } => RDataModel::MX {
                preference: *preference,
                exchange: exchange@,
            },
            RData::SOA(soa) => RDataModel::SOA(soa@),
            RData::SRV { priority, weight, port, target } => RDataModel::SRV {
                priority: *priority,
                weight: *weight,
                port: *port,
                target: target@,
            },
            RData::TXT(s) => RDataModel::TXT(s@),
            RData::CAA(caa) => RDataModel::CAA { flags: caa.flags, property: caa.property@ },
            RData::OPT(bytes) => RDataModel::OPT(bytes@),
            RData::Unknown(t, bytes) => RDataModel::Unknown(*t, bytes@),
        }
    }
}

/// The concatenated characters of the length-prefixed TXT segments of
/// `rdata` from `pos` on: each segment must lie within the buffer and
/// hold valid UTF-8.
pub open spec fn txt_chars(rdata: Seq<u8>, pos: int) -> Result<Seq<char>, Error>
    decreases rdata.len() - pos,
{
    if pos < 0 || pos >= rdata.len() {
        Ok(Seq::empty())
    } else {
        let n = rdata[pos] as int;
        if pos + 1 + n > rdata.len() {
            Err(Error::WrongRdataLength)
        } else {
            let piece = rdata.subrange(pos + 1, pos + 1 + n);
            if !valid_utf8(piece) {
                Err(Error::TxtDataIsNotUTF8)
            } else {
                match txt_chars(rdata, pos + 1 + n) {
                    Ok(rest) => Ok(decode_utf8(piece) + rest),
                    Err(e) => Err(e),
                }
            }
        }
    }
}

/// The text of a TXT payload: empty payloads are refused, the
/// segments' decoded characters are concatenated.
pub open spec fn txt_model(rdata: Seq<u8>) -> Result<Seq<char>, Error> {
    if rdata.len() < 1 {
        Err(Error::WrongRdataLength)
    } else {
        txt_chars(rdata, 0)
    }
}

/// The label-style bytes of the tag `issue`.
pub open spec fn issue_tag() -> Seq<u8> {
    seq![0x69u8, 0x73u8, 0x73u8, 0x75u8, 0x65u8]
}

/// The label-style bytes of the tag `issuewild`.
pub open spec fn issuewild_tag() -> Seq<u8> {
    seq![0x69u8, 0x73u8, 0x73u8, 0x75u8, 0x65u8, 0x77u8, 0x69u8, 0x6cu8, 0x64u8]
}

/// The label-style bytes of the tag `iodef`.
pub open spec fn iodef_tag() -> Seq<u8> {
    seq![0x69u8, 0x6fu8, 0x64u8, 0x65u8, 0x66u8]
}

/// The CAA payload of `rdata`: a flags octet, a length-prefixed ASCII
/// tag, and a UTF-8 value spanning the remainder.
pub open spec fn caa_model(rdata: Seq<u8>) -> Result<RDataModel, Error> {
    if rdata.len() < 3 {
        Err(Error::WrongRdataLength)
    } else {
        let flags = rdata[0];
        let tag_len = rdata[1] as int;
        if 2 + tag_len > rdata.len() {
            Err(Error::WrongRdataLength)
        } else {
            let tag_bytes = rdata.subrange(2, 2 + tag_len);
            if !all_ascii(tag_bytes) {
                Err(Error::LabelIsNotAscii)
            } else {
                let value_bytes = rdata.subrange(2 + tag_len, rdata.len() as int);
                if !valid_utf8(value_bytes) {
                    Err(Error::TxtDataIsNotUTF8)
                } else {
                    let value = decode_utf8(value_bytes);
                    let property = if tag_bytes == issue_tag() {
                        PropertyModel::Issue(value)
                    } else if tag_bytes == issuewild_tag() {
                        PropertyModel::IssueWild(value)
                    } else if tag_bytes == iodef_tag() {
                        PropertyModel::Iodef(value)
                    } else {
                        PropertyModel::Unknown { tag: label_chars(tag_bytes), value }
                    };
                    Ok(RDataModel::CAA { flags, property })
                }
            }
        }
    }
}

/// The payload of a record of type `typ` whose RDATA bytes are
/// `rdata`, with compression pointers resolved against `original`.
pub open spec fn rdata_model(typ: Type, rdata: Seq<u8>, original: Seq<u8>) -> Result<
    RDataModel,
    Error,
> {
    match typ {
        Type::A => {
            if rdata.len() != 4 {
                Err(Error::WrongRdataLength)
            } else {
                Ok(RDataModel::A(Ipv4(rdata[0], rdata[1], rdata[2], rdata[3])))
            }
        },
        Type::AAAA => {
            if rdata.len() != 16 {
                Err(Error::WrongRdataLength)
            } else {
                Ok(
                    RDataModel::AAAA(
                        Ipv6(
                            be16(rdata[0], rdata[1]),
                            be16(rdata[2], rdata[3]),
                            be16(rdata[4], rdata[5]),
                            be16(rdata[6], rdata[7]),
                            be16(rdata[8], rdata[9]),
                            be16(rdata[10], rdata[11]),
                            be16(rdata[12], rdata[13]),
                            be16(rdata[14], rdata[15]),
                        ),
                    ),
                )
            }
        },
        Type::CNAME => {
            match scan_labels(original, rdata, 0, original.len() as int) {
                Ok(ls) => Ok(RDataModel::CNAME(ls)),
                Err(e) => Err(e),
            }
        },
        Type::NS => {
            match scan_labels(original, rdata, 0, original.len() as int) {
                Ok(ls) => Ok(RDataModel::NS(ls)),
                Err(e) => Err(e),
            }
        },
        Type::PTR => {
            match scan_labels(original, rdata, 0, original.len() as int) {
                Ok(ls) => Ok(RDataModel::PTR(ls)),
                Err(e) => Err(e),
            }
        },
        Type::MX => {
            if rdata.len() < 3 {
                Err(Error::WrongRdataLength)
            } else {
                let sub = rdata.subrange(2, rdata.len() as int);
                match scan_labels(original, sub, 0, original.len() as int) {
                    Ok(ls) => Ok(
                        RDataModel::MX { preference: be16(rdata[0], rdata[1]), exchange: ls },
                    ),
                    Err(e) => Err(e),
                }
            }
        },
        Type::SOA => soa_model(rdata, original),
        Type::SRV => {
            if rdata.len() < 7 {
                Err(Error::WrongRdataLength)
            } else {
                let sub = rdata.subrange(6, rdata.len() as int);
                match scan_labels(original, sub, 0, original.len() as int) {
                    Ok(ls) => Ok(
                        RDataModel::SRV {
                            priority: be16(rdata[0], rdata[1]),
                            weight: be16(rdata[2], rdata[3]),
                            port: be16(rdata[4], rdata[5]),
                            target: ls,
                        },
                    ),
                    Err(e) => Err(e),
                }
            }
        },
        Type::TXT => {
            match txt_model(rdata) {
                Ok(text) => Ok(RDataModel::TXT(text)),
                Err(e) => Err(e),
            }
        },
        Type::CAA => caa_model(rdata),
        Type::OPT => Ok(RDataModel::OPT(rdata)),
        _ => Ok(RDataModel::Unknown(typ, rdata)),
    }
}

/// The start-of-authority payload of `rdata`: two names, then five
/// 32-bit fields.
pub open spec fn soa_model(rdata: Seq<u8>, original: Seq<u8>) -> Result<RDataModel, Error> {
    match scan_labels(original, rdata, 0, original.len() as int) {
        Err(e) => Err(e),
        Ok(primary) => {
            let p1 = scan_wire_len(rdata, 0);
            let sub = rdata.subrange(p1, rdata.len() as int);
            match scan_labels(original, sub, 0, original.len() as int) {
                Err(e) => Err(e),
                Ok(mailbox) => {
                    let pos = p1 + scan_wire_len(sub, 0);
                    if rdata.len() - pos < 20 {
                        Err(Error::WrongRdataLength)
                    } else {
                        Ok(
                            RDataModel::SOA(
                                SoaModel {
                                    primary_ns: primary,
                                    mailbox: mailbox,
                                    serial: be32(
                                        rdata[pos],
                                        rdata[pos + 1],
                                        rdata[pos + 2],
                                        rdata[pos + 3],
                                    ),
                                    refresh: be32(
                                        rdata[pos + 4],
                                        rdata[pos + 5],
                                        rdata[pos + 6],
                                        rdata[pos + 7],
                                    ),
                                    retry: be32(
                                        rdata[pos + 8],
                                        rdata[pos + 9],
                                        rdata[pos + 10],
                                        rdata[pos + 11],
                                    ),
                                    expire: be32(
                                        rdata[pos + 12],
                                        rdata[pos + 13],
                                        rdata[pos + 14],
                                        rdata[pos + 15],
                                    ),
                                    minimum_ttl: be32(
                                        rdata[pos + 16],
                                        rdata[pos + 17],
                                        rdata[pos + 18],
                                        rdata[pos + 19],
                                    ),
                                },
                            ),
                        )
                    }
                },
            }
        },
    }
}

/// The TYPE that a payload answers to.
pub open spec fn rdata_model_type(m: RDataModel) -> Type {
    match m {
        RDataModel::A(..) => Type::A,
        RDataModel::AAAA(..) => Type::AAAA,
        RDataModel::CNAME(..) => Type::CNAME,
        RDataModel::NS(..) => Type::NS,
        RDataModel::PTR(..) => Type::PTR,
        RDataModel::MX { .. } => Type::MX,
        RDataModel::SOA(..) => Type::SOA,
        RDataModel::SRV { .. } => Type::SRV,
        RDataModel::TXT(..) => Type::TXT,
        RDataModel::CAA { .. } => Type::CAA,
        RDataModel::OPT(..) => Type::OPT,
        RDataModel::Unknown(t, _) => t,
    }
}

impl RData {
    /// Decodes the RDATA bytes of a record of type `typ`; `original`
    /// is the whole packet, for compression pointers inside names.
    ///
    /// Succeeds exactly where the `rdata_model` does, with the same
    /// payload, and returns the model's error otherwise.
    pub fn parse(typ: Type, rdata: &[u8], original: &[u8]) -> (r: Result<RData, Error>)
        ensures
            match r {
                Ok(v) => rdata_model(typ, rdata@, original@) == Ok::<RDataModel, Error>(v@),
                Err(e) => rdata_model(typ, rdata@, original@) == Err::<RDataModel, Error>(e),
            },
    {
        match typ {
            Type::A => {
                if rdata.len() != 4 {
                    return Err(Error::WrongRdataLength);
                }
                Ok(RData::A(Ipv4(rdata[0], rdata[1], rdata[2], rdata[3])))
            },
            Type::AAAA => {
                if rdata.len() != 16 {
                    return Err(Error::WrongRdataLength);
                }
                Ok(
                    RData::AAAA(
                        Ipv6(
                            read_u16(rdata, 0),
                            read_u16(rdata, 2),
                            read_u16(rdata, 4),
                            read_u16(rdata, 6),
                            read_u16(rdata, 8),
                            read_u16(rdata, 10),
                            read_u16(rdata, 12),
                            read_u16(rdata, 14),
                        ),
                    ),
                )
            },
            Type::CNAME => {
                match Name::scan(rdata, original) {
                    Ok(n) => Ok(RData::CNAME(n)),
                    Err(e) => Err(e),
                }
            },
            Type::NS => {
                match Name::scan(rdata, original) {
                    Ok(n) => Ok(RData::NS(n)),
                    Err(e) => Err(e),
                }
            },
            Type::PTR => {
                match Name::scan(rdata, original) {
                    Ok(n) => Ok(RData::PTR(n)),
                    Err(e) => Err(e),
                }
            },
            Type::MX => {
                if rdata.len() < 3 {
                    return Err(Error::WrongRdataLength);
                }
                let preference = read_u16(rdata, 0);
                match Name::scan(slice_subrange(rdata, 2, rdata.len()), original) {
                    Ok(n) => Ok(RData::MX { preference, exchange: n }),
                    Err(e) => Err(e),
                }
            },
            Type::SOA => Self::parse_soa(rdata, original),
            Type::SRV => {
                if rdata.len() < 7 {
                    return Err(Error::WrongRdataLength);
                }
                let priority = read_u16(rdata, 0);
                let weight = read_u16(rdata, 2);
                let port = read_u16(rdata, 4);
                match Name::scan(slice_subrange(rdata, 6, rdata.len()), original) {
                    Ok(n) => Ok(RData::SRV { priority, weight, port, target: n }),
                    Err(e) => Err(e),
                }
            },
            Type::TXT => Self::parse_txt(rdata),
            Type::CAA => Self::parse_caa(rdata),
            Type::OPT => Ok(RData::OPT(slice_to_vec(rdata))),
            _ => Ok(RData::Unknown(typ, slice_to_vec(rdata))),
        }
    }

    /// Decodes a start-of-authority payload.
    fn parse_soa(rdata: &[u8], original: &[u8]) -> (r: Result<RData, Error>)
        ensures
            match r {
                Ok(v) => soa_model(rdata@, original@) == Ok::<RDataModel, Error>(v@),
                Err(e) => soa_model(rdata@, original@) == Err::<RDataModel, Error>(e),
            },
    {
        let primary_ns = match Name::scan(rdata, original) {
            Ok(n) => n,
            Err(e) => {
                return Err(e);
            },
        };
        let p1 = primary_ns.byte_len();
        let mailbox = match Name::scan(slice_subrange(rdata, p1, rdata.len()), original) {
            Ok(n) => n,
            Err(e) => {
                return Err(e);
            },
        };
        let pos = p1 + mailbox.byte_len();
        if rdata.len() - pos < 20 {
            return Err(Error::WrongRdataLength);
        }
        Ok(
            RData::SOA(
                SoaRecord {
                    primary_ns,
                    mailbox,
                    serial: read_u32(rdata, pos),
                    refresh: read_u32(rdata, pos + 4),
                    retry: read_u32(rdata, pos + 8),
                    expire: read_u32(rdata, pos + 12),
                    minimum_ttl: read_u32(rdata, pos + 16),
                },
            ),
        )
    }

    /// Decodes a TXT payload: length-prefixed segments, concatenated.
    fn parse_txt(rdata: &[u8]) -> (r: Result<RData, Error>)
        ensures
            match r {
                Ok(v) => txt_model(rdata@) is Ok && v@ == RDataModel::TXT(
                    txt_model(rdata@).unwrap(),
                ),
                Err(e) => txt_model(rdata@) == Err::<Seq<char>, Error>(e),
            },
    {
        let len = rdata.len();
        if len < 1 {
            return Err(Error::WrongRdataLength);
        }
        let mut text = String::new();
        let mut pos: usize = 0;
        while pos < len
            invariant
                len == rdata@.len() <= usize::MAX,
                pos <= len,
                txt_chars(rdata@, 0) == (match txt_chars(rdata@, pos as int) {
                    Ok(rest) => Ok::<Seq<char>, Error>(text@ + rest),
                    Err(e) => Err::<Seq<char>, Error>(e),
                }),
            decreases len - pos,
        {
            let n = rdata[pos] as usize;
            if len - (pos + 1) < n {
                return Err(Error::WrongRdataLength);
            }
            let ghost opos = pos as int;
            let ghost otext = text@;
            let piece = slice_to_vec(slice_subrange(rdata, pos + 1, pos + 1 + n));
            match string_from_utf8(piece) {
                Some(s) => {
                    text.append(s.as_str());
                },
                None => {
                    return Err(Error::TxtDataIsNotUTF8);
                },
            }
            pos = pos + 1 + n;
            proof {
                let piece_seq = decode_utf8(rdata@.subrange(opos + 1, opos + 1 + n));
                match txt_chars(rdata@, pos as int) {
                    Ok(rest) => {
                        assert(otext + (piece_seq + rest) =~= text@ + rest);
                    },
                    Err(_) => {},
                }
            }
        }
        proof {
            assert(txt_chars(rdata@, pos as int) == Ok::<Seq<char>, Error>(Seq::<char>::empty()));
            assert(text@ + Seq::<char>::empty() =~= text@);
        }
        Ok(RData::TXT(text))
    }

    /// Decodes a CAA payload: flags, tag, value.
    fn parse_caa(rdata: &[u8]) -> (r: Result<RData, Error>)
        ensures
            match r {
                Ok(v) => caa_model(rdata@) == Ok::<RDataModel, Error>(v@),
                Err(e) => caa_model(rdata@) == Err::<RDataModel, Error>(e),
            },
    {
        if rdata.len() < 3 {
            return Err(Error::WrongRdataLength);
        }
        let flags = rdata[0];
        let tag_len = rdata[1] as usize;
        if rdata.len() - 2 < tag_len {
            return Err(Error::WrongRdataLength);
        }
        let tag_bytes = slice_subrange(rdata, 2, 2 + tag_len);
        if !crate::name::check_ascii(tag_bytes) {
            return Err(Error::LabelIsNotAscii);
        }
        let value_bytes = slice_to_vec(slice_subrange(rdata, 2 + tag_len, rdata.len()));
        let value = match string_from_utf8(value_bytes) {
            Some(s) => s,
            None => {
                return Err(Error::TxtDataIsNotUTF8);
            },
        };
        let property = if is_issue_tag(tag_bytes) {
            Property::Issue(value)
        } else if is_issuewild_tag(tag_bytes) {
            Property::IssueWild(value)
        } else if is_iodef_tag(tag_bytes) {
            Property::Iodef(value)
        } else {
            Property::Unknown { tag: chars_of_ascii(tag_bytes), value }
        };
        Ok(RData::CAA(CaaRecord { flags, property }))
    }

    /// The TYPE this payload answers to.
    pub fn type_code(&self) -> (r: Type)
        ensures
            r == rdata_model_type(self@),
    {
        match self {
            RData::A(..) => Type::A,
            RData::AAAA(..) => Type::AAAA,
            RData::CNAME(..) => Type::CNAME,
            RData::NS(..) => Type::NS,
            RData::PTR(..) => Type::PTR,
            RData::MX { .. } => Type::MX,
            RData::SOA(..) => Type::SOA,
            RData::SRV { .. } => Type::SRV,
            RData::TXT(..) => Type::TXT,
            RData::CAA(..) => Type::CAA,
            RData::OPT(..) => Type::OPT,
            RData::Unknown(t, _) => *t,
        }
    }
}

/// Decides whether the bytes spell `issue`.
fn is_issue_tag(a: &[u8]) -> (r: bool)
    ensures
        r == (a@ == issue_tag()),
{
    let r = a.len() == 5 && a[0] == 0x69 && a[1] == 0x73 && a[2] == 0x73 && a[3] == 0x75 && a[4]
        == 0x65;
    proof {
        if r {
            assert(a@ =~= issue_tag());
        } else {
            assert(a@ != issue_tag());
        }
    }
    r
}

/// Decides whether the bytes spell `issuewild`.
fn is_issuewild_tag(a: &[u8]) -> (r: bool)
    ensures
        r == (a@ == issuewild_tag()),
{
    let r = a.len() == 9 && a[0] == 0x69 && a[1] == 0x73 && a[2] == 0x73 && a[3] == 0x75 && a[4]
        == 0x65 && a[5] == 0x77 && a[6] == 0x69 && a[7] == 0x6c && a[8] == 0x64;
    proof {
        if r {
            assert(a@ =~= issuewild_tag());
        } else {
            assert(a@ != issuewild_tag());
        }
    }
    r
}

/// Decides whether the bytes spell `iodef`.
fn is_iodef_tag(a: &[u8]) -> (r: bool)
    ensures
        r == (a@ == iodef_tag()),
{
    let r = a.len() == 5 && a[0] == 0x69 && a[1] == 0x6f && a[2] == 0x64 && a[3] == 0x65 && a[4]
        == 0x66;
    proof {
        if r {
            assert(a@ =~= iodef_tag());
        } else {
            assert(a@ != iodef_tag());
        }
    }
    r
}

} // verus!
