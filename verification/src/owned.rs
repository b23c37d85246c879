//! Owned counterparts of the parsed tree: names flattened to dotted
//! strings and payload bytes copied, so the result outlives the input
//! buffer.

use vstd::prelude::*;
use vstd::slice::slice_to_vec;

use crate::bytes::{be16_bytes, push_u16};
use crate::enums::{Class, QueryClass, QueryType, Type};
use crate::header::Header;
use crate::name::name_text;
use crate::rdata::{Ipv4, Ipv6, Property, PropertyModel, RData, RDataModel};
use crate::structs::{
    OptModel, OptRecord, Packet, PacketModel, Question, QuestionModel, RecordModel, ResourceRecord,
};

verus! {

/// The owned analogue of a start-of-authority payload.
#[derive(Debug)]
pub struct SoaRecordBuf {
    /// The dotted text of the primary name server
    pub primary_ns: String,
    /// The dotted text of the responsible mailbox
    pub mailbox: String,
    /// The version number of the zone
    pub serial: u32,
    /// The refresh interval in seconds
    pub refresh: u32,
    /// The retry interval in seconds
    pub retry: u32,
    /// The upper limit on the time the zone stays authoritative
    pub expire: u32,
    /// The minimum TTL for records of the zone
    pub minimum_ttl: u32,
}

/// The owned analogue of a record payload: names flattened to dotted
/// strings, bytes copied.
#[derive(Debug)]
pub enum RDataBuf {
    /// An IPv4 address
    A(Ipv4),
    /// An IPv6 address
    AAAA(Ipv6),
    /// The dotted text of the canonical name of an alias
    CNAME(String),
    /// The dotted text of an authoritative name server
    NS(String),
    /// The dotted text of a pointer to another name
    PTR(String),
    /// A mail exchange with its preference
    MX {
        /// The preference of this exchange, lower preferred
        preference: u16,
        /// The dotted text of the host that accepts the mail
        exchange: String,
    },
    /// The start of a zone of authority
    SOA(SoaRecordBuf),
    /// The location of a service
    SRV {
        /// The priority of the target host, lower preferred
        priority: u16,
        /// The relative weight among entries of equal priority
        weight: u16,
        /// The port of the service
        port: u16,
        /// The dotted text of the host of the service
        target: String,
    },
    /// The concatenated text of a TXT record
    TXT(String),
    /// A certification authority authorization
    CAA {
        /// The critical-handling flags octet
        flags: u8,
        /// The tagged property
        property: Property,
    },
    /// The raw payload of an OPT pseudo-record
    OPT(Vec<u8>),
    /// The raw payload of a TYPE without a decoder
    Unknown(Type, Vec<u8>),
}

/// The owned analogue of a question.
#[derive(Debug)]
pub struct QuestionBuf {
    /// The dotted text of the name asked about
    pub qname: String,
    /// The multicast-DNS unicast-response bit of the class field
    pub prefer_unicast: bool,
    /// The kind of records asked for
    pub qtype: QueryType,
    /// The class asked about
    pub qclass: QueryClass,
}

/// The owned analogue of a resource record.
#[derive(Debug)]
pub struct ResourceRecordBuf {
    /// The dotted text of the name the record is about
    pub name: String,
    /// The multicast-DNS cache-flush bit of the class field
    pub multicast_unique: bool,
    /// The class of the record
    pub cls: Class,
    /// The time to live in seconds, clamped as on the borrowed record
    pub ttl: u32,
    /// The owned payload
    pub data: RDataBuf,
}

/// The owned analogue of the OPT pseudo-record.
#[derive(Debug)]
pub struct RecordBuf {
    /// The sender's maximum UDP payload size (the class field)
    pub udp: u16,
    /// The upper bits of the extended response code
    pub extrcode: u8,
    /// The EDNS version
    pub version: u8,
    /// The EDNS flag word
    pub flags: u16,
    /// The owned options payload
    pub data: RDataBuf,
}

/// The owned analogue of a packet.
#[derive(Debug)]
pub struct PacketBuf {
    /// The fixed header
    pub header: Header,
    /// The question section, in wire order
    pub questions: Vec<QuestionBuf>,
    /// The answer section, in wire order
    pub answers: Vec<ResourceRecordBuf>,
    /// The authority section, in wire order
    pub nameservers: Vec<ResourceRecordBuf>,
    /// The additional section, in wire order, without the OPT record
    pub additional: Vec<ResourceRecordBuf>,
    /// The OPT pseudo-record lifted out of the additional section
    pub opt: Option<RecordBuf>,
}

/// The model of an owned payload: names as their dotted text.
pub enum RDataTextModel {
    /// An IPv4 address
    A(Ipv4),
    /// An IPv6 address
    AAAA(Ipv6),
    /// The dotted text of the canonical name of an alias
    CNAME(Seq<char>),
    /// The dotted text of an authoritative name server
    NS(Seq<char>),
    /// The dotted text of a pointer to another name
    PTR(Seq<char>),
    /// A mail exchange with its preference
    MX {
        /// The preference of this exchange, lower preferred
        preference: u16,
        /// The dotted text of the host that accepts the mail
        exchange: Seq<char>,
    },
    /// The start of a zone of authority
    SOA {
        /// The dotted text of the primary name server
        primary_ns: Seq<char>,
        /// The dotted text of the responsible mailbox
        mailbox: Seq<char>,
        /// The version number of the zone
        serial: u32,
        /// The refresh interval in seconds
        refresh: u32,
        /// The retry interval in seconds
        retry: u32,
        /// The upper limit on the time the zone stays authoritative
        expire: u32,
        /// The minimum TTL for records of the zone
        minimum_ttl: u32,
    },
    /// The location of a service
    SRV {
        /// The priority of the target host, lower preferred
        priority: u16,
        /// The relative weight among entries of equal priority
        weight: u16,
        /// The port of the service
        port: u16,
        /// The dotted text of the host of the service
        target: Seq<char>,
    },
    /// The concatenated text of a TXT record
    TXT(Seq<char>),
    /// A certification authority authorization
    CAA {
        /// The critical-handling flags octet
        flags: u8,
        /// The tagged property
        property: PropertyModel,
    },
    /// The raw payload of an OPT pseudo-record
    OPT(Seq<u8>),
    /// The raw payload of a TYPE without a decoder
    Unknown(Type, Seq<u8>),
}

/// The model of an owned question.
pub struct QuestionTextModel {
    /// The dotted text of the name asked about
    pub qname: Seq<char>,
    /// The multicast-DNS unicast-response bit of the class field
    pub prefer_unicast: bool,
    /// The kind of records asked for
    pub qtype: QueryType,
    /// The class asked about
    pub qclass: QueryClass,
}

/// The model of an owned resource record.
pub struct RecordTextModel {
    /// The dotted text of the name the record is about
    pub name: Seq<char>,
    /// The multicast-DNS cache-flush bit of the class field
    pub multicast_unique: bool,
    /// The class of the record
    pub cls: Class,
    /// The time to live in seconds
    pub ttl: u32,
    /// The owned payload
    pub data: RDataTextModel,
}

/// The model of an owned OPT record.
pub struct OptTextModel {
    /// The sender's maximum UDP payload size (the class field)
    pub udp: u16,
    /// The upper bits of the extended response code
    pub extrcode: u8,
    /// The EDNS version
    pub version: u8,
    /// The EDNS flag word
    pub flags: u16,
    /// The owned options payload
    pub data: RDataTextModel,
}

/// The model of an owned packet.
pub struct PacketTextModel {
    /// The fixed header
    pub header: Header,
    /// The question section, in wire order
    pub questions: Seq<QuestionTextModel>,
    /// The answer section, in wire order
    pub answers: Seq<RecordTextModel>,
    /// The authority section, in wire order
    pub nameservers: Seq<RecordTextModel>,
    /// The additional section, in wire order, without the OPT record
    pub additional: Seq<RecordTextModel>,
    /// The OPT pseudo-record lifted out of the additional section
    pub opt: Option<OptTextModel>,
}

impl View for RDataBuf {
    type V = RDataTextModel;

    open spec fn view(&self) -> RDataTextModel {
        match self {
            RDataBuf::A(a) => RDataTextModel::A(*a),
            RDataBuf::AAAA(a) => RDataTextModel::AAAA(*a),
            RDataBuf::CNAME(n) => RDataTextModel::CNAME(n@),
            RDataBuf::NS(n) => RDataTextModel::NS(n@),
            RDataBuf::PTR(n) => RDataTextModel::PTR(n@),
            RDataBuf::MX { preference, exchange } => RDataTextModel::MX {
                preference: *preference,
                exchange: exchange@,
            },
            RDataBuf::SOA(soa) => RDataTextModel::SOA {
                primary_ns: soa.primary_ns@,
                mailbox: soa.mailbox@,
                serial: soa.serial,
                refresh: soa.refresh,
                retry: soa.retry,
                expire: soa.expire,
                minimum_ttl: soa.minimum_ttl,
            },
            RDataBuf::SRV { priority, weight, port, target } => RDataTextModel::SRV {
                priority: *priority,
                weight: *weight,
                port: *port,
                target: target@,
            },
            RDataBuf::TXT(s) => RDataTextModel::TXT(s@),
            RDataBuf::CAA { flags, property } => RDataTextModel::CAA {
                flags: *flags,
                property: property@,
            },
            RDataBuf::OPT(bytes) => RDataTextModel::OPT(bytes@),
            RDataBuf::Unknown(t, bytes) => RDataTextModel::Unknown(*t, bytes@),
        }
    }
}

impl View for QuestionBuf {
    type V = QuestionTextModel;

    open spec fn view(&self) -> QuestionTextModel {
        QuestionTextModel {
            qname: self.qname@,
            prefer_unicast: self.prefer_unicast,
            qtype: self.qtype,
            qclass: self.qclass,
        }
    }
}

impl View for ResourceRecordBuf {
    type V = RecordTextModel;

    open spec fn view(&self) -> RecordTextModel {
        RecordTextModel {
            name: self.name@,
            multicast_unique: self.multicast_unique,
            cls: self.cls,
            ttl: self.ttl,
            data: self.data@,
        }
    }
}

impl View for RecordBuf {
    type V = OptTextModel;

    open spec fn view(&self) -> OptTextModel {
        OptTextModel {
            udp: self.udp,
            extrcode: self.extrcode,
            version: self.version,
            flags: self.flags,
            data: self.data@,
        }
    }
}

impl View for PacketBuf {
    type V = PacketTextModel;

    open spec fn view(&self) -> PacketTextModel {
        PacketTextModel {
            header: self.header,
            questions: Seq::new(self.questions@.len(), |i: int| self.questions@[i]@),
            answers: Seq::new(self.answers@.len(), |i: int| self.answers@[i]@),
            nameservers: Seq::new(self.nameservers@.len(), |i: int| self.nameservers@[i]@),
            additional: Seq::new(self.additional@.len(), |i: int| self.additional@[i]@),
            opt: match self.opt {
                Some(o) => Some(o@),
                None => None,
            },
        }
    }
}

/// The owned text of a borrowed payload: each name rendered as its
/// dotted text, everything else kept.
pub open spec fn rdata_text_of(m: RDataModel) -> RDataTextModel {
    match m {
        RDataModel::A(a) => RDataTextModel::A(a),
        RDataModel::AAAA(a) => RDataTextModel::AAAA(a),
        RDataModel::CNAME(n) => RDataTextModel::CNAME(name_text(n)),
        RDataModel::NS(n) => RDataTextModel::NS(name_text(n)),
        RDataModel::PTR(n) => RDataTextModel::PTR(name_text(n)),
        RDataModel::MX { preference, exchange } => RDataTextModel::MX {
            preference,
            exchange: name_text(exchange),
        },
        RDataModel::SOA(soa) => RDataTextModel::SOA {
            primary_ns: name_text(soa.primary_ns),
            mailbox: name_text(soa.mailbox),
            serial: soa.serial,
            refresh: soa.refresh,
            retry: soa.retry,
            expire: soa.expire,
            minimum_ttl: soa.minimum_ttl,
        },
        RDataModel::SRV { priority, weight, port, target } => RDataTextModel::SRV {
            priority,
            weight,
            port,
            target: name_text(target),
        },
        RDataModel::TXT(s) => RDataTextModel::TXT(s),
        RDataModel::CAA { flags, property } => RDataTextModel::CAA { flags, property },
        RDataModel::OPT(bytes) => RDataTextModel::OPT(bytes),
        RDataModel::Unknown(t, bytes) => RDataTextModel::Unknown(t, bytes),
    }
}

/// The owned text of a borrowed question.
pub open spec fn question_text_of(m: QuestionModel) -> QuestionTextModel {
    QuestionTextModel {
        qname: name_text(m.qname),
        prefer_unicast: m.prefer_unicast,
        qtype: m.qtype,
        qclass: m.qclass,
    }
}

/// The owned text of a borrowed resource record.
pub open spec fn record_text_of(m: RecordModel) -> RecordTextModel {
    RecordTextModel {
        name: name_text(m.name),
        multicast_unique: m.multicast_unique,
        cls: m.cls,
        ttl: m.ttl,
        data: rdata_text_of(m.data),
    }
}

/// The owned text of a borrowed OPT record.
pub open spec fn opt_text_of(m: OptModel) -> OptTextModel {
    OptTextModel {
        udp: m.udp,
        extrcode: m.extrcode,
        version: m.version,
        flags: m.flags,
        data: rdata_text_of(m.data),
    }
}

/// The owned text of a borrowed packet.
pub open spec fn packet_text_of(m: PacketModel) -> PacketTextModel {
    PacketTextModel {
        header: m.header,
        questions: m.questions.map_values(|q: QuestionModel| question_text_of(q)),
        answers: m.answers.map_values(|r: RecordModel| record_text_of(r)),
        nameservers: m.nameservers.map_values(|r: RecordModel| record_text_of(r)),
        additional: m.additional.map_values(|r: RecordModel| record_text_of(r)),
        opt: match m.opt {
            Some(o) => Some(opt_text_of(o)),
            None => None,
        },
    }
}

/// Copies a byte vector.
fn clone_bytes(v: &Vec<u8>) -> (r: Vec<u8>)
    ensures
        r@ == v@,
{
    slice_to_vec(v.as_slice())
}

/// Copies a CAA property.
fn clone_property(p: &Property) -> (r: Property)
    ensures
        r@ == p@,
{
    match p {
        Property::Issue(v) => Property::Issue(v.clone()),
        Property::IssueWild(v) => Property::IssueWild(v.clone()),
        Property::Iodef(v) => Property::Iodef(v.clone()),
        Property::Unknown { tag, value } => Property::Unknown {
            tag: tag.clone(),
            value: value.clone(),
        },
    }
}

impl RData {
    /// Makes a fully owned copy, rendering names as dotted text.
    pub fn deep_clone(&self) -> (r: RDataBuf)
        ensures
            r@ == rdata_text_of(self@),
    {
        match self {
            RData::A(a) => RDataBuf::A(*a),
            RData::AAAA(a) => RDataBuf::AAAA(*a),
            RData::CNAME(n) => RDataBuf::CNAME(n.to_text()),
            RData::NS(n) => RDataBuf::NS(n.to_text()),
            RData::PTR(n) => RDataBuf::PTR(n.to_text()),
            RData::MX { preference, exchange } => RDataBuf::MX {
                preference: *preference,
                exchange: exchange.to_text(),
            },
            RData::SOA(soa) => RDataBuf::SOA(
                SoaRecordBuf {
                    primary_ns: soa.primary_ns.to_text(),
                    mailbox: soa.mailbox.to_text(),
                    serial: soa.serial,
                    refresh: soa.refresh,
                    retry: soa.retry,
                    expire: soa.expire,
                    minimum_ttl: soa.minimum_ttl,
                },
            ),
            RData::SRV { priority, weight, port, target } => RDataBuf::SRV {
                priority: *priority,
                weight: *weight,
                port: *port,
                target: target.to_text(),
            },
            RData::TXT(s) => RDataBuf::TXT(s.clone()),
            RData::CAA(caa) => RDataBuf::CAA {
                flags: caa.flags,
                property: clone_property(&caa.property),
            },
            RData::OPT(bytes) => RDataBuf::OPT(clone_bytes(bytes)),
            RData::Unknown(t, bytes) => RDataBuf::Unknown(*t, clone_bytes(bytes)),
        }
    }
}

impl Question {
    /// Makes a fully owned copy, rendering the name as dotted text.
    pub fn deep_clone(&self) -> (r: QuestionBuf)
        ensures
            r@ == question_text_of(self@),
    {
        QuestionBuf {
            qname: self.qname.to_text(),
            prefer_unicast: self.prefer_unicast,
            qtype: self.qtype,
            qclass: self.qclass,
        }
    }
}

impl ResourceRecord {
    /// Makes a fully owned copy, rendering names as dotted text.
    pub fn deep_clone(&self) -> (r: ResourceRecordBuf)
        ensures
            r@ == record_text_of(self@),
    {
        ResourceRecordBuf {
            name: self.name.to_text(),
            multicast_unique: self.multicast_unique,
            cls: self.cls,
            ttl: self.ttl,
            data: self.data.deep_clone(),
        }
    }
}

impl OptRecord {
    /// Makes a fully owned copy.
    pub fn deep_clone(&self) -> (r: RecordBuf)
        ensures
            r@ == opt_text_of(self@),
    {
        RecordBuf {
            udp: self.udp,
            extrcode: self.extrcode,
            version: self.version,
            flags: self.flags,
            data: self.data.deep_clone(),
        }
    }
}

impl Packet {
    /// Makes a fully owned, editable copy of the whole packet.
    pub fn deep_clone(&self) -> (r: PacketBuf)
        ensures
            r@ == packet_text_of(self@),
    {
        let questions = clone_questions(&self.questions);
        let answers = clone_records(&self.answers);
        let nameservers = clone_records(&self.nameservers);
        let additional = clone_records(&self.additional);
        let opt = match &self.opt {
            Some(o) => Some(o.deep_clone()),
            None => None,
        };
        let r = PacketBuf {
            header: self.header,
            questions,
            answers,
            nameservers,
            additional,
            opt,
        };
        proof {
            assert(r@.questions =~= packet_text_of(self@).questions);
            assert(r@.answers =~= packet_text_of(self@).answers);
            assert(r@.nameservers =~= packet_text_of(self@).nameservers);
            assert(r@.additional =~= packet_text_of(self@).additional);
        }
        r
    }
}

/// Copies a question section.
fn clone_questions(qs: &Vec<Question>) -> (r: Vec<QuestionBuf>)
    ensures
        r@.len() == qs@.len(),
        forall|i: int| 0 <= i < qs@.len() ==> (#[trigger] r@[i])@ == question_text_of(qs@[i]@),
{
    let mut out: Vec<QuestionBuf> = Vec::new();
    let n = qs.len();
    for i in 0..n
        invariant
            n == qs@.len(),
            out@.len() == i,
            forall|k: int| 0 <= k < i ==> (#[trigger] out@[k])@ == question_text_of(qs@[k]@),
    {
        let q = qs[i].deep_clone();
        out.push(q);
    }
    out
}

/// Copies a record section.
fn clone_records(rs: &Vec<ResourceRecord>) -> (r: Vec<ResourceRecordBuf>)
    ensures
        r@.len() == rs@.len(),
        forall|i: int| 0 <= i < rs@.len() ==> (#[trigger] r@[i])@ == record_text_of(rs@[i]@),
{
    let mut out: Vec<ResourceRecordBuf> = Vec::new();
    let n = rs.len();
    for i in 0..n
        invariant
            n == rs@.len(),
            out@.len() == i,
            forall|k: int| 0 <= k < i ==> (#[trigger] out@[k])@ == record_text_of(rs@[k]@),
    {
        let rec = rs[i].deep_clone();
        out.push(rec);
    }
    out
}

/// The raw payload bytes an owned OPT record writes as its RDATA.
pub open spec fn opt_payload(d: RDataTextModel) -> Seq<u8> {
    match d {
        RDataTextModel::OPT(bytes) => bytes,
        RDataTextModel::Unknown(_, bytes) => bytes,
        _ => Seq::empty(),
    }
}

impl RecordBuf {
    /// Appends the wire form of the OPT pseudo-record: a root name,
    /// TYPE 41, the maximum UDP size as the class, the extended rcode,
    /// version and flags as the TTL, and the raw payload.
    pub fn write_to(&self, buf: &mut Vec<u8>)
        requires
            opt_payload(self@.data).len() <= 0xFFFF,
        ensures
            final(buf)@ == old(buf)@ + seq![0u8] + be16_bytes(41) + be16_bytes(self.udp) + seq![
                self.extrcode,
                self.version,
            ] + be16_bytes(self.flags) + be16_bytes(opt_payload(self@.data).len() as u16)
                + opt_payload(self@.data),
    {
        buf.push(0);
        push_u16(buf, 41);
        push_u16(buf, self.udp);
        buf.push(self.extrcode);
        buf.push(self.version);
        push_u16(buf, self.flags);
        match &self.data {
            RDataBuf::OPT(bytes) => {
                push_u16(buf, bytes.len() as u16);
                push_bytes(buf, bytes);
            },
            RDataBuf::Unknown(_, bytes) => {
                push_u16(buf, bytes.len() as u16);
                push_bytes(buf, bytes);
            },
            _ => {
                push_u16(buf, 0);
                proof {
                    assert(opt_payload(self@.data) =~= Seq::<u8>::empty());
                }
            },
        }
        proof {
            assert(buf@ =~= old(buf)@ + seq![0u8] + be16_bytes(41) + be16_bytes(self.udp) + seq![
                self.extrcode,
                self.version,
            ] + be16_bytes(self.flags) + be16_bytes(opt_payload(self@.data).len() as u16)
                + opt_payload(self@.data));
        }
    }
}

/// Appends every byte of a vector.
fn push_bytes(buf: &mut Vec<u8>, bytes: &Vec<u8>)
    ensures
        final(buf)@ == old(buf)@ + bytes@,
{
    let n = bytes.len();
    for i in 0..n
        invariant
            n == bytes@.len(),
            buf@ == old(buf)@ + bytes@.take(i as int),
    {
        let b = bytes[i];
        buf.push(b);
        proof {
            assert(bytes@.take(i + 1) =~= bytes@.take(i as int).push(bytes@[i as int]));
        }
    }
    proof {
        assert(bytes@.take(n as int) =~= bytes@);
    }
}

} // verus!
