//! The typed message tree: questions, resource records, the OPT
//! pseudo-record, and the packet that gathers them.

use vstd::prelude::*;

use crate::enums::{Class, QueryClass, QueryType};
use crate::header::Header;
use crate::name::Name;
use crate::rdata::{RData, RDataModel};

verus! {

/// One entry of the question section.
#[derive(Debug)]
pub struct Question {
    /// The name asked about
    pub qname: Name,
    /// The multicast-DNS unicast-response bit of the class field
    pub prefer_unicast: bool,
    /// The kind of records asked for
    pub qtype: QueryType,
    /// The class asked about
    pub qclass: QueryClass,
}

/// The model of a question.
pub struct QuestionModel {
    /// The labels of the name asked about
    pub qname: Seq<Seq<u8>>,
    /// The multicast-DNS unicast-response bit of the class field
    pub prefer_unicast: bool,
    /// The kind of records asked for
    pub qtype: QueryType,
    /// The class asked about
    pub qclass: QueryClass,
}

impl View for Question {
    type V = QuestionModel;

    open spec fn view(&self) -> QuestionModel {
        QuestionModel {
            qname: self.qname@,
            prefer_unicast: self.prefer_unicast,
            qtype: self.qtype,
            qclass: self.qclass,
        }
    }
}

/// One resource record of the answer, authority or additional section.
#[derive(Debug)]
pub struct ResourceRecord {
    /// The name the record is about
    pub name: Name,
    /// The multicast-DNS cache-flush bit of the class field
    pub multicast_unique: bool,
    /// The class of the record
    pub cls: Class,
    /// The time to live in seconds, clamped to zero when the wire
    /// value exceeds the signed 32-bit range (RFC 2181)
    pub ttl: u32,
    /// The decoded payload
    pub data: RData,
}

/// The model of a resource record.
pub struct RecordModel {
    /// The labels of the name the record is about
    pub name: Seq<Seq<u8>>,
    /// The multicast-DNS cache-flush bit of the class field
    pub multicast_unique: bool,
    /// The class of the record
    pub cls: Class,
    /// The time to live in seconds, clamped as on the record
    pub ttl: u32,
    /// The decoded payload
    pub data: RDataModel,
}

impl View for ResourceRecord {
    type V = RecordModel;

    open spec fn view(&self) -> RecordModel {
        RecordModel {
            name: self.name@,
            multicast_unique: self.multicast_unique,
            cls: self.cls,
            ttl: self.ttl,
            data: self.data@,
        }
    }
}

/// The EDNS0 OPT pseudo-record (RFC 6891), extracted from the
/// additional section; its class and TTL fields are re-purposed.
#[derive(Debug)]
pub struct OptRecord {
    /// The sender's maximum UDP payload size (the class field)
    pub udp: u16,
    /// The upper bits of the extended response code
    pub extrcode: u8,
    /// The EDNS version
    pub version: u8,
    /// The EDNS flag word
    pub flags: u16,
    /// The raw options payload
    pub data: RData,
}

/// The model of an OPT pseudo-record.
pub struct OptModel {
    /// The sender's maximum UDP payload size (the class field)
    pub udp: u16,
    /// The upper bits of the extended response code
    pub extrcode: u8,
    /// The EDNS version
    pub version: u8,
    /// The EDNS flag word
    pub flags: u16,
    /// The raw options payload
    pub data: RDataModel,
}

impl View for OptRecord {
    type V = OptModel;

    open spec fn view(&self) -> OptModel {
        OptModel {
            udp: self.udp,
            extrcode: self.extrcode,
            version: self.version,
            flags: self.flags,
            data: self.data@,
        }
    }
}

/// A fully parsed packet.
#[derive(Debug)]
pub struct Packet {
    /// The fixed header
    pub header: Header,
    /// The question section, in wire order
    pub questions: Vec<Question>,
    /// The answer section, in wire order
    pub answers: Vec<ResourceRecord>,
    /// The authority section, in wire order
    pub nameservers: Vec<ResourceRecord>,
    /// The additional section, in wire order, without the OPT record
    pub additional: Vec<ResourceRecord>,
    /// The OPT pseudo-record lifted out of the additional section
    pub opt: Option<OptRecord>,
}

/// The model of a packet.
pub struct PacketModel {
    /// The fixed header
    pub header: Header,
    /// The question section, in wire order
    pub questions: Seq<QuestionModel>,
    /// The answer section, in wire order
    pub answers: Seq<RecordModel>,
    /// The authority section, in wire order
    pub nameservers: Seq<RecordModel>,
    /// The additional section, in wire order, without the OPT record
    pub additional: Seq<RecordModel>,
    /// The OPT pseudo-record lifted out of the additional section
    pub opt: Option<OptModel>,
}

/// The model of an optional OPT record.
pub open spec fn opt_view(o: Option<OptRecord>) -> Option<OptModel> {
    match o {
        Some(x) => Some(x@),
        None => None,
    }
}

/// The models of a sequence of questions.
pub open spec fn questions_view(s: Seq<Question>) -> Seq<QuestionModel> {
    Seq::new(s.len(), |i: int| s[i]@)
}

/// The models of a sequence of resource records.
pub open spec fn records_view(s: Seq<ResourceRecord>) -> Seq<RecordModel> {
    Seq::new(s.len(), |i: int| s[i]@)
}

impl View for Packet {
    type V = PacketModel;

    open spec fn view(&self) -> PacketModel {
        PacketModel {
            header: self.header,
            questions: questions_view(self.questions@),
            answers: records_view(self.answers@),
            nameservers: records_view(self.nameservers@),
            additional: records_view(self.additional@),
            opt: opt_view(self.opt),
        }
    }
}

} // verus!
