//! A network-agnostic DNS message codec.
//!
//! The crate translates between the RFC 1035 wire format and a typed
//! message tree: a fixed 12-octet header, compressed domain names,
//! questions, resource records with per-TYPE payloads, and the EDNS0
//! OPT pseudo-record (RFC 6891).  It opens no sockets and keeps no
//! state; `Packet::parse` turns an octet buffer into a `Packet`, and
//! `Builder` renders a query packet back into octets.

pub mod builder;
pub mod bytes;
pub mod enums;
pub mod error;
pub mod header;
pub mod laws;
pub mod name;
pub mod owned;
pub mod parser;
pub mod rdata;
pub mod structs;
mod text;

pub use builder::{Builder, BuilderError};
pub use enums::{Class, Opcode, QueryClass, QueryType, ResponseCode, Type};
pub use error::Error;
pub use header::Header;
pub use name::Name;
pub use rdata::{CaaRecord, Ipv4, Ipv6, Property, RData, SoaRecord};
pub use owned::{PacketBuf, QuestionBuf, RDataBuf, RecordBuf, ResourceRecordBuf, SoaRecordBuf};
pub use structs::{OptRecord, Packet, Question, ResourceRecord};
