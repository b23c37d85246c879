//! Failure kinds shared by every decoder in the crate.

use vstd::prelude::*;

verus! {

/// Everything that can go wrong while decoding a DNS packet.
///
/// Variants that carry a `u16` hold the offending wire code.
#[derive(Debug, PartialEq, Eq, Structural, Clone, Copy)]
pub enum Error {
    /// A compression pointer does not point strictly backwards.
    BadPointer,
    /// The packet is smaller than the fixed 12-octet header.
    HeaderTooShort,
    /// The packet ends before the data it announces.
    UnexpectedEOF,
    /// The RDATA length does not fit the record type.
    WrongRdataLength,
    /// The reserved Z flag bit is set.
    ReservedBitsAreNonZero,
    /// A name label starts with an unknown discriminator bit pattern.
    UnknownLabelFormat,
    /// The question type code maps to no known QTYPE.
    InvalidQueryType(u16),
    /// The question class code maps to no known QCLASS.
    InvalidQueryClass(u16),
    /// The record type code maps to no known TYPE.
    InvalidType(u16),
    /// The record class code maps to no known CLASS.
    InvalidClass(u16),
    /// The response code does not fit in the 4-bit RCODE field.
    InvalidResponseCode(u16),
    /// A name label contains a byte outside the ASCII range.
    LabelIsNotAscii,
    /// A TXT segment is not valid UTF-8.
    TxtDataIsNotUTF8,
    /// More than one OPT pseudo-record appears in the additional section.
    AdditionalOPT,
}

} // verus!
