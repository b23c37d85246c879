//! The packet parser: a section-by-section walk over the wire bytes.

use vstd::prelude::*;
use vstd::slice::slice_subrange;

use crate::bytes::{be16, be32, read_u16, read_u32};
use crate::enums::{
    class_of_code, query_class_of_code, query_type_of_code, type_of_code, Class, QueryClass,
    QueryType, Type,
};
use crate::error::Error;
use crate::header::{header_model, Header};
use crate::name::{scan_labels, scan_wire_len, Name};
use crate::rdata::{rdata_model, RData};
use crate::structs::{
    opt_view, questions_view, records_view, OptModel, OptRecord, Packet, PacketModel, Question,
    QuestionModel, RecordModel, ResourceRecord,
};

verus! {

/// The question read from `data` at `pos`, and the position after it:
/// a name, then a 16-bit QTYPE and a 16-bit QCLASS whose top bit is
/// the multicast unicast-response flag.
pub open spec fn question_model(data: Seq<u8>, pos: int) -> Result<(QuestionModel, int), Error> {
    let sub = data.subrange(pos, data.len() as int);
    match scan_labels(data, sub, 0, data.len() as int) {
        Err(e) => Err(e),
        Ok(qname) => {
            let end = pos + scan_wire_len(sub, 0);
            if end + 4 > data.len() {
                Err(Error::UnexpectedEOF)
            } else {
                let qt_code = be16(data[end], data[end + 1]);
                match query_type_of_code(qt_code) {
                    None => Err(Error::InvalidQueryType(qt_code)),
                    Some(qtype) => {
                        let qc_raw = be16(data[end + 2], data[end + 3]);
                        let qc_code = qc_raw % 0x8000;
                        match query_class_of_code(qc_code) {
                            None => Err(Error::InvalidQueryClass(qc_code)),
                            Some(qclass) => Ok(
                                (
                                    QuestionModel {
                                        qname,
                                        prefer_unicast: qc_raw >= 0x8000,
                                        qtype,
                                        qclass,
                                    },
                                    end + 4,
                                ),
                            ),
                        }
                    },
                }
            }
        },
    }
}

/// The `n` questions read from `data` at `pos`, and the position after
/// them.
pub open spec fn questions_model(data: Seq<u8>, pos: int, n: int) -> Result<
    (Seq<QuestionModel>, int),
    Error,
>
    decreases n,
{
    if n <= 0 {
        Ok((Seq::empty(), pos))
    } else {
        match question_model(data, pos) {
            Err(e) => Err(e),
            Ok((q, end)) => match questions_model(data, end, n - 1) {
                Err(e) => Err(e),
                Ok((qs, fin)) => Ok((seq![q] + qs, fin)),
            },
        }
    }
}

/// The resource record read from `data` at `pos`, and the position
/// after it: a name, TYPE, CLASS (top bit: cache-flush flag), TTL
/// (clamped to zero above the signed range), RDLENGTH and RDATA.
pub open spec fn record_model(data: Seq<u8>, pos: int) -> Result<(RecordModel, int), Error> {
    let sub = data.subrange(pos, data.len() as int);
    match scan_labels(data, sub, 0, data.len() as int) {
        Err(e) => Err(e),
        Ok(name) => {
            let nend = pos + scan_wire_len(sub, 0);
            if nend + 10 > data.len() {
                Err(Error::UnexpectedEOF)
            } else {
                let t_code = be16(data[nend], data[nend + 1]);
                match type_of_code(t_code) {
                    None => Err(Error::InvalidType(t_code)),
                    Some(typ) => {
                        let cls_raw = be16(data[nend + 2], data[nend + 3]);
                        let cls_code = cls_raw % 0x8000;
                        match class_of_code(cls_code) {
                            None => Err(Error::InvalidClass(cls_code)),
                            Some(cls) => {
                                let raw_ttl = be32(
                                    data[nend + 4],
                                    data[nend + 5],
                                    data[nend + 6],
                                    data[nend + 7],
                                );
                                let ttl = if raw_ttl > 0x7FFFFFFF {
                                    0u32
                                } else {
                                    raw_ttl
                                };
                                let rdlen = be16(data[nend + 8], data[nend + 9]) as int;
                                if nend + 10 + rdlen > data.len() {
                                    Err(Error::UnexpectedEOF)
                                } else {
                                    let rdata = data.subrange(nend + 10, nend + 10 + rdlen);
                                    match rdata_model(typ, rdata, data) {
                                        Err(e) => Err(e),
                                        Ok(d) => Ok(
                                            (
                                                RecordModel {
                                                    name,
                                                    multicast_unique: cls_raw >= 0x8000,
                                                    cls,
                                                    ttl,
                                                    data: d,
                                                },
                                                nend + 10 + rdlen,
                                            ),
                                        ),
                                    }
                                }
                            },
                        }
                    },
                }
            }
        },
    }
}

/// The `n` resource records read from `data` at `pos`, and the
/// position after them.
pub open spec fn records_model(data: Seq<u8>, pos: int, n: int) -> Result<
    (Seq<RecordModel>, int),
    Error,
>
    decreases n,
{
    if n <= 0 {
        Ok((Seq::empty(), pos))
    } else {
        match record_model(data, pos) {
            Err(e) => Err(e),
            Ok((rec, end)) => match records_model(data, end, n - 1) {
                Err(e) => Err(e),
                Ok((rs, fin)) => Ok((seq![rec] + rs, fin)),
            },
        }
    }
}

/// True when the record at `pos` opens like an OPT pseudo-record: a
/// root name followed by TYPE 41.
pub open spec fn is_opt_start(data: Seq<u8>, pos: int) -> bool {
    pos + 3 <= data.len() && data[pos] == 0 && data[pos + 1] == 0 && data[pos + 2] == 41
}

/// The OPT pseudo-record read from `data` at `pos`, and the position
/// after it: a root name, TYPE, then the re-purposed class (maximum
/// UDP size) and TTL (extended rcode, version, flags) fields, and the
/// raw options payload.
pub open spec fn opt_model(data: Seq<u8>, pos: int) -> Result<(OptModel, int), Error> {
    if pos + 11 > data.len() {
        Err(Error::UnexpectedEOF)
    } else {
        let t_code = be16(data[pos + 1], data[pos + 2]);
        match type_of_code(t_code) {
            None => Err(Error::InvalidType(t_code)),
            Some(typ) => {
                if typ != Type::OPT {
                    Err(Error::InvalidType(t_code))
                } else {
                    let rdlen = be16(data[pos + 9], data[pos + 10]) as int;
                    if pos + 11 + rdlen > data.len() {
                        Err(Error::UnexpectedEOF)
                    } else {
                        let rdata = data.subrange(pos + 11, pos + 11 + rdlen);
                        match rdata_model(Type::OPT, rdata, data) {
                            Err(e) => Err(e),
                            Ok(d) => Ok(
                                (
                                    OptModel {
                                        udp: be16(data[pos + 3], data[pos + 4]),
                                        extrcode: data[pos + 5],
                                        version: data[pos + 6],
                                        flags: be16(data[pos + 7], data[pos + 8]),
                                        data: d,
                                    },
                                    pos + 11 + rdlen,
                                ),
                            ),
                        }
                    }
                }
            },
        }
    }
}

/// The additional section read from `data` at `pos`: `n` records, of
/// which those opening like an OPT pseudo-record are lifted out; a
/// second OPT is refused.
pub open spec fn additional_model(data: Seq<u8>, pos: int, n: int, opt: Option<OptModel>) -> Result<
    (Seq<RecordModel>, Option<OptModel>, int),
    Error,
>
    decreases n,
{
    if n <= 0 {
        Ok((Seq::empty(), opt, pos))
    } else if is_opt_start(data, pos) {
        if opt is Some {
            Err(Error::AdditionalOPT)
        } else {
            match opt_model(data, pos) {
                Err(e) => Err(e),
                Ok((o, end)) => additional_model(data, end, n - 1, Some(o)),
            }
        }
    } else {
        match record_model(data, pos) {
            Err(e) => Err(e),
            Ok((rec, end)) => match additional_model(data, end, n - 1, opt) {
                Err(e) => Err(e),
                Ok((rs, o, fin)) => Ok((seq![rec] + rs, o, fin)),
            },
        }
    }
}

/// The packet read from `data`, and the position after its last
/// record: header, questions, answers, authority, additional.  Bytes
/// after that position are tolerated and ignored.
pub open spec fn packet_model(data: Seq<u8>) -> Result<(PacketModel, int), Error> {
    match header_model(data) {
        Err(e) => Err(e),
        Ok(header) => match questions_model(data, 12, header.questions as int) {
            Err(e) => Err(e),
            Ok((questions, p1)) => match records_model(data, p1, header.answers as int) {
                Err(e) => Err(e),
                Ok((answers, p2)) => match records_model(data, p2, header.nameservers as int) {
                    Err(e) => Err(e),
                    Ok((nameservers, p3)) => match additional_model(
                        data,
                        p3,
                        header.additional as int,
                        None,
                    ) {
                        Err(e) => Err(e),
                        Ok((additional, opt, fin)) => Ok(
                            (
                                PacketModel {
                                    header,
                                    questions,
                                    answers,
                                    nameservers,
                                    additional,
                                    opt,
                                },
                                fin,
                            ),
                        ),
                    },
                },
            },
        },
    }
}

/// Parses one question at `offset`.
fn parse_question(data: &[u8], offset: usize) -> (r: Result<(Question, usize), Error>)
    requires
        offset <= data@.len(),
    ensures
        match r {
            Ok((q, end)) => {
                &&& question_model(data@, offset as int) == Ok::<(QuestionModel, int), Error>(
                    (q@, end as int),
                )
                &&& offset < end <= data@.len()
            },
            Err(e) => question_model(data@, offset as int) == Err::<(QuestionModel, int), Error>(
                e,
            ),
        },
{
    let sub = slice_subrange(data, offset, data.len());
    let qname = match Name::scan(sub, data) {
        Ok(n) => n,
        Err(e) => {
            return Err(e);
        },
    };
    let nend = offset + qname.byte_len();
    if data.len() - nend < 4 {
        return Err(Error::UnexpectedEOF);
    }
    let qt_code = read_u16(data, nend);
    let qtype = match QueryType::parse(qt_code) {
        Ok(t) => t,
        Err(e) => {
            return Err(e);
        },
    };
    let qc_raw = read_u16(data, nend + 2);
    let qclass = match QueryClass::parse(qc_raw % 0x8000) {
        Ok(c) => c,
        Err(e) => {
            return Err(e);
        },
    };
    Ok((Question { qname, prefer_unicast: qc_raw >= 0x8000, qtype, qclass }, nend + 4))
}

/// Parses one resource record at `*offset`, advancing the offset past
/// it.
fn parse_record(data: &[u8], offset: &mut usize) -> (r: Result<ResourceRecord, Error>)
    requires
        *old(offset) <= data@.len(),
    ensures
        match r {
            Ok(rec) => {
                &&& record_model(data@, *old(offset) as int) == Ok::<(RecordModel, int), Error>(
                    (rec@, *final(offset) as int),
                )
                &&& *old(offset) < *final(offset) <= data@.len()
            },
            Err(e) => record_model(data@, *old(offset) as int) == Err::<(RecordModel, int), Error>(
                e,
            ),
        },
{
    let sub = slice_subrange(data, *offset, data.len());
    let name = match Name::scan(sub, data) {
        Ok(n) => n,
        Err(e) => {
            return Err(e);
        },
    };
    let nend = *offset + name.byte_len();
    if data.len() - nend < 10 {
        return Err(Error::UnexpectedEOF);
    }
    let t_code = read_u16(data, nend);
    let typ = match Type::parse(t_code) {
        Ok(t) => t,
        Err(e) => {
            return Err(e);
        },
    };
    let cls_raw = read_u16(data, nend + 2);
    let cls = match Class::parse(cls_raw % 0x8000) {
        Ok(c) => c,
        Err(e) => {
            return Err(e);
        },
    };
    let mut ttl = read_u32(data, nend + 4);
    if ttl > 0x7FFFFFFF {
        ttl = 0;
    }
    let rdlen = read_u16(data, nend + 8) as usize;
    if data.len() - (nend + 10) < rdlen {
        return Err(Error::UnexpectedEOF);
    }
    let rdata = slice_subrange(data, nend + 10, nend + 10 + rdlen);
    let data_parsed = match RData::parse(typ, rdata, data) {
        Ok(d) => d,
        Err(e) => {
            return Err(e);
        },
    };
    *offset = nend + 10 + rdlen;
    Ok(ResourceRecord { name, multicast_unique: cls_raw >= 0x8000, cls, ttl, data: data_parsed })
}

/// Parses the OPT pseudo-record at `*offset`, advancing the offset
/// past it.
fn parse_opt_record(data: &[u8], offset: &mut usize) -> (r: Result<OptRecord, Error>)
    requires
        *old(offset) <= data@.len(),
    ensures
        match r {
            Ok(o) => {
                &&& opt_model(data@, *old(offset) as int) == Ok::<(OptModel, int), Error>(
                    (o@, *final(offset) as int),
                )
                &&& *old(offset) < *final(offset) <= data@.len()
            },
            Err(e) => opt_model(data@, *old(offset) as int) == Err::<(OptModel, int), Error>(e),
        },
{
    if data.len() - *offset < 11 {
        return Err(Error::UnexpectedEOF);
    }
    let pos = *offset;
    let t_code = read_u16(data, pos + 1);
    let typ = match Type::parse(t_code) {
        Ok(t) => t,
        Err(e) => {
            return Err(e);
        },
    };
    if typ != Type::OPT {
        return Err(Error::InvalidType(t_code));
    }
    let udp = read_u16(data, pos + 3);
    let extrcode = data[pos + 5];
    let version = data[pos + 6];
    let flags = read_u16(data, pos + 7);
    let rdlen = read_u16(data, pos + 9) as usize;
    if data.len() - (pos + 11) < rdlen {
        return Err(Error::UnexpectedEOF);
    }
    let rdata = slice_subrange(data, pos + 11, pos + 11 + rdlen);
    let data_parsed = match RData::parse(Type::OPT, rdata, data) {
        Ok(d) => d,
        Err(e) => {
            return Err(e);
        },
    };
    *offset = pos + 11 + rdlen;
    Ok(OptRecord { udp, extrcode, version, flags, data: data_parsed })
}

/// Parses the question section: `n` questions from `offset` on.
fn parse_questions(data: &[u8], start: usize, n: u16) -> (r: Result<(Vec<Question>, usize), Error>)
    requires
        start <= data@.len(),
    ensures
        match r {
            Ok((qs, end)) => {
                &&& questions_model(data@, start as int, n as int) == Ok::<
                    (Seq<QuestionModel>, int),
                    Error,
                >((questions_view(qs@), end as int))
                &&& end <= data@.len()
            },
            Err(e) => questions_model(data@, start as int, n as int) == Err::<
                (Seq<QuestionModel>, int),
                Error,
            >(e),
        },
{
    let ghost qm = questions_model(data@, start as int, n as int);
    let mut questions: Vec<Question> = Vec::new();
    let mut offset = start;
    let mut i: u16 = 0;
    while i < n
        invariant
            qm == questions_model(data@, start as int, n as int),
            i <= n,
            offset <= data@.len(),
            questions@.len() == i,
            qm == (match questions_model(data@, offset as int, n - i) {
                Ok((qs, fin)) => Ok::<(Seq<QuestionModel>, int), Error>(
                    (questions_view(questions@) + qs, fin),
                ),
                Err(e) => Err::<(Seq<QuestionModel>, int), Error>(e),
            }),
        decreases n - i,
    {
        let (q, end) = match parse_question(data, offset) {
            Ok(x) => x,
            Err(e) => {
                return Err(e);
            },
        };
        let ghost before = questions_view(questions@);
        questions.push(q);
        proof {
            assert(questions_view(questions@) =~= before + seq![q@]);
            match questions_model(data@, end as int, n - i - 1) {
                Ok((qs, _)) => {
                    assert(before + (seq![q@] + qs) =~= questions_view(questions@) + qs);
                },
                Err(_) => {},
            }
        }
        offset = end;
        i += 1;
    }
    proof {
        assert(questions_view(questions@) + Seq::<QuestionModel>::empty() =~= questions_view(
            questions@,
        ));
    }
    Ok((questions, offset))
}

/// Parses `n` resource records from `offset` on.
fn parse_records(data: &[u8], start: usize, n: u16) -> (r: Result<
    (Vec<ResourceRecord>, usize),
    Error,
>)
    requires
        start <= data@.len(),
    ensures
        match r {
            Ok((rs, end)) => {
                &&& records_model(data@, start as int, n as int) == Ok::<
                    (Seq<RecordModel>, int),
                    Error,
                >((records_view(rs@), end as int))
                &&& end <= data@.len()
            },
            Err(e) => records_model(data@, start as int, n as int) == Err::<
                (Seq<RecordModel>, int),
                Error,
            >(e),
        },
{
    let ghost rm = records_model(data@, start as int, n as int);
    let mut records: Vec<ResourceRecord> = Vec::new();
    let mut offset = start;
    let mut i: u16 = 0;
    while i < n
        invariant
            rm == records_model(data@, start as int, n as int),
            i <= n,
            offset <= data@.len(),
            records@.len() == i,
            rm == (match records_model(data@, offset as int, n - i) {
                Ok((rs, fin)) => Ok::<(Seq<RecordModel>, int), Error>(
                    (records_view(records@) + rs, fin),
                ),
                Err(e) => Err::<(Seq<RecordModel>, int), Error>(e),
            }),
        decreases n - i,
    {
        let rec = match parse_record(data, &mut offset) {
            Ok(x) => x,
            Err(e) => {
                return Err(e);
            },
        };
        let ghost before = records_view(records@);
        records.push(rec);
        proof {
            assert(records_view(records@) =~= before + seq![rec@]);
            match records_model(data@, offset as int, n - i - 1) {
                Ok((rs, _)) => {
                    assert(before + (seq![rec@] + rs) =~= records_view(records@) + rs);
                },
                Err(_) => {},
            }
        }
        i += 1;
    }
    proof {
        assert(records_view(records@) + Seq::<RecordModel>::empty() =~= records_view(records@));
    }
    Ok((records, offset))
}

/// Parses the additional section: `n` records from `offset` on, OPT
/// pseudo-records lifted out.
#[verifier::rlimit(100)]
fn parse_additional(data: &[u8], start: usize, n: u16) -> (r: Result<
    (Vec<ResourceRecord>, Option<OptRecord>, usize),
    Error,
>)
    requires
        start <= data@.len(),
    ensures
        match r {
            Ok((rs, o, end)) => {
                &&& additional_model(data@, start as int, n as int, None) == Ok::<
                    (Seq<RecordModel>, Option<OptModel>, int),
                    Error,
                >((records_view(rs@), opt_view(o), end as int))
                &&& end <= data@.len()
            },
            Err(e) => additional_model(data@, start as int, n as int, None) == Err::<
                (Seq<RecordModel>, Option<OptModel>, int),
                Error,
            >(e),
        },
{
    let ghost adm = additional_model(data@, start as int, n as int, None);
    let mut additional: Vec<ResourceRecord> = Vec::new();
    let mut opt: Option<OptRecord> = None;
    let mut offset = start;
    let mut i: u16 = 0;
    while i < n
        invariant
            adm == additional_model(data@, start as int, n as int, None),
            i <= n,
            offset <= data@.len(),
            adm == (match additional_model(data@, offset as int, n - i, opt_view(opt)) {
                Ok((rs, o, fin)) => Ok::<(Seq<RecordModel>, Option<OptModel>, int), Error>(
                    (records_view(additional@) + rs, o, fin),
                ),
                Err(e) => Err::<(Seq<RecordModel>, Option<OptModel>, int), Error>(e),
            }),
        decreases n - i,
    {
        let opt_here = data.len() - offset >= 3 && data[offset] == 0 && data[offset + 1] == 0
            && data[offset + 2] == 41;
        if opt_here {
            if opt.is_some() {
                return Err(Error::AdditionalOPT);
            }
            let o = match parse_opt_record(data, &mut offset) {
                Ok(x) => x,
                Err(e) => {
                    return Err(e);
                },
            };
            opt = Some(o);
        } else {
            let rec = match parse_record(data, &mut offset) {
                Ok(x) => x,
                Err(e) => {
                    return Err(e);
                },
            };
            let ghost before = records_view(additional@);
            additional.push(rec);
            proof {
                assert(records_view(additional@) =~= before + seq![rec@]);
                match additional_model(data@, offset as int, n - i - 1, opt_view(opt)) {
                    Ok((rs, _, _)) => {
                        assert(before + (seq![rec@] + rs) =~= records_view(additional@) + rs);
                    },
                    Err(_) => {},
                }
            }
        }
        i += 1;
    }
    proof {
        assert(records_view(additional@) + Seq::<RecordModel>::empty() =~= records_view(
            additional@,
        ));
    }
    Ok((additional, opt, offset))
}

impl Packet {
    /// Parses a whole packet.
    ///
    /// Succeeds exactly where the `packet_model` does, with the
    /// model's packet, and returns the model's error otherwise.
    pub fn parse(data: &[u8]) -> (r: Result<Packet, Error>)
        ensures
            match r {
                Ok(p) => packet_model(data@) is Ok && p@ == packet_model(data@).unwrap().0,
                Err(e) => packet_model(data@) matches Err(me) && me == e,
            },
            r matches Ok(p) ==> {
                &&& p.questions@.len() == p.header.questions
                &&& p.answers@.len() == p.header.answers
                &&& p.nameservers@.len() == p.header.nameservers
                &&& p.additional@.len() + (if p.opt is Some {
                    1int
                } else {
                    0int
                }) == p.header.additional
            },
    {
        let header = match Header::parse(data) {
            Ok(h) => h,
            Err(e) => {
                return Err(e);
            },
        };
        let (questions, p1) = match parse_questions(data, Header::size(), header.questions) {
            Ok(x) => x,
            Err(e) => {
                return Err(e);
            },
        };
        let (answers, p2) = match parse_records(data, p1, header.answers) {
            Ok(x) => x,
            Err(e) => {
                return Err(e);
            },
        };
        let (nameservers, p3) = match parse_records(data, p2, header.nameservers) {
            Ok(x) => x,
            Err(e) => {
                return Err(e);
            },
        };
        let (additional, opt, _fin) = match parse_additional(data, p3, header.additional) {
            Ok(x) => x,
            Err(e) => {
                return Err(e);
            },
        };
        proof {
            crate::laws::lemma_count_consistency(data@);
        }
        Ok(Packet { header, questions, answers, nameservers, additional, opt })
    }
}

} // verus!
