//! The crate-wide guarantees, each stated and proved over the wire
//! models: what the scanner can return on hostile input, how section
//! counts relate to the header, how the TTL clamp behaves, and that a
//! built query parses back to what was put in.

use vstd::prelude::*;

use crate::builder::{encode_labels, opt_chunk, query_header, question_chunk, questions_bytes};
use crate::bytes::be32;
use crate::enums::Type;
use crate::error::Error;
use crate::name::{all_ascii, scan_labels, scan_wire_len};
use crate::header::{header_bytes, header_canonical, header_model, header_wf, Header};
use crate::parser::{
    additional_model, is_opt_start, opt_model, packet_model, question_model, questions_model,
    record_model, records_model,
};
use crate::rdata::{rdata_model, RDataModel};
use crate::structs::{OptModel, PacketModel, QuestionModel, RecordModel};

verus! {

/// The name scanner fails only with a wire error: an out-of-bounds
/// read, a forward pointer, an unknown label discriminator, or a
/// non-ASCII label.  Termination on every input is part of the
/// definition of `scan_labels` itself.
pub proof fn lemma_scan_error_kinds(original: Seq<u8>, data: Seq<u8>, pos: int, bound: int)
    ensures
        scan_labels(original, data, pos, bound) matches Err(e) ==> (e == Error::UnexpectedEOF || e
            == Error::BadPointer || e == Error::UnknownLabelFormat || e == Error::LabelIsNotAscii),
    decreases bound, data.len() - pos,
{
    if 0 <= pos < data.len() {
        let b = data[pos];
        if b == 0 {
        } else if b >= 192 {
            if pos + 2 <= data.len() {
                let off = (b - 192) * 256 + data[pos + 1];
                if off < original.len() && off < bound {
                    lemma_scan_error_kinds(original, original, off as int, off as int);
                }
            }
        } else if b < 64 {
            let end = pos + b + 1;
            if end < data.len() {
                lemma_scan_error_kinds(original, data, end, bound);
            }
        }
    }
}

/// Pointer safety: on a buffer that holds only pointer-format bytes
/// (every octet has its top two bits set), the scanner returns `Ok` or
/// one of `BadPointer`, `UnexpectedEOF`, `UnknownLabelFormat` — and,
/// being a total function with a decreasing bound, it always returns.
pub proof fn lemma_scan_pointer_safety(original: Seq<u8>, data: Seq<u8>, pos: int, bound: int)
    requires
        forall|i: int| 0 <= i < original.len() ==> original[i] >= 192,
        forall|i: int| 0 <= i < data.len() ==> data[i] >= 192,
    ensures
        scan_labels(original, data, pos, bound) is Ok || (scan_labels(original, data, pos, bound)
            matches Err(e) && (e == Error::BadPointer || e == Error::UnexpectedEOF || e
            == Error::UnknownLabelFormat)),
    decreases bound, data.len() - pos,
{
    if 0 <= pos < data.len() {
        let b = data[pos];
        if b >= 192 {
            if pos + 2 <= data.len() {
                let off = (b - 192) * 256 + data[pos + 1];
                if off < original.len() && off < bound {
                    lemma_scan_pointer_safety(original, original, off as int, off as int);
                }
            }
        }
    }
}

/// A parsed question section holds exactly as many questions as were
/// asked of it.
proof fn lemma_questions_model_len(data: Seq<u8>, pos: int, n: int)
    requires
        n >= 0,
        questions_model(data, pos, n) is Ok,
    ensures
        questions_model(data, pos, n).unwrap().0.len() == n,
    decreases n,
{
    if n > 0 {
        match question_model(data, pos) {
            Ok((_, end)) => {
                lemma_questions_model_len(data, end, n - 1);
            },
            Err(_) => {},
        }
    }
}

/// A parsed record section holds exactly as many records as were asked
/// of it.
proof fn lemma_records_model_len(data: Seq<u8>, pos: int, n: int)
    requires
        n >= 0,
        records_model(data, pos, n) is Ok,
    ensures
        records_model(data, pos, n).unwrap().0.len() == n,
    decreases n,
{
    if n > 0 {
        match record_model(data, pos) {
            Ok((_, end)) => {
                lemma_records_model_len(data, end, n - 1);
            },
            Err(_) => {},
        }
    }
}

/// Every record of the additional section is either kept or extracted
/// as the OPT record: the parsed records and the extracted OPT account
/// for the announced count together.
proof fn lemma_additional_model_len(data: Seq<u8>, pos: int, n: int, opt: Option<OptModel>)
    requires
        n >= 0,
        additional_model(data, pos, n, opt) is Ok,
    ensures
        ({
            let (rs, o, _) = additional_model(data, pos, n, opt).unwrap();
            rs.len() + (if o is Some {
                1int
            } else {
                0int
            }) == n + (if opt is Some {
                1int
            } else {
                0int
            })
        }),
    decreases n,
{
    if n > 0 {
        if crate::parser::is_opt_start(data, pos) {
            if opt is None {
                match crate::parser::opt_model(data, pos) {
                    Ok((o, end)) => {
                        lemma_additional_model_len(data, end, n - 1, Some(o));
                    },
                    Err(_) => {},
                }
            }
        } else {
            match record_model(data, pos) {
                Ok((_, end)) => {
                    lemma_additional_model_len(data, end, n - 1, opt);
                },
                Err(_) => {},
            }
        }
    }
}

/// Count consistency: in a parsed packet each section holds exactly as
/// many entries as its header count announces, the extracted OPT
/// record counting towards the additional section.
pub proof fn lemma_count_consistency(data: Seq<u8>)
    requires
        packet_model(data) is Ok,
    ensures
        ({
            let p = packet_model(data).unwrap().0;
            &&& p.questions.len() == p.header.questions
            &&& p.answers.len() == p.header.answers
            &&& p.nameservers.len() == p.header.nameservers
            &&& p.additional.len() + (if p.opt is Some {
                1int
            } else {
                0int
            }) == p.header.additional
        }),
{
    let header = crate::header::header_model(data).unwrap();
    match questions_model(data, 12, header.questions as int) {
        Ok((_, p1)) => {
            lemma_questions_model_len(data, 12, header.questions as int);
            match records_model(data, p1, header.answers as int) {
                Ok((_, p2)) => {
                    lemma_records_model_len(data, p1, header.answers as int);
                    match records_model(data, p2, header.nameservers as int) {
                        Ok((_, p3)) => {
                            lemma_records_model_len(data, p2, header.nameservers as int);
                            lemma_additional_model_len(data, p3, header.additional as int, None);
                        },
                        Err(_) => {},
                    }
                },
                Err(_) => {},
            }
        },
        Err(_) => {},
    }
}

/// TTL clamp: a record whose wire TTL field exceeds the signed 32-bit
/// range parses with a TTL of zero.
pub proof fn lemma_ttl_clamp(data: Seq<u8>, pos: int)
    requires
        record_model(data, pos) is Ok,
        ({
            let nend = pos + scan_wire_len(data.subrange(pos, data.len() as int), 0);
            be32(data[nend + 4], data[nend + 5], data[nend + 6], data[nend + 7]) > 0x7FFFFFFF
        }),
    ensures
        record_model(data, pos).unwrap().0.ttl == 0,
{
}

/// A label sequence that can be written literally: each label holds
/// one to 63 ASCII octets.
pub open spec fn labels_wf(labels: Seq<Seq<u8>>) -> bool {
    forall|i: int|
        0 <= i < labels.len() ==> 1 <= (#[trigger] labels[i]).len() <= 63 && all_ascii(labels[i])
}

/// A question whose name can be written literally.
pub open spec fn question_wf(q: QuestionModel) -> bool {
    labels_wf(q.qname)
}

/// Every name that passes the builder's checks splits into
/// well-formed labels, so a built query satisfies the round-trip law.
pub proof fn lemma_checked_name_wf(b: Seq<u8>)
    requires
        all_ascii(b),
        crate::builder::name_check(b) is Ok,
    ensures
        labels_wf(crate::builder::split_labels(b)),
    decreases b.len(),
{
    if b.len() == 0 {
    } else {
        let i = crate::builder::first_dot(b) as int;
        if i >= b.len() {
            assert(crate::builder::split_labels(b) == seq![b]);
        } else {
            let rest = b.subrange(i + 1, b.len() as int);
            assert(all_ascii(b.take(i))) by {
                assert(forall|k: int| 0 <= k < i ==> b.take(i)[k] == b[k]);
            }
            assert(all_ascii(rest)) by {
                assert(forall|k: int| 0 <= k < rest.len() ==> rest[k] == b[i + 1 + k]);
            }
            lemma_checked_name_wf(rest);
            let labels = crate::builder::split_labels(b);
            assert(labels == seq![b.take(i)] + crate::builder::split_labels(rest));
            assert forall|k: int| 0 <= k < labels.len() implies 1 <= (#[trigger] labels[k]).len()
                <= 63 && all_ascii(labels[k]) by {
                if k > 0 {
                    assert(labels[k] == crate::builder::split_labels(rest)[k - 1]);
                }
            }
        }
    }
}

/// Every name the scanner accepts consists of well-formed labels: one
/// to 63 octets each, all ASCII.
pub proof fn lemma_scan_labels_wf(original: Seq<u8>, data: Seq<u8>, pos: int, bound: int)
    ensures
        scan_labels(original, data, pos, bound) matches Ok(ls) ==> labels_wf(ls),
    decreases bound, data.len() - pos,
{
    if 0 <= pos < data.len() {
        let b = data[pos];
        if b == 0 {
        } else if b >= 192 {
            if pos + 2 <= data.len() {
                let off = (b - 192) * 256 + data[pos + 1];
                if off < original.len() && off < bound {
                    lemma_scan_labels_wf(original, original, off as int, off as int);
                }
            }
        } else if b < 64 {
            let end = pos + b + 1;
            if end < data.len() && all_ascii(data.subrange(pos + 1, end)) {
                lemma_scan_labels_wf(original, data, end, bound);
                match scan_labels(original, data, end, bound) {
                    Ok(rest) => {
                        let label = data.subrange(pos + 1, end);
                        let ls = seq![label] + rest;
                        assert forall|k: int| 0 <= k < ls.len() implies 1 <= (
                        #[trigger] ls[k]).len() <= 63 && all_ascii(ls[k]) by {
                            if k > 0 {
                                assert(ls[k] == rest[k - 1]);
                            }
                        }
                    },
                    Err(_) => {},
                }
            }
        }
    }
}

/// The literal encoding of a label sequence is never empty.
proof fn lemma_encode_labels_len(labels: Seq<Seq<u8>>)
    ensures
        encode_labels(labels).len() >= 1,
    decreases labels.len(),
{
    if labels.len() > 0 {
        lemma_encode_labels_len(labels.drop_first());
    }
}

/// Scanning a literally encoded well-formed label sequence yields that
/// sequence back, whatever follows it and whatever the pointer bound:
/// the encoding uses no pointers.
pub proof fn lemma_scan_encoded(
    original: Seq<u8>,
    sub: Seq<u8>,
    pos: int,
    bound: int,
    labels: Seq<Seq<u8>>,
)
    requires
        labels_wf(labels),
        0 <= pos,
        pos + encode_labels(labels).len() <= sub.len(),
        sub.subrange(pos, pos + encode_labels(labels).len()) == encode_labels(labels),
    ensures
        scan_labels(original, sub, pos, bound) == Ok::<Seq<Seq<u8>>, Error>(labels),
        scan_wire_len(sub, pos) == pos + encode_labels(labels).len(),
    decreases labels.len(),
{
    let enc = encode_labels(labels);
    lemma_encode_labels_len(labels);
    assert(sub[pos] == enc[0]) by {
        assert(sub.subrange(pos, pos + enc.len())[0] == sub[pos]);
    }
    if labels.len() == 0 {
        assert(enc == seq![0u8]);
        assert(sub[pos] == 0);
        assert(labels =~= Seq::<Seq<u8>>::empty());
    } else {
        let l0 = labels[0];
        let rest = labels.drop_first();
        let enc_rest = encode_labels(rest);
        lemma_encode_labels_len(rest);
        assert(enc == seq![l0.len() as u8] + l0 + enc_rest);
        assert(1 <= l0.len() <= 63);
        let b = sub[pos];
        assert(b == l0.len() as u8);
        assert(1 <= b < 64);
        let end = pos + b + 1;
        assert(end + enc_rest.len() <= sub.len());
        assert(end < sub.len());
        assert(sub.subrange(pos + 1, end) =~= l0) by {
            assert forall|k: int| 0 <= k < l0.len() implies sub.subrange(pos + 1, end)[k]
                == l0[k] by {
                assert(sub.subrange(pos, pos + enc.len())[1 + k] == sub[pos + 1 + k]);
                assert(enc[1 + k] == l0[k]);
            }
        }
        assert(all_ascii(sub.subrange(pos + 1, end)));
        assert(sub.subrange(end, end + enc_rest.len()) =~= enc_rest) by {
            assert forall|k: int| 0 <= k < enc_rest.len() implies sub.subrange(
                end,
                end + enc_rest.len(),
            )[k] == enc_rest[k] by {
                assert(sub.subrange(pos, pos + enc.len())[1 + l0.len() + k] == sub[pos + 1
                    + l0.len() + k]);
                assert(enc[1 + l0.len() + k] == enc_rest[k]);
            }
        }
        lemma_scan_encoded(original, sub, end, bound, rest);
        assert(seq![l0] + rest =~= labels);
    }
}

/// Splitting a subrange known to be a concatenation gives each part.
proof fn lemma_subrange_concat(data: Seq<u8>, pos: int, a: Seq<u8>, b: Seq<u8>)
    requires
        0 <= pos,
        pos + a.len() + b.len() <= data.len(),
        data.subrange(pos, pos + a.len() + b.len()) == a + b,
    ensures
        data.subrange(pos, pos + a.len()) == a,
        data.subrange(pos + a.len(), pos + a.len() + b.len()) == b,
{
    let whole = data.subrange(pos, pos + a.len() + b.len());
    assert(data.subrange(pos, pos + a.len()) =~= a) by {
        assert forall|k: int| 0 <= k < a.len() implies data.subrange(pos, pos + a.len())[k]
            == a[k] by {
            assert(whole[k] == data[pos + k]);
            assert((a + b)[k] == a[k]);
        }
    }
    assert(data.subrange(pos + a.len(), pos + a.len() + b.len()) =~= b) by {
        assert forall|k: int| 0 <= k < b.len() implies data.subrange(
            pos + a.len(),
            pos + a.len() + b.len(),
        )[k] == b[k] by {
            assert(whole[a.len() + k] == data[pos + a.len() + k]);
            assert((a + b)[a.len() + k] == b[k]);
        }
    }
}

/// Parsing the wire bytes of a well-formed question at their position
/// yields that question.
proof fn lemma_question_encoded(data: Seq<u8>, pos: int, q: QuestionModel)
    requires
        question_wf(q),
        0 <= pos,
        pos + question_chunk(q).len() <= data.len(),
        data.subrange(pos, pos + question_chunk(q).len()) == question_chunk(q),
    ensures
        question_model(data, pos) == Ok::<(QuestionModel, int), Error>(
            (q, pos + question_chunk(q).len()),
        ),
{
    let enc = encode_labels(q.qname);
    let tb = crate::bytes::be16_bytes(crate::enums::query_type_code_of(q.qtype));
    let qc_raw = (crate::enums::query_class_code_of(q.qclass) + if q.prefer_unicast {
        0x8000int
    } else {
        0int
    }) as u16;
    let cb = crate::bytes::be16_bytes(qc_raw);
    let chunk = question_chunk(q);
    assert(chunk == enc + tb + cb);
    assert(enc + tb + cb =~= enc + (tb + cb));
    lemma_subrange_concat(data, pos, enc, tb + cb);
    lemma_subrange_concat(data, pos + enc.len(), tb, cb);
    let sub = data.subrange(pos, data.len() as int);
    assert(sub.subrange(0, enc.len() as int) =~= enc) by {
        assert forall|k: int| 0 <= k < enc.len() implies sub.subrange(0, enc.len() as int)[k]
            == enc[k] by {
            assert(sub[k] == data[pos + k]);
            assert(data.subrange(pos, pos + enc.len())[k] == data[pos + k]);
        }
    }
    lemma_scan_encoded(data, sub, 0, data.len() as int, q.qname);
    let end = pos + enc.len();
    assert(data[end] == tb[0] && data[end + 1] == tb[1]) by {
        assert(data.subrange(end, end + 2)[0] == data[end]);
        assert(data.subrange(end, end + 2)[1] == data[end + 1]);
    }
    assert(data[end + 2] == cb[0] && data[end + 3] == cb[1]) by {
        assert(data.subrange(end + 2, end + 4)[0] == data[end + 2]);
        assert(data.subrange(end + 2, end + 4)[1] == data[end + 3]);
    }
    crate::bytes::lemma_be16_round_trip(crate::enums::query_type_code_of(q.qtype));
    crate::bytes::lemma_be16_round_trip(qc_raw);
    crate::enums::lemma_query_type_code_round_trip(q.qtype);
    assert(qc_raw % 0x8000 == crate::enums::query_class_code_of(q.qclass));
    assert((qc_raw >= 0x8000) == q.prefer_unicast);
}

/// Parsing the wire bytes of a well-formed question list at their
/// position yields that list.
proof fn lemma_questions_encoded(data: Seq<u8>, pos: int, qs: Seq<QuestionModel>)
    requires
        forall|i: int| 0 <= i < qs.len() ==> question_wf(#[trigger] qs[i]),
        0 <= pos,
        pos + questions_bytes(qs).len() <= data.len(),
        data.subrange(pos, pos + questions_bytes(qs).len()) == questions_bytes(qs),
    ensures
        questions_model(data, pos, qs.len() as int) == Ok::<(Seq<QuestionModel>, int), Error>(
            (qs, pos + questions_bytes(qs).len()),
        ),
    decreases qs.len(),
{
    if qs.len() == 0 {
        assert(qs =~= Seq::<QuestionModel>::empty());
    } else {
        let chunk = question_chunk(qs[0]);
        let rest = qs.drop_first();
        let rest_bytes = questions_bytes(rest);
        assert(questions_bytes(qs) == chunk + rest_bytes);
        lemma_subrange_concat(data, pos, chunk, rest_bytes);
        lemma_question_encoded(data, pos, qs[0]);
        lemma_questions_encoded(data, pos + chunk.len(), rest);
        assert(seq![qs[0]] + rest =~= qs);
    }
}

/// The OPT chunk the builder writes at the end of the packet parses
/// as the one additional record, lifted out as the OPT record.
proof fn lemma_opt_chunk_parses(bytes: Seq<u8>, p1: int, udp: u16, extrcode: u8, version: u8, flags: u16)
    requires
        0 <= p1,
        p1 + 11 == bytes.len(),
        bytes.subrange(p1, p1 + 11) == opt_chunk(udp, extrcode, version, flags),
    ensures
        additional_model(bytes, p1, 1, None) == Ok::<
            (Seq<RecordModel>, Option<OptModel>, int),
            Error,
        >(
            (
                Seq::empty(),
                Some(
                    OptModel { udp, extrcode, version, flags, data: RDataModel::OPT(Seq::empty()) },
                ),
                p1 + 11,
            ),
        ),
{
    let tail = opt_chunk(udp, extrcode, version, flags);
    let flat = seq![
        0u8,
        0u8,
        41u8,
        (udp / 256) as u8,
        (udp % 256) as u8,
        extrcode,
        version,
        (flags / 256) as u8,
        (flags % 256) as u8,
        0u8,
        0u8,
    ];
    assert(tail =~= flat);
    assert forall|k: int| 0 <= k < 11 implies bytes[p1 + k] == flat[k] by {
        assert(bytes.subrange(p1, p1 + 11)[k] == bytes[p1 + k]);
    }
    assert(crate::parser::is_opt_start(bytes, p1));
    assert(crate::bytes::be16(0u8, 41u8) == 41);
    crate::bytes::lemma_be16_round_trip(udp);
    crate::bytes::lemma_be16_round_trip(flags);
    assert(crate::bytes::be16(0u8, 0u8) == 0);
    assert(bytes.subrange(p1 + 11, p1 + 11) =~= Seq::<u8>::empty());
    let o = OptModel { udp, extrcode, version, flags, data: RDataModel::OPT(Seq::empty()) };
    assert(crate::parser::opt_model(bytes, p1) == Ok::<(OptModel, int), Error>((o, p1 + 11)));
    assert(additional_model(bytes, p1 + 11, 0, Some(o)) == Ok::<
        (Seq<RecordModel>, Option<OptModel>, int),
        Error,
    >((Seq::empty(), Some(o), p1 + 11)));
}

/// The OPT chunk is 11 bytes long.
proof fn lemma_opt_chunk_len(udp: u16, extrcode: u8, version: u8, flags: u16)
    ensures
        opt_chunk(udp, extrcode, version, flags).len() == 11,
{
    assert(opt_chunk(udp, extrcode, version, flags) =~= seq![
        0u8,
        0u8,
        41u8,
        (udp / 256) as u8,
        (udp % 256) as u8,
        extrcode,
        version,
        (flags / 256) as u8,
        (flags % 256) as u8,
        0u8,
        0u8,
    ]);
}

/// A packet made of a header that announces only questions and
/// additional records, the matching question section, and the matching
/// additional section, parses as exactly those parts.
proof fn lemma_query_assemble(
    bytes: Seq<u8>,
    h: Header,
    qs: Seq<QuestionModel>,
    p1: int,
    o: Option<OptModel>,
    fin: int,
)
    requires
        header_model(bytes) == Ok::<Header, Error>(h),
        h.answers == 0,
        h.nameservers == 0,
        questions_model(bytes, 12, h.questions as int) == Ok::<(Seq<QuestionModel>, int), Error>(
            (qs, p1),
        ),
        additional_model(bytes, p1, h.additional as int, None) == Ok::<
            (Seq<RecordModel>, Option<OptModel>, int),
            Error,
        >((Seq::empty(), o, fin)),
    ensures
        packet_model(bytes) == Ok::<(PacketModel, int), Error>(
            (
                PacketModel {
                    header: h,
                    questions: qs,
                    answers: Seq::empty(),
                    nameservers: Seq::empty(),
                    additional: Seq::empty(),
                    opt: o,
                },
                fin,
            ),
        ),
{
    assert(records_model(bytes, p1, 0) == Ok::<(Seq<RecordModel>, int), Error>(
        (Seq::empty(), p1),
    ));
}

/// Round trip of built queries: a query packet built from an
/// identifier, a recursion flag, well-formed questions, and optionally
/// the OPT parameters parses back to exactly those parts, consuming
/// the whole buffer.
#[verifier::rlimit(100)]
#[verifier::spinoff_prover]
pub proof fn lemma_query_round_trip(
    id: u16,
    rd: bool,
    qs: Seq<QuestionModel>,
    opt: Option<(u16, u8, u8, u16)>,
)
    requires
        qs.len() <= 0xFFFF,
        forall|i: int| 0 <= i < qs.len() ==> question_wf(#[trigger] qs[i]),
    ensures
        ({
            let h = query_header(id, rd, qs.len() as u16, opt is Some);
            let tail = match opt {
                Some((udp, extrcode, version, flags)) => opt_chunk(udp, extrcode, version, flags),
                None => Seq::<u8>::empty(),
            };
            let bytes = header_bytes(h) + questions_bytes(qs) + tail;
            packet_model(bytes) == Ok::<(PacketModel, int), Error>(
                (
                    PacketModel {
                        header: h,
                        questions: qs,
                        answers: Seq::empty(),
                        nameservers: Seq::empty(),
                        additional: Seq::empty(),
                        opt: match opt {
                            Some((udp, extrcode, version, flags)) => Some(
                                OptModel {
                                    udp,
                                    extrcode,
                                    version,
                                    flags,
                                    data: RDataModel::OPT(Seq::empty()),
                                },
                            ),
                            None => None,
                        },
                    },
                    bytes.len() as int,
                ),
            )
        }),
{
    let h = query_header(id, rd, qs.len() as u16, opt is Some);
    let qb = questions_bytes(qs);
    let tail = match opt {
        Some((udp, extrcode, version, flags)) => opt_chunk(udp, extrcode, version, flags),
        None => Seq::<u8>::empty(),
    };
    let bytes = header_bytes(h) + qb + tail;
    assert(header_wf(h));
    assert(header_canonical(h));
    crate::header::lemma_header_round_trip(h, qb + tail);
    assert(header_bytes(h) + qb + tail =~= header_bytes(h) + (qb + tail));
    assert(header_model(bytes) == Ok::<Header, Error>(h));
    assert(header_bytes(h).len() == 12);
    assert(bytes.subrange(0, bytes.len() as int) =~= bytes);
    lemma_subrange_concat(bytes, 0, header_bytes(h), qb + tail);
    lemma_subrange_concat(bytes, 12, qb, tail);
    lemma_questions_encoded(bytes, 12, qs);
    let p1 = 12 + qb.len() as int;
    match opt {
        None => {
            assert(additional_model(bytes, p1, 0, None) == Ok::<
                (Seq<RecordModel>, Option<OptModel>, int),
                Error,
            >((Seq::empty(), None, p1)));
            lemma_query_assemble(bytes, h, qs, p1, None, p1);
            assert(p1 == bytes.len());
        },
        Some((udp, extrcode, version, flags)) => {
            lemma_opt_chunk_len(udp, extrcode, version, flags);
            lemma_opt_chunk_parses(bytes, p1, udp, extrcode, version, flags);
            let o = OptModel { udp, extrcode, version, flags, data: RDataModel::OPT(Seq::empty()) };
            lemma_query_assemble(bytes, h, qs, p1, Some(o), p1 + 11);
            assert(p1 + 11 == bytes.len());
        },
    }
}

/// Truncating the buffers can only turn a successful name scan into
/// an out-of-bounds failure, never into a different name or another
/// error; where it still succeeds, the wire length is unchanged.  The
/// pointer bound may be anything at least as large as the truncated
/// buffer (a scan entered at the top) or the original bound (a scan
/// resumed behind a pointer).
pub proof fn lemma_scan_truncated(
    original: Seq<u8>,
    data: Seq<u8>,
    pos: int,
    bound: int,
    om: int,
    dm: int,
    bound2: int,
)
    requires
        scan_labels(original, data, pos, bound) is Ok,
        0 <= om <= original.len(),
        0 <= dm <= data.len(),
        bound2 == bound || bound2 >= om,
    ensures
        scan_labels(original.take(om), data.take(dm), pos, bound2) == Err::<Seq<Seq<u8>>, Error>(
            Error::UnexpectedEOF,
        ) || (scan_labels(original.take(om), data.take(dm), pos, bound2) == scan_labels(
            original,
            data,
            pos,
            bound,
        ) && scan_wire_len(data.take(dm), pos) == scan_wire_len(data, pos)),
    decreases bound, data.len() - pos,
{
    let tr_orig = original.take(om);
    let tr_data = data.take(dm);
    if pos >= dm {
    } else {
        let b = data[pos];
        assert(tr_data[pos] == b);
        if b == 0 {
        } else if b >= 192 {
            if pos + 2 <= dm {
                let off = (b - 192) * 256 + data[pos + 1];
                assert(tr_data[pos + 1] == data[pos + 1]);
                if off < om {
                    lemma_scan_truncated(original, original, off as int, off as int, om, om, off as int);
                }
            }
        } else {
            let end = pos + b + 1;
            if end <= dm {
                assert(tr_data.subrange(pos + 1, end) =~= data.subrange(pos + 1, end));
                if end < dm {
                    lemma_scan_truncated(original, data, end, bound, om, dm, bound2);
                    match scan_labels(tr_orig, tr_data, end, bound2) {
                        Ok(rest) => {
                            assert(tr_data.subrange(pos + 1, end) == data.subrange(pos + 1, end));
                        },
                        Err(_) => {},
                    }
                }
            }
        }
    }
}

/// Truncating the packet can only turn a successful payload decode
/// into an out-of-bounds failure: the RDATA bytes themselves are kept,
/// only names may chase pointers past the cut.
proof fn lemma_rdata_truncated(typ: Type, rdata: Seq<u8>, original: Seq<u8>, m: int)
    requires
        rdata_model(typ, rdata, original) is Ok,
        0 <= m <= original.len(),
    ensures
        rdata_model(typ, rdata, original.take(m)) == Err::<RDataModel, Error>(
            Error::UnexpectedEOF,
        ) || rdata_model(typ, rdata, original.take(m)) == rdata_model(typ, rdata, original),
{
    assert(rdata.take(rdata.len() as int) =~= rdata);
    match typ {
        Type::CNAME | Type::NS | Type::PTR => {
            lemma_scan_truncated(original, rdata, 0, original.len() as int, m, rdata.len() as int, m);
        },
        Type::MX => {
            let sub = rdata.subrange(2, rdata.len() as int);
            assert(sub.take(sub.len() as int) =~= sub);
            lemma_scan_truncated(original, sub, 0, original.len() as int, m, sub.len() as int, m);
        },
        Type::SRV => {
            let sub = rdata.subrange(6, rdata.len() as int);
            assert(sub.take(sub.len() as int) =~= sub);
            lemma_scan_truncated(original, sub, 0, original.len() as int, m, sub.len() as int, m);
        },
        Type::SOA => {
            lemma_scan_truncated(original, rdata, 0, original.len() as int, m, rdata.len() as int, m);
            match scan_labels(original.take(m), rdata, 0, m) {
                Ok(_) => {
                    let p1 = scan_wire_len(rdata, 0);
                    let sub = rdata.subrange(p1, rdata.len() as int);
                    assert(sub.take(sub.len() as int) =~= sub);
                    lemma_scan_truncated(
                        original,
                        sub,
                        0,
                        original.len() as int,
                        m,
                        sub.len() as int,
                        m,
                    );
                },
                Err(_) => {},
            }
        },
        _ => {},
    }
}

/// The wire length of a name is never negative.
proof fn lemma_scan_wire_len_nonneg(data: Seq<u8>, pos: int)
    ensures
        scan_wire_len(data, pos) >= 0,
    decreases data.len() - pos,
{
    if 0 <= pos < data.len() {
        let b = data[pos];
        if 0 < b < 64 {
            if pos + b + 1 < data.len() {
                lemma_scan_wire_len_nonneg(data, pos + b + 1);
            }
        }
    }
}

/// A successfully parsed question ends within the buffer.
proof fn lemma_question_end(data: Seq<u8>, pos: int)
    requires
        question_model(data, pos) is Ok,
    ensures
        question_model(data, pos).unwrap().1 <= data.len(),
{
}

/// A successfully parsed question section ends within the buffer.
proof fn lemma_questions_end(data: Seq<u8>, pos: int, n: int)
    requires
        0 <= pos <= data.len(),
        questions_model(data, pos, n) is Ok,
    ensures
        pos <= questions_model(data, pos, n).unwrap().1 <= data.len(),
    decreases n,
{
    if n > 0 {
        match question_model(data, pos) {
            Ok((_, end)) => {
                lemma_question_end(data, pos);
                lemma_scan_wire_len_nonneg(data.subrange(pos, data.len() as int), 0);
                assert(pos <= end);
                lemma_questions_end(data, end, n - 1);
            },
            Err(_) => {},
        }
    }
}

/// A successfully parsed record ends within the buffer.
proof fn lemma_record_end(data: Seq<u8>, pos: int)
    requires
        record_model(data, pos) is Ok,
    ensures
        record_model(data, pos).unwrap().1 <= data.len(),
{
}

/// A successfully parsed record section ends within the buffer.
proof fn lemma_records_end(data: Seq<u8>, pos: int, n: int)
    requires
        0 <= pos <= data.len(),
        records_model(data, pos, n) is Ok,
    ensures
        pos <= records_model(data, pos, n).unwrap().1 <= data.len(),
    decreases n,
{
    if n > 0 {
        match record_model(data, pos) {
            Ok((_, end)) => {
                lemma_record_end(data, pos);
                lemma_scan_wire_len_nonneg(data.subrange(pos, data.len() as int), 0);
                assert(pos <= end);
                lemma_records_end(data, end, n - 1);
            },
            Err(_) => {},
        }
    }
}

/// A successfully parsed additional section ends within the buffer.
proof fn lemma_additional_end(data: Seq<u8>, pos: int, n: int, opt: Option<OptModel>)
    requires
        0 <= pos <= data.len(),
        additional_model(data, pos, n, opt) is Ok,
    ensures
        pos <= additional_model(data, pos, n, opt).unwrap().2 <= data.len(),
    decreases n,
{
    if n > 0 {
        if is_opt_start(data, pos) {
            match opt_model(data, pos) {
                Ok((o, end)) => {
                    assert(pos <= end <= data.len());
                    lemma_additional_end(data, end, n - 1, Some(o));
                },
                Err(_) => {},
            }
        } else {
            match record_model(data, pos) {
                Ok((_, end)) => {
                    lemma_record_end(data, pos);
                    lemma_scan_wire_len_nonneg(data.subrange(pos, data.len() as int), 0);
                    assert(pos <= end);
                    lemma_additional_end(data, end, n - 1, opt);
                },
                Err(_) => {},
            }
        }
    }
}

/// Truncating the packet can only turn a successfully parsed question
/// into an out-of-bounds failure.
proof fn lemma_question_truncated(data: Seq<u8>, pos: int, m: int)
    requires
        question_model(data, pos) is Ok,
        0 <= pos <= m <= data.len(),
    ensures
        question_model(data.take(m), pos) == Err::<(QuestionModel, int), Error>(
            Error::UnexpectedEOF,
        ) || question_model(data.take(m), pos) == question_model(data, pos),
{
    let tr = data.take(m);
    let sub = data.subrange(pos, data.len() as int);
    let sub_t = tr.subrange(pos, m);
    assert(sub_t =~= sub.take(m - pos));
    lemma_scan_truncated(data, sub, 0, data.len() as int, m, m - pos, m);
    lemma_scan_wire_len_nonneg(sub, 0);
    match scan_labels(tr, sub_t, 0, m) {
        Ok(_) => {
            let end = pos + scan_wire_len(sub, 0);
            if end + 4 <= m {
                assert(tr[end] == data[end]);
                assert(tr[end + 1] == data[end + 1]);
                assert(tr[end + 2] == data[end + 2]);
                assert(tr[end + 3] == data[end + 3]);
            }
        },
        Err(_) => {},
    }
}

/// Truncating the packet can only turn a successfully parsed record
/// into an out-of-bounds failure.
proof fn lemma_record_truncated(data: Seq<u8>, pos: int, m: int)
    requires
        record_model(data, pos) is Ok,
        0 <= pos <= m <= data.len(),
    ensures
        record_model(data.take(m), pos) == Err::<(RecordModel, int), Error>(Error::UnexpectedEOF)
            || record_model(data.take(m), pos) == record_model(data, pos),
{
    let tr = data.take(m);
    let sub = data.subrange(pos, data.len() as int);
    let sub_t = tr.subrange(pos, m);
    assert(sub_t =~= sub.take(m - pos));
    lemma_scan_truncated(data, sub, 0, data.len() as int, m, m - pos, m);
    lemma_scan_wire_len_nonneg(sub, 0);
    match scan_labels(tr, sub_t, 0, m) {
        Ok(_) => {
            let nend = pos + scan_wire_len(sub, 0);
            if nend + 10 <= m {
                assert forall|k: int| 0 <= k < 10 implies tr[nend + k] == #[trigger] data[nend + k] by {}
                let rdlen = crate::bytes::be16(data[nend + 8], data[nend + 9]) as int;
                if nend + 10 + rdlen <= m {
                    let rdata = data.subrange(nend + 10, nend + 10 + rdlen);
                    assert(tr.subrange(nend + 10, nend + 10 + rdlen) =~= rdata);
                    let t_code = crate::bytes::be16(data[nend], data[nend + 1]);
                    match crate::enums::type_of_code(t_code) {
                        Some(typ) => {
                            match rdata_model(typ, rdata, data) {
                                Ok(_) => {
                                    lemma_rdata_truncated(typ, rdata, data, m);
                                },
                                Err(_) => {},
                            }
                        },
                        None => {},
                    }
                }
            }
        },
        Err(_) => {},
    }
}

/// Truncating the packet can only turn a successfully parsed OPT
/// pseudo-record into an out-of-bounds failure.
proof fn lemma_opt_truncated(data: Seq<u8>, pos: int, m: int)
    requires
        opt_model(data, pos) is Ok,
        0 <= pos <= m <= data.len(),
    ensures
        opt_model(data.take(m), pos) == Err::<(OptModel, int), Error>(Error::UnexpectedEOF)
            || opt_model(data.take(m), pos) == opt_model(data, pos),
{
    let tr = data.take(m);
    if pos + 11 <= m {
        assert forall|k: int| 0 <= k < 11 implies tr[pos + k] == #[trigger] data[pos + k] by {}
        let rdlen = crate::bytes::be16(data[pos + 9], data[pos + 10]) as int;
        if pos + 11 + rdlen <= m {
            assert(tr.subrange(pos + 11, pos + 11 + rdlen) =~= data.subrange(
                pos + 11,
                pos + 11 + rdlen,
            ));
        }
    }
}

/// Truncating the packet can only turn a successfully parsed question
/// section into an out-of-bounds failure.
proof fn lemma_questions_truncated(data: Seq<u8>, pos: int, n: int, m: int)
    requires
        questions_model(data, pos, n) is Ok,
        0 <= pos <= m <= data.len(),
    ensures
        questions_model(data.take(m), pos, n) == Err::<(Seq<QuestionModel>, int), Error>(
            Error::UnexpectedEOF,
        ) || questions_model(data.take(m), pos, n) == questions_model(data, pos, n),
    decreases n,
{
    let tr = data.take(m);
    if n > 0 {
        match question_model(data, pos) {
            Ok((q, end)) => {
                lemma_question_truncated(data, pos, m);
                lemma_scan_wire_len_nonneg(data.subrange(pos, data.len() as int), 0);
                assert(pos <= end);
                if question_model(tr, pos) == question_model(data, pos) {
                    assert(end <= m) by {
                        lemma_question_end(tr, pos);
                    }
                    lemma_questions_truncated(data, end, n - 1, m);
                }
            },
            Err(_) => {},
        }
    }
}

/// Truncating the packet can only turn a successfully parsed record
/// section into an out-of-bounds failure.
proof fn lemma_records_truncated(data: Seq<u8>, pos: int, n: int, m: int)
    requires
        records_model(data, pos, n) is Ok,
        0 <= pos <= m <= data.len(),
    ensures
        records_model(data.take(m), pos, n) == Err::<(Seq<RecordModel>, int), Error>(
            Error::UnexpectedEOF,
        ) || records_model(data.take(m), pos, n) == records_model(data, pos, n),
    decreases n,
{
    let tr = data.take(m);
    if n > 0 {
        match record_model(data, pos) {
            Ok((_, end)) => {
                lemma_record_truncated(data, pos, m);
                lemma_scan_wire_len_nonneg(data.subrange(pos, data.len() as int), 0);
                assert(pos <= end);
                if record_model(tr, pos) == record_model(data, pos) {
                    assert(end <= m) by {
                        lemma_record_end(tr, pos);
                    }
                    lemma_records_truncated(data, end, n - 1, m);
                }
            },
            Err(_) => {},
        }
    }
}

/// Truncating the packet can only turn a successfully parsed
/// additional section into an out-of-bounds failure.
#[verifier::rlimit(100)]
#[verifier::spinoff_prover]
proof fn lemma_additional_truncated(data: Seq<u8>, pos: int, n: int, opt: Option<OptModel>, m: int)
    requires
        additional_model(data, pos, n, opt) is Ok,
        0 <= pos <= m <= data.len(),
    ensures
        additional_model(data.take(m), pos, n, opt) == Err::<
            (Seq<RecordModel>, Option<OptModel>, int),
            Error,
        >(Error::UnexpectedEOF) || additional_model(data.take(m), pos, n, opt) == additional_model(
            data,
            pos,
            n,
            opt,
        ),
    decreases n,
{
    let tr = data.take(m);
    if n > 0 {
        if is_opt_start(data, pos) {
            if pos + 3 <= m {
                assert(is_opt_start(tr, pos));
                match opt_model(data, pos) {
                    Ok((o, end)) => {
                        lemma_opt_truncated(data, pos, m);
                        assert(pos <= end);
                        if opt_model(tr, pos) == opt_model(data, pos) {
                            assert(end <= m);
                            lemma_additional_truncated(data, end, n - 1, Some(o), m);
                        }
                    },
                    Err(_) => {},
                }
            } else {
                assert(!is_opt_start(tr, pos));
                // The truncated buffer ends inside the record head, so
                // the record path fails before reading its type.
                if pos < m {
                    let sub_t = tr.subrange(pos, m);
                    assert(sub_t[0] == data[pos]);
                    assert(data[pos] == 0);
                    assert(scan_labels(tr, sub_t, 0, m) == Ok::<Seq<Seq<u8>>, Error>(
                        Seq::empty(),
                    ));
                    assert(scan_wire_len(sub_t, 0) == 1);
                    assert(pos + 1 + 10 > m);
                    assert(record_model(tr, pos) == Err::<(RecordModel, int), Error>(
                        Error::UnexpectedEOF,
                    ));
                } else {
                    let sub_t = tr.subrange(pos, m);
                    assert(sub_t.len() == 0);
                    assert(record_model(tr, pos) == Err::<(RecordModel, int), Error>(
                        Error::UnexpectedEOF,
                    ));
                }
            }
        } else {
            assert(!is_opt_start(tr, pos));
            match record_model(data, pos) {
                Ok((_, end)) => {
                    lemma_record_truncated(data, pos, m);
                    lemma_scan_wire_len_nonneg(data.subrange(pos, data.len() as int), 0);
                    assert(pos <= end);
                    if record_model(tr, pos) == record_model(data, pos) {
                        assert(end <= m) by {
                            lemma_record_end(tr, pos);
                        }
                        lemma_additional_truncated(data, end, n - 1, opt, m);
                    }
                },
                Err(_) => {},
            }
        }
    }
}

/// Bounds: cutting any bytes off the parsed span of a valid packet
/// makes parsing fail with `UnexpectedEOF` or `HeaderTooShort`, never
/// succeed.
pub proof fn lemma_truncation(data: Seq<u8>, m: int)
    requires
        packet_model(data) is Ok,
        0 <= m < packet_model(data).unwrap().1,
    ensures
        packet_model(data.take(m)) == Err::<(PacketModel, int), Error>(Error::UnexpectedEOF)
            || packet_model(data.take(m)) == Err::<(PacketModel, int), Error>(
            Error::HeaderTooShort,
        ),
{
    let tr = data.take(m);
    let header = header_model(data).unwrap();
    let consumed = packet_model(data).unwrap().1;
    match questions_model(data, 12, header.questions as int) {
        Ok((_, p1)) => {
            lemma_questions_end(data, 12, header.questions as int);
            match records_model(data, p1, header.answers as int) {
                Ok((_, p2)) => {
                    lemma_records_end(data, p1, header.answers as int);
                    match records_model(data, p2, header.nameservers as int) {
                        Ok((_, p3)) => {
                            lemma_records_end(data, p2, header.nameservers as int);
                            lemma_additional_end(data, p3, header.additional as int, None);
                            assert(consumed <= data.len());
                            assert(m <= data.len());
                            if m < 12 {
                                assert(header_model(tr) == Err::<Header, Error>(
                                    Error::HeaderTooShort,
                                ));
                            } else {
                                assert forall|k: int| 0 <= k < 12 implies tr[k] == #[trigger] data[k] by {}
                                assert(header_model(tr) == Ok::<Header, Error>(header));
                                lemma_questions_truncated(data, 12, header.questions as int, m);
                                if questions_model(tr, 12, header.questions as int)
                                    == questions_model(data, 12, header.questions as int) {
                                    lemma_questions_end(tr, 12, header.questions as int);
                                    assert(p1 <= m);
                                    lemma_records_truncated(data, p1, header.answers as int, m);
                                    if records_model(tr, p1, header.answers as int)
                                        == records_model(data, p1, header.answers as int) {
                                        lemma_records_end(tr, p1, header.answers as int);
                                        assert(p2 <= m);
                                        lemma_records_truncated(
                                            data,
                                            p2,
                                            header.nameservers as int,
                                            m,
                                        );
                                        if records_model(tr, p2, header.nameservers as int)
                                            == records_model(data, p2, header.nameservers as int) {
                                            lemma_records_end(tr, p2, header.nameservers as int);
                                            assert(p3 <= m);
                                            lemma_additional_truncated(
                                                data,
                                                p3,
                                                header.additional as int,
                                                None,
                                                m,
                                            );
                                            if additional_model(
                                                tr,
                                                p3,
                                                header.additional as int,
                                                None,
                                            ) == additional_model(
                                                data,
                                                p3,
                                                header.additional as int,
                                                None,
                                            ) {
                                                lemma_additional_end(
                                                    tr,
                                                    p3,
                                                    header.additional as int,
                                                    None,
                                                );
                                                assert(consumed <= m);
                                                assert(false);
                                            }
                                        }
                                    }
                                }
                            }
                        },
                        Err(_) => {},
                    }
                },
                Err(_) => {},
            }
        },
        Err(_) => {},
    }
}

} // verus!
