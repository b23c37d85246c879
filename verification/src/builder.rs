//! The query builder: renders a header, literal (uncompressed) question
//! names, and an optional EDNS0 OPT pseudo-record into wire octets.

use vstd::prelude::*;
use vstd::slice::slice_subrange;
use vstd::string::StringSliceAdditionalSpecFns;

use crate::bytes::{be16_bytes, push_u16};
use crate::enums::{query_class_code_of, query_type_code_of, QueryClass, QueryType};
use crate::header::{header_bytes, write_header, Header};
use crate::structs::QuestionModel;

verus! {

/// What the builder refuses before writing any bytes; never a wire
/// error.
#[derive(Debug, PartialEq, Eq, Structural, Clone, Copy)]
pub enum BuilderError {
    /// The name contains a character outside the ASCII range.
    NameIsNotAscii,
    /// A label of the name is empty.
    EmptyLabel,
    /// A label of the name is longer than 63 octets.
    LabelTooLong,
    /// The name's wire encoding would exceed 255 octets.
    NameTooLong,
    /// The question count would not fit its 16-bit header field.
    TooManyQuestions,
}

/// The position of the first dot in `b`, or its length when there is
/// none.
pub open spec fn first_dot(b: Seq<u8>) -> nat
    decreases b.len(),
{
    if b.len() == 0 {
        0
    } else if b[0] == 46 {
        0
    } else {
        1 + first_dot(b.drop_first())
    }
}

/// The labels of a dotted name: the byte runs between dots.  An empty
/// name has no labels; a trailing dot adds none.
pub open spec fn split_labels(b: Seq<u8>) -> Seq<Seq<u8>>
    decreases b.len(),
{
    if b.len() == 0 {
        Seq::empty()
    } else {
        let i = first_dot(b) as int;
        if i >= b.len() {
            seq![b]
        } else {
            seq![b.take(i)] + split_labels(b.subrange(i + 1, b.len() as int))
        }
    }
}

/// Whether each label of a dotted name is acceptable on the wire:
/// the checks of `write_name`, in the order it makes them.
pub open spec fn name_check(b: Seq<u8>) -> Result<(), BuilderError>
    decreases b.len(),
{
    if b.len() == 0 {
        Ok(())
    } else {
        let i = first_dot(b) as int;
        let lab_len = if i >= b.len() {
            b.len() as int
        } else {
            i
        };
        if lab_len == 0 {
            Err(BuilderError::EmptyLabel)
        } else if lab_len > 63 {
            Err(BuilderError::LabelTooLong)
        } else if i >= b.len() {
            Ok(())
        } else {
            name_check(b.subrange(i + 1, b.len() as int))
        }
    }
}

/// The literal wire encoding of a label sequence: each label behind
/// its length octet, closed by the zero octet.
pub open spec fn encode_labels(labels: Seq<Seq<u8>>) -> Seq<u8>
    decreases labels.len(),
{
    if labels.len() == 0 {
        seq![0u8]
    } else {
        seq![labels[0].len() as u8] + labels[0] + encode_labels(labels.drop_first())
    }
}

/// The wire bytes of one question: the encoded name, the QTYPE code,
/// and the QCLASS code with the unicast-response bit on top.
pub open spec fn question_chunk(q: QuestionModel) -> Seq<u8> {
    encode_labels(q.qname) + be16_bytes(query_type_code_of(q.qtype)) + be16_bytes(
        (query_class_code_of(q.qclass) + if q.prefer_unicast {
            0x8000int
        } else {
            0int
        }) as u16,
    )
}

/// The wire bytes of a question section.
pub open spec fn questions_bytes(qs: Seq<QuestionModel>) -> Seq<u8>
    decreases qs.len(),
{
    if qs.len() == 0 {
        Seq::empty()
    } else {
        question_chunk(qs[0]) + questions_bytes(qs.drop_first())
    }
}

/// The wire bytes of the EDNS0 OPT pseudo-record the builder emits: a
/// root name, TYPE 41, the maximum UDP size in the class field, the
/// extended rcode, version and flags in the TTL field, and no RDATA.
pub open spec fn opt_chunk(udp: u16, extrcode: u8, version: u8, flags: u16) -> Seq<u8> {
    seq![0u8] + be16_bytes(41) + be16_bytes(udp) + seq![extrcode, version] + be16_bytes(flags)
        + be16_bytes(0)
}

/// The header of a query packet: standard query, recursion as asked,
/// `n` questions, and one additional record when an OPT rides along.
pub open spec fn query_header(id: u16, recursion_desired: bool, n: u16, has_opt: bool) -> Header {
    Header {
        id,
        query: true,
        opcode: crate::enums::Opcode::StandardQuery,
        authoritative: false,
        truncated: false,
        recursion_desired,
        recursion_available: false,
        authenticated_data: false,
        checking_disabled: false,
        response_code: crate::enums::ResponseCode::NoError,
        questions: n,
        answers: 0,
        nameservers: 0,
        additional: if has_opt {
            1
        } else {
            0
        },
    }
}

/// Builds a query packet: a header, appended questions, and optionally
/// an EDNS0 OPT record.
///
/// Over-long names are refused before any bytes are written; the
/// output appears only through `build`.
#[derive(Debug)]
pub struct Builder {
    id: u16,
    recursion_desired: bool,
    questions: u16,
    body: Vec<u8>,
    opt: Option<(u16, u8, u8, u16)>,
}

impl Builder {
    /// The identifier the packet will carry.
    pub closed spec fn spec_id(&self) -> u16 {
        self.id
    }

    /// Whether the packet will ask for recursion.
    pub closed spec fn spec_recursion_desired(&self) -> bool {
        self.recursion_desired
    }

    /// How many questions have been appended.
    pub closed spec fn spec_questions(&self) -> u16 {
        self.questions
    }

    /// The wire bytes of the questions appended so far.
    pub closed spec fn spec_body(&self) -> Seq<u8> {
        self.body@
    }

    /// The OPT parameters set so far, if any.
    pub closed spec fn spec_opt(&self) -> Option<(u16, u8, u8, u16)> {
        self.opt
    }

    /// Starts a standard query with the given identifier and
    /// recursion-desired flag.
    pub fn new_query(id: u16, recursion_desired: bool) -> (r: Builder)
        ensures
            r.spec_id() == id,
            r.spec_recursion_desired() == recursion_desired,
            r.spec_questions() == 0,
            r.spec_body() == Seq::<u8>::empty(),
            r.spec_opt() is None,
    {
        Builder { id, recursion_desired, questions: 0, body: Vec::new(), opt: None }
    }

    /// Appends one question.  The name is dotted ASCII text; each
    /// label must hold 1 to 63 octets and the whole encoding at most
    /// 255.  On an error nothing changes.
    pub fn add_question(
        &mut self,
        name: &str,
        prefer_unicast: bool,
        qtype: QueryType,
        qclass: QueryClass,
    ) -> (r: Result<(), BuilderError>)
        ensures
            match r {
                Ok(()) => {
                    &&& vstd::string::is_ascii(name)
                    &&& name.spec_bytes().len() <= 253
                    &&& name_check(name.spec_bytes()) is Ok
                    &&& old(self).spec_questions() < u16::MAX
                    &&& final(self).spec_body() == old(self).spec_body() + question_chunk(
                        QuestionModel {
                            qname: split_labels(name.spec_bytes()),
                            prefer_unicast,
                            qtype,
                            qclass,
                        },
                    )
                    &&& final(self).spec_questions() == old(self).spec_questions() + 1
                    &&& final(self).spec_id() == old(self).spec_id()
                    &&& final(self).spec_recursion_desired() == old(self).spec_recursion_desired()
                    &&& final(self).spec_opt() == old(self).spec_opt()
                },
                Err(e) => {
                    &&& *final(self) == *old(self)
                    &&& e == (if !vstd::string::is_ascii(name) {
                        BuilderError::NameIsNotAscii
                    } else if name.spec_bytes().len() > 253 {
                        BuilderError::NameTooLong
                    } else if name_check(name.spec_bytes()) is Err {
                        name_check(name.spec_bytes()).unwrap_err()
                    } else {
                        BuilderError::TooManyQuestions
                    })
                },
            },
    {
        if !name.is_ascii() {
            return Err(BuilderError::NameIsNotAscii);
        }
        let bytes = name.as_bytes();
        if bytes.len() > 253 {
            return Err(BuilderError::NameTooLong);
        }
        if let Err(e) = check_name(bytes) {
            return Err(e);
        }
        if self.questions == u16::MAX {
            return Err(BuilderError::TooManyQuestions);
        }
        let ghost before = self.body@;
        write_name(&mut self.body, bytes);
        push_u16(&mut self.body, qtype.code());
        let qc_raw: u16 = qclass.code() + if prefer_unicast {
            0x8000u16
        } else {
            0u16
        };
        push_u16(&mut self.body, qc_raw);
        self.questions += 1;
        proof {
            assert(self.body@ =~= before + question_chunk(
                QuestionModel {
                    qname: split_labels(name.spec_bytes()),
                    prefer_unicast,
                    qtype,
                    qclass,
                },
            ));
        }
        Ok(())
    }

    /// Asks for an EDNS0 OPT record announcing the given maximum UDP
    /// payload size, extended rcode, version and flags; a second call
    /// replaces the first.
    pub fn set_opt(&mut self, udp: u16, extrcode: u8, version: u8, flags: u16)
        ensures
            final(self).spec_opt() == Some((udp, extrcode, version, flags)),
            final(self).spec_body() == old(self).spec_body(),
            final(self).spec_questions() == old(self).spec_questions(),
            final(self).spec_id() == old(self).spec_id(),
            final(self).spec_recursion_desired() == old(self).spec_recursion_desired(),
    {
        self.opt = Some((udp, extrcode, version, flags));
    }

    /// Renders the packet: the header with the final counts, the
    /// questions, and the OPT record when one was asked for.
    pub fn build(self) -> (r: Vec<u8>)
        ensures
            r@ == header_bytes(
                query_header(
                    self.spec_id(),
                    self.spec_recursion_desired(),
                    self.spec_questions(),
                    self.spec_opt() is Some,
                ),
            ) + self.spec_body() + (match self.spec_opt() {
                Some((udp, extrcode, version, flags)) => opt_chunk(udp, extrcode, version, flags),
                None => Seq::<u8>::empty(),
            }),
    {
        let mut buf: Vec<u8> = Vec::new();
        let header = Header {
            id: self.id,
            query: true,
            opcode: crate::enums::Opcode::StandardQuery,
            authoritative: false,
            truncated: false,
            recursion_desired: self.recursion_desired,
            recursion_available: false,
            authenticated_data: false,
            checking_disabled: false,
            response_code: crate::enums::ResponseCode::NoError,
            questions: self.questions,
            answers: 0,
            nameservers: 0,
            additional: if self.opt.is_some() {
                1
            } else {
                0
            },
        };
        write_header(&header, &mut buf);
        let mut i: usize = 0;
        let n = self.body.len();
        while i < n
            invariant
                i <= n == self.body@.len(),
                buf@ == header_bytes(
                    query_header(
                        self.spec_id(),
                        self.spec_recursion_desired(),
                        self.spec_questions(),
                        self.spec_opt() is Some,
                    ),
                ) + self.body@.take(i as int),
            decreases n - i,
        {
            let b = self.body[i];
            buf.push(b);
            proof {
                assert(self.body@.take(i + 1) =~= self.body@.take(i as int).push(
                    self.body@[i as int],
                ));
            }
            i += 1;
        }
        proof {
            assert(self.body@.take(n as int) =~= self.body@);
        }
        let ghost with_questions = buf@;
        match self.opt {
            Some((udp, extrcode, version, flags)) => {
                buf.push(0);
                push_u16(&mut buf, 41);
                push_u16(&mut buf, udp);
                buf.push(extrcode);
                buf.push(version);
                push_u16(&mut buf, flags);
                push_u16(&mut buf, 0);
                proof {
                    assert(buf@ =~= with_questions + opt_chunk(udp, extrcode, version, flags));
                }
            },
            None => {},
        }
        buf
    }
}

/// Decides the label checks of `name_check` without writing anything.
fn check_name(bytes: &[u8]) -> (r: Result<(), BuilderError>)
    ensures
        r == name_check(bytes@),
{
    let n = bytes.len();
    proof {
        assert(bytes@.subrange(0, n as int) =~= bytes@);
    }
    let mut start: usize = 0;
    loop
        invariant
            start <= n == bytes@.len(),
            name_check(bytes@) == name_check(bytes@.subrange(start as int, n as int)),
        decreases n - start,
    {
        if start >= n {
            return Ok(());
        }
        let dot = find_dot(bytes, start);
        let lab_len = dot - start;
        if lab_len == 0 {
            return Err(BuilderError::EmptyLabel);
        }
        if lab_len > 63 {
            return Err(BuilderError::LabelTooLong);
        }
        if dot == n {
            return Ok(());
        }
        proof {
            assert(bytes@.subrange(start as int, n as int).subrange(
                dot - start + 1,
                n - start,
            ) =~= bytes@.subrange(dot + 1, n as int));
        }
        start = dot + 1;
    }
}

/// Writes the labels of an already checked dotted name, closed by the
/// zero octet.
fn write_name(body: &mut Vec<u8>, bytes: &[u8])
    requires
        name_check(bytes@) is Ok,
        bytes@.len() <= 253,
    ensures
        final(body)@ == old(body)@ + encode_labels(split_labels(bytes@)),
    decreases bytes@.len(),
{
    let n = bytes.len();
    if n == 0 {
        body.push(0);
        proof {
            assert(body@ =~= old(body)@ + encode_labels(split_labels(bytes@)));
        }
        return ;
    }
    let dot = find_dot(bytes, 0);
    proof {
        lemma_first_dot_at(bytes@, dot as int);
    }
    body.push(dot as u8);
    let mut j: usize = 0;
    let ghost with_len = body@;
    while j < dot
        invariant
            j <= dot <= n == bytes@.len(),
            body@ == with_len + bytes@.take(j as int),
        decreases dot - j,
    {
        let b = bytes[j];
        body.push(b);
        proof {
            assert(bytes@.take(j + 1) =~= bytes@.take(j as int).push(bytes@[j as int]));
        }
        j += 1;
    }
    if dot == n {
        body.push(0);
        proof {
            assert(split_labels(bytes@) == seq![bytes@]);
            assert(encode_labels(seq![bytes@]) == seq![bytes@.len() as u8] + bytes@
                + encode_labels(seq![bytes@].drop_first()));
            assert(seq![bytes@].drop_first() =~= Seq::<Seq<u8>>::empty());
            assert(bytes@.take(dot as int) =~= bytes@);
            assert(body@ =~= old(body)@ + encode_labels(split_labels(bytes@)));
        }
        return ;
    }
    let rest = slice_subrange(bytes, dot + 1, n);
    let ghost rest_seq = bytes@.subrange(dot + 1, n as int);
    write_name(body, rest);
    proof {
        let labels = split_labels(bytes@);
        assert(labels == seq![bytes@.take(dot as int)] + split_labels(rest_seq));
        assert(labels.drop_first() =~= split_labels(rest_seq));
        assert(labels[0] == bytes@.take(dot as int));
        assert(body@ =~= old(body)@ + encode_labels(labels));
    }
}

/// Finds the first dot at or after `start`, or the length when there
/// is none.
fn find_dot(bytes: &[u8], start: usize) -> (r: usize)
    requires
        start <= bytes@.len(),
    ensures
        start <= r <= bytes@.len(),
        r - start == first_dot(bytes@.subrange(start as int, bytes@.len() as int)),
        r < bytes@.len() ==> bytes@[r as int] == 46,
        forall|k: int| start <= k < r ==> bytes@[k] != 46,
    decreases bytes@.len() - start,
{
    let n = bytes.len();
    let mut j = start;
    while j < n
        invariant
            start <= j <= n == bytes@.len(),
            forall|k: int| start <= k < j ==> bytes@[k] != 46,
        decreases n - j,
    {
        if bytes[j] == 46 {
            proof {
                lemma_first_dot_at_general(bytes@, start as int, j as int);
            }
            return j;
        }
        j += 1;
    }
    proof {
        lemma_first_dot_at_general(bytes@, start as int, n as int);
    }
    n
}

/// When no byte before position `j` (relative to `start`) is a dot and
/// the byte there is one, or `j` is the end, `first_dot` of the suffix
/// is `j - start`.
proof fn lemma_first_dot_at_general(b: Seq<u8>, start: int, j: int)
    requires
        0 <= start <= j <= b.len(),
        forall|k: int| start <= k < j ==> b[k] != 46,
        j < b.len() ==> b[j] == 46,
    ensures
        first_dot(b.subrange(start, b.len() as int)) == j - start,
{
    lemma_first_dot_at(b.subrange(start, b.len() as int), j - start);
}

/// `first_dot` is the position of the first dot: no dot before it, and
/// a dot there unless it is the end.
proof fn lemma_first_dot_at(b: Seq<u8>, j: int)
    requires
        0 <= j <= b.len(),
        forall|k: int| 0 <= k < j ==> b[k] != 46,
        j < b.len() ==> b[j] == 46,
    ensures
        first_dot(b) == j,
    decreases b.len(),
{
    if b.len() == 0 {
    } else if b[0] == 46 {
    } else {
        assert(j >= 1);
        lemma_first_dot_at(b.drop_first(), j - 1);
    }
}

} // verus!
