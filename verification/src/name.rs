//! The domain name codec: scanning a label sequence out of a packet,
//! following RFC 1035 compression pointers safely, and rendering the
//! result as dotted text.

use vstd::prelude::*;
use vstd::slice::{slice_subrange, slice_to_vec};

use crate::error::Error;
use crate::text::push_char;

verus! {

/// True when every byte is in the ASCII range.
pub open spec fn all_ascii(s: Seq<u8>) -> bool {
    forall|i: int| 0 <= i < s.len() ==> s[i] < 0x80
}

/// The label sequence read from `data` at `pos`, following compression
/// pointers into `original`.
///
/// A length octet below 64 announces a literal label of that many
/// bytes; a zero length terminates the name; an octet of 192 or above
/// starts a two-octet pointer into `original`.  Every pointer target
/// must lie strictly below `bound`, which then shrinks to that target,
/// so pointer chains can only move backwards and the scan terminates.
pub open spec fn scan_labels(original: Seq<u8>, data: Seq<u8>, pos: int, bound: int) -> Result<
    Seq<Seq<u8>>,
    Error,
>
    decreases bound, data.len() - pos,
{
    if !(0 <= pos < data.len()) {
        Err(Error::UnexpectedEOF)
    } else {
        let b = data[pos];
        if b == 0 {
            Ok(Seq::empty())
        } else if b >= 192 {
            if pos + 2 > data.len() {
                Err(Error::UnexpectedEOF)
            } else {
                let off = (b - 192) * 256 + data[pos + 1];
                if off >= original.len() {
                    Err(Error::UnexpectedEOF)
                } else if off >= bound {
                    Err(Error::BadPointer)
                } else {
                    scan_labels(original, original, off, off)
                }
            }
        } else if b < 64 {
            let end = pos + b + 1;
            if end > data.len() {
                Err(Error::UnexpectedEOF)
            } else if !all_ascii(data.subrange(pos + 1, end)) {
                Err(Error::LabelIsNotAscii)
            } else if end >= data.len() {
                Err(Error::UnexpectedEOF)
            } else {
                match scan_labels(original, data, end, bound) {
                    Ok(rest) => Ok(seq![data.subrange(pos + 1, end)] + rest),
                    Err(e) => Err(e),
                }
            }
        } else {
            Err(Error::UnknownLabelFormat)
        }
    }
}

/// How many bytes of `data`, starting at `pos`, the name occupies in
/// the enclosing stream: literal labels up to and including either the
/// terminating zero octet or the first (two-octet) pointer.
///
/// Meaningful only where `scan_labels` succeeds; elsewhere it falls
/// back to zero.
pub open spec fn scan_wire_len(data: Seq<u8>, pos: int) -> int
    decreases data.len() - pos,
{
    if !(0 <= pos < data.len()) {
        0
    } else {
        let b = data[pos];
        if b == 0 {
            pos + 1
        } else if b >= 192 {
            pos + 2
        } else if b < 64 {
            if pos + b + 1 < data.len() {
                scan_wire_len(data, pos + b + 1)
            } else {
                0
            }
        } else {
            0
        }
    }
}

/// A domain name extracted from a packet: the resolved label sequence,
/// plus the number of bytes its encoding occupied in the enclosing
/// stream.
#[derive(Debug)]
pub struct Name {
    labels: Vec<Vec<u8>>,
    wire: usize,
}

/// The label sequences of a vector of label buffers.
pub open spec fn labels_view(ls: Seq<Vec<u8>>) -> Seq<Seq<u8>> {
    Seq::new(ls.len(), |i: int| ls[i]@)
}

impl View for Name {
    type V = Seq<Seq<u8>>;

    closed spec fn view(&self) -> Seq<Seq<u8>> {
        labels_view(self.labels@)
    }
}

/// Two names are equal when their resolved label sequences are equal;
/// how each was compressed on the wire does not matter.
impl PartialEq for Name {
    fn eq(&self, other: &Name) -> (r: bool) {
        if self.labels.len() != other.labels.len() {
            proof {
                assert(self@.len() == self.labels@.len());
                assert(other@.len() == other.labels@.len());
            }
            return false;
        }
        let n = self.labels.len();
        for i in 0..n
            invariant
                n == self.labels@.len() == other.labels@.len(),
                forall|k: int| 0 <= k < i ==> self@[k] == other@[k],
        {
            let a = &self.labels[i];
            let b = &other.labels[i];
            if a.len() != b.len() {
                proof {
                    assert(a@ == self@[i as int]);
                    assert(b@ == other@[i as int]);
                }
                return false;
            }
            let m = a.len();
            for j in 0..m
                invariant
                    i < n == self.labels@.len() == other.labels@.len(),
                    a@ == self@[i as int],
                    b@ == other@[i as int],
                    m == a@.len() == b@.len(),
                    forall|k: int| 0 <= k < j ==> a@[k] == b@[k],
            {
                if a[j] != b[j] {
                    return false;
                }
            }
            proof {
                assert(a@ =~= b@);
            }
        }
        proof {
            assert(self@ =~~= other@);
        }
        true
    }
}

impl vstd::std_specs::cmp::PartialEqSpecImpl for Name {
    open spec fn obeys_eq_spec() -> bool {
        true
    }

    open spec fn eq_spec(&self, other: &Name) -> bool {
        self@ == other@
    }
}

impl Name {
    /// The number of bytes the name's encoding occupies in the
    /// enclosing stream (pointed-at bytes not included).
    pub closed spec fn spec_byte_len(&self) -> int {
        self.wire as int
    }

    /// The number of bytes the name's encoding occupies in the
    /// enclosing stream.
    pub fn byte_len(&self) -> (r: usize)
        ensures
            r == self.spec_byte_len(),
    {
        self.wire
    }

    /// Scans a name that starts at the beginning of `data`, resolving
    /// compression pointers against `original` (the whole packet).
    ///
    /// Succeeds exactly where the `scan_labels` model succeeds, with
    /// the same labels and the same error otherwise; on success the
    /// reported byte length is the model's wire length.
    pub fn scan(data: &[u8], original: &[u8]) -> (r: Result<Name, Error>)
        ensures
            match r {
                Ok(name) => {
                    &&& scan_labels(original@, data@, 0, original@.len() as int) == Ok::<
                        Seq<Seq<u8>>,
                        Error,
                    >(name@)
                    &&& name.spec_byte_len() == scan_wire_len(data@, 0)
                    &&& 1 <= name.spec_byte_len() <= data@.len()
                },
                Err(e) => scan_labels(original@, data@, 0, original@.len() as int) == Err::<
                    Seq<Seq<u8>>,
                    Error,
                >(e),
            },
    {
        let ghost whole = scan_labels(original@, data@, 0, original@.len() as int);
        if data.len() == 0 {
            return Err(Error::UnexpectedEOF);
        }
        let mut parse_data: &[u8] = data;
        let mut pos: usize = 0;
        let mut bound: usize = original.len();
        let mut return_pos: Option<usize> = None;
        let mut labels: Vec<Vec<u8>> = Vec::new();
        loop
            invariant
                data@.len() <= usize::MAX,
                pos < parse_data@.len(),
                parse_data@.len() <= usize::MAX,
                bound <= original@.len(),
                whole == scan_labels(original@, data@, 0, original@.len() as int),
                whole == (match scan_labels(original@, parse_data@, pos as int, bound as int) {
                    Ok(rest) => Ok::<Seq<Seq<u8>>, Error>(labels_view(labels@) + rest),
                    Err(e) => Err::<Seq<Seq<u8>>, Error>(e),
                }),
                match return_pos {
                    None => parse_data@ == data@ && scan_wire_len(data@, 0) == scan_wire_len(
                        data@,
                        pos as int,
                    ),
                    Some(rp) => rp + 2 <= data@.len() && scan_wire_len(data@, 0) == rp + 2,
                },
            decreases bound, parse_data@.len() - pos,
        {
            let b = parse_data[pos];
            if b == 0 {
                let wire = match return_pos {
                    Some(rp) => rp + 2,
                    None => pos + 1,
                };
                proof {
                    assert(scan_labels(original@, parse_data@, pos as int, bound as int) == Ok::<
                        Seq<Seq<u8>>,
                        Error,
                    >(Seq::<Seq<u8>>::empty()));
                    assert(labels_view(labels@) + Seq::<Seq<u8>>::empty() =~= labels_view(
                        labels@,
                    ));
                }
                return Ok(Name { labels, wire });
            } else if b >= 192 {
                if parse_data.len() - pos < 2 {
                    return Err(Error::UnexpectedEOF);
                }
                let off = (b - 192) as usize * 256 + parse_data[pos + 1] as usize;
                if off >= original.len() {
                    return Err(Error::UnexpectedEOF);
                }
                if return_pos.is_none() {
                    return_pos = Some(pos);
                }
                if off >= bound {
                    return Err(Error::BadPointer);
                }
                bound = off;
                pos = off;
                parse_data = original;
            } else if b < 64 {
                let rem = parse_data.len() - pos;
                let blen = b as usize + 1;
                if rem < blen {
                    return Err(Error::UnexpectedEOF);
                }
                let end = pos + blen;
                let lab_slice = slice_subrange(parse_data, pos + 1, end);
                if !check_ascii(lab_slice) {
                    return Err(Error::LabelIsNotAscii);
                }
                if rem == blen {
                    return Err(Error::UnexpectedEOF);
                }
                let label: Vec<u8> = slice_to_vec(lab_slice);
                let ghost labels_before = labels_view(labels@);
                labels.push(label);
                proof {
                    let lab_seq = parse_data@.subrange(pos + 1, end as int);
                    assert(labels_view(labels@) =~= labels_before + seq![lab_seq]);
                    match scan_labels(original@, parse_data@, end as int, bound as int) {
                        Ok(rest) => {
                            assert(labels_before + (seq![lab_seq] + rest) =~= labels_view(labels@)
                                + rest);
                        },
                        Err(_) => {},
                    }
                }
                pos = end;
            } else {
                return Err(Error::UnknownLabelFormat);
            }
        }
    }

    /// The dotted text of the name: labels joined by `.`, each byte
    /// emitted as its ASCII character, without a trailing dot.
    pub fn to_text(&self) -> (r: String)
        ensures
            r@ == name_text(self@),
    {
        let mut text = String::new();
        let n = self.labels.len();
        for i in 0..n
            invariant
                n == self.labels@.len(),
                text@ == name_text(self@.take(i as int)),
        {
            if i > 0 {
                push_char(&mut text, '.');
            }
            let lab = &self.labels[i];
            let m = lab.len();
            let ghost before = text@;
            for j in 0..m
                invariant
                    m == lab@.len(),
                    text@ == before + label_chars(lab@.take(j as int)),
            {
                let c = lab[j] as char;
                push_char(&mut text, c);
                proof {
                    assert(label_chars(lab@.take(j + 1)) =~= label_chars(
                        lab@.take(j as int),
                    ).push(lab@[j as int] as char));
                }
            }
            proof {
                assert(lab@.take(m as int) =~= lab@);
                assert(self@[i as int] == lab@);
                assert(self@.take(i as int).push(lab@) =~= self@.take(i + 1));
                lemma_name_text_push(self@.take(i as int), lab@);
            }
        }
        proof {
            assert(self@.take(n as int) =~= self@);
        }
        text
    }
}

/// Each byte of a label as the character of its code.
pub open spec fn label_chars(l: Seq<u8>) -> Seq<char> {
    Seq::new(l.len(), |i: int| l[i] as char)
}

/// The dotted text of a label sequence: labels joined by `.`, without
/// a trailing dot.
pub open spec fn name_text(labels: Seq<Seq<u8>>) -> Seq<char>
    decreases labels.len(),
{
    if labels.len() == 0 {
        Seq::empty()
    } else if labels.len() == 1 {
        label_chars(labels[0])
    } else {
        label_chars(labels[0]) + seq!['.'] + name_text(labels.drop_first())
    }
}

/// Appending one label extends the dotted text by a dot (when the
/// sequence was not empty) and the label's characters.
pub proof fn lemma_name_text_push(labels: Seq<Seq<u8>>, l: Seq<u8>)
    ensures
        name_text(labels.push(l)) == if labels.len() == 0 {
            label_chars(l)
        } else {
            name_text(labels) + seq!['.'] + label_chars(l)
        },
    decreases labels.len(),
{
    if labels.len() == 0 {
        assert(labels.push(l).len() == 1);
        assert(labels.push(l)[0] == l);
    } else {
        assert(labels.push(l).drop_first() =~= labels.drop_first().push(l));
        lemma_name_text_push(labels.drop_first(), l);
        if labels.len() == 1 {
            assert(labels.push(l)[0] == labels[0]);
            assert(name_text(labels.push(l)) == label_chars(labels[0]) + seq!['.'] + label_chars(
                l,
            ));
        } else {
            assert(labels.push(l)[0] == labels[0]);
            assert(name_text(labels) + seq!['.'] + label_chars(l) =~= label_chars(labels[0])
                + seq!['.'] + (name_text(labels.drop_first()) + seq!['.'] + label_chars(l)));
        }
    }
}

/// Decides whether every byte of a slice is in the ASCII range.
pub(crate) fn check_ascii(s: &[u8]) -> (r: bool)
    ensures
        r == all_ascii(s@),
{
    let n = s.len();
    for j in 0..n
        invariant
            n == s@.len(),
            forall|k: int| 0 <= k < j ==> s@[k] < 0x80,
    {
        if s[j] >= 0x80 {
            return false;
        }
    }
    true
}

} // verus!
