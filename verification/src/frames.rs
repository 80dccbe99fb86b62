//! Incremental decoding of length-delimited frames from the plaintext
//! stream.  A frame is a four-byte little-endian payload length followed by
//! the payload: a one-byte type tag, then a sequence of self-describing
//! fields, each a one-byte field id, a two-byte little-endian data length,
//! and the data itself.  The explicit per-field length is what lets a reader
//! skip fields it does not recognize, so containers written by newer schema
//! versions still parse.

use vstd::prelude::*;

use crate::errors::FramingError;

verus! {

/// One decoded field of a frame.
#[derive(Debug, PartialEq, Eq)]
pub struct Field {
    pub id: u8,
    pub data: Vec<u8>,
}

/// The mathematical value of a field: its id and its data bytes.
pub struct FieldV {
    pub id: u8,
    pub data: Seq<u8>,
}

impl View for Field {
    type V = FieldV;

    open spec fn view(&self) -> FieldV {
        FieldV { id: self.id, data: self.data@ }
    }
}

/// One length-delimited structured record decoded from the plaintext stream.
#[derive(Debug, PartialEq, Eq)]
pub struct Frame {
    pub tag: u8,
    pub fields: Vec<Field>,
}

/// The mathematical value of a frame: its type tag and its field sequence.
pub struct FrameV {
    pub tag: u8,
    pub fields: Seq<FieldV>,
}

impl View for Frame {
    type V = FrameV;

    open spec fn view(&self) -> FrameV {
        FrameV { tag: self.tag, fields: self.fields@.map_values(|f: Field| f@) }
    }
}

/// The value of a two-byte little-endian length.
pub open spec fn le16_val(lo: u8, hi: u8) -> nat {
    lo as nat + 256 * (hi as nat)
}

/// The value of a four-byte little-endian length.
pub open spec fn le32_val(b0: u8, b1: u8, b2: u8, b3: u8) -> nat {
    b0 as nat + 256 * (b1 as nat) + 0x10000 * (b2 as nat) + 0x1000000 * (b3 as nat)
}

/// The value of an eight-byte little-endian integer field.
pub open spec fn le64_val(s: Seq<u8>) -> nat {
    s[0] as nat + 256 * (s[1] as nat) + 0x10000 * (s[2] as nat) + 0x1000000 * (s[3] as nat)
        + 0x100000000 * (s[4] as nat) + 0x10000000000 * (s[5] as nat) + 0x1000000000000 * (
    s[6] as nat) + 0x100000000000000 * (s[7] as nat)
}

/// Reads an eight-byte little-endian integer.
pub fn read_u64_le(d: &[u8]) -> (r: u64)
    requires
        d@.len() == 8,
    ensures
        r as nat == le64_val(d@),
{
    d[0] as u64 + 256 * (d[1] as u64) + 0x10000 * (d[2] as u64) + 0x1000000 * (d[3] as u64)
        + 0x100000000 * (d[4] as u64) + 0x10000000000 * (d[5] as u64) + 0x1000000000000 * (
    d[6] as u64) + 0x100000000000000 * (d[7] as u64)
}

/// The fields encoded in payload bytes `p`, or `None` when a field header or
/// its declared data span runs past the end of the payload.
pub open spec fn spec_parse_fields(p: Seq<u8>) -> Option<Seq<FieldV>>
    decreases p.len(),
{
    if p.len() == 0 {
        Some(Seq::empty())
    } else if p.len() < 3 {
        None
    } else {
        let n = le16_val(p[1], p[2]);
        if p.len() < 3 + n {
            None
        } else {
            match spec_parse_fields(p.skip(3 + n as int)) {
                Option::None => None,
                Option::Some(rest) => Some(
                    seq![FieldV { id: p[0], data: p.subrange(3, 3 + n as int) }] + rest,
                ),
            }
        }
    }
}

/// The frame encoded in payload bytes `p` (a type tag followed by fields),
/// or `None` when the payload is empty or its fields are malformed.
pub open spec fn spec_parse_payload(p: Seq<u8>) -> Option<FrameV> {
    if p.len() < 1 {
        None
    } else {
        match spec_parse_fields(p.skip(1)) {
            Option::None => None,
            Option::Some(fs) => Some(FrameV { tag: p[0], fields: fs }),
        }
    }
}

/// The frame sequence encoded in stream bytes `s`, where `s` starts at byte
/// offset `base` of the whole plaintext.  A stream that ends inside a frame
/// is truncated; a frame whose payload does not decode is malformed.  Either
/// failure is terminal and carries the offset of the offending frame.
pub open spec fn spec_parse_frames(s: Seq<u8>, base: int) -> Result<Seq<FrameV>, FramingError>
    decreases s.len(),
{
    if s.len() == 0 {
        Ok(Seq::empty())
    } else if s.len() < 4 {
        Err(FramingError::Truncated { offset: base as u64 })
    } else {
        let n = le32_val(s[0], s[1], s[2], s[3]);
        if s.len() < 4 + n {
            Err(FramingError::Truncated { offset: base as u64 })
        } else {
            match spec_parse_payload(s.subrange(4, 4 + n as int)) {
                Option::None => Err(FramingError::Malformed { offset: base as u64 }),
                Option::Some(f) => match spec_parse_frames(s.skip(4 + n as int), base + 4 + n) {
                    Result::Err(e) => Err(e),
                    Result::Ok(rest) => Ok(seq![f] + rest),
                },
            }
        }
    }
}

proof fn lemma_fields_step(p: Seq<u8>, i: int)
    requires
        0 <= i,
        i + 3 <= p.len(),
        p.len() >= i + 3 + le16_val(p[i + 1], p[i + 2]),
    ensures
        spec_parse_fields(p.skip(i)) == (match spec_parse_fields(
            p.skip(i + 3 + le16_val(p[i + 1], p[i + 2]) as int),
        ) {
            Option::None => Option::<Seq<FieldV>>::None,
            Option::Some(rest) => Option::Some(
                seq![
                    FieldV {
                        id: p[i],
                        data: p.subrange(i + 3, i + 3 + le16_val(p[i + 1], p[i + 2]) as int),
                    },
                ] + rest,
            ),
        }),
{
    let t = p.skip(i);
    let n = le16_val(p[i + 1], p[i + 2]);
    assert(t[0] == p[i]);
    assert(t[1] == p[i + 1]);
    assert(t[2] == p[i + 2]);
    assert(t.skip(3 + n as int) =~= p.skip(i + 3 + n as int));
    assert(t.subrange(3, 3 + n as int) =~= p.subrange(i + 3, i + 3 + n as int));
}

/// Decodes the fields of one frame payload (the bytes after the type tag);
/// `None` reports a malformed payload.
pub fn parse_fields(p: &[u8]) -> (r: Option<Vec<Field>>)
    ensures
        match spec_parse_fields(p@) {
            Option::Some(fs) => r matches Some(v) && v@.map_values(|f: Field| f@) == fs,
            Option::None => r is None,
        },
{
    let mut out: Vec<Field> = Vec::new();
    let mut i: usize = 0;
    proof {
        assert(p@.skip(0) =~= p@);
        match spec_parse_fields(p@) {
            Option::Some(fs) => {
                assert(out@.map_values(|f: Field| f@) + fs =~= fs);
            },
            Option::None => {},
        }
    }
    while i < p.len()
        invariant
            i <= p@.len(),
            match spec_parse_fields(p@.skip(i as int)) {
                Option::Some(fs) => spec_parse_fields(p@) matches Some(whole) && whole == out@
                    .map_values(|f: Field| f@) + fs,
                Option::None => spec_parse_fields(p@) is None,
            },
        decreases p@.len() - i,
    {
        if p.len() - i < 3 {
            return None;
        }
        let n = p[i + 1] as usize + 256 * (p[i + 2] as usize);
        if p.len() - i - 3 < n {
            return None;
        }
        proof {
            lemma_fields_step(p@, i as int);
        }
        let data = vstd::slice::slice_to_vec(vstd::slice::slice_subrange(p, i + 3, i + 3 + n));
        let field = Field { id: p[i], data };
        let ghost prev = out@;
        out.push(field);
        proof {
            assert(out@.map_values(|f: Field| f@) =~= prev.map_values(|f: Field| f@) + seq![
                FieldV {
                    id: p@[i as int],
                    data: p@.subrange(i as int + 3, i as int + 3 + n as int),
                },
            ]);
            match spec_parse_fields(p@.skip(i as int + 3 + n as int)) {
                Option::Some(rest) => {
                    assert((prev.map_values(|f: Field| f@) + seq![
                        FieldV {
                            id: p@[i as int],
                            data: p@.subrange(i as int + 3, i as int + 3 + n as int),
                        },
                    ]) + rest =~= prev.map_values(|f: Field| f@) + (seq![
                        FieldV {
                            id: p@[i as int],
                            data: p@.subrange(i as int + 3, i as int + 3 + n as int),
                        },
                    ] + rest));
                },
                Option::None => {},
            }
        }
        i = i + 3 + n;
    }
    proof {
        assert(p@.skip(i as int) =~= Seq::<u8>::empty());
        match spec_parse_fields(p@) {
            Option::Some(fs) => {
                assert(out@.map_values(|f: Field| f@) + Seq::<FieldV>::empty() =~= out@.map_values(
                    |f: Field| f@,
                ));
            },
            Option::None => {},
        }
    }
    Some(out)
}

/// Decodes one frame payload: the type tag, then the fields.
pub fn parse_payload(p: &[u8]) -> (r: Option<Frame>)
    ensures
        match spec_parse_payload(p@) {
            Option::Some(f) => r matches Some(fr) && fr@ == f,
            Option::None => r is None,
        },
{
    if p.len() < 1 {
        return None;
    }
    let tag = p[0];
    let rest = vstd::slice::slice_subrange(p, 1, p.len());
    proof {
        assert(rest@ =~= p@.skip(1));
    }
    match parse_fields(rest) {
        Option::Some(fields) => Some(Frame { tag, fields }),
        Option::None => None,
    }
}

proof fn lemma_frames_step(s: Seq<u8>, i: int)
    requires
        0 <= i,
        i + 4 <= s.len(),
        s.len() >= i + 4 + le32_val(s[i], s[i + 1], s[i + 2], s[i + 3]),
    ensures
        spec_parse_frames(s.skip(i), i) == (match spec_parse_payload(
            s.subrange(i + 4, i + 4 + le32_val(s[i], s[i + 1], s[i + 2], s[i + 3]) as int),
        ) {
            Option::None => Result::<Seq<FrameV>, FramingError>::Err(
                FramingError::Malformed { offset: i as u64 },
            ),
            Option::Some(f) => match spec_parse_frames(
                s.skip(i + 4 + le32_val(s[i], s[i + 1], s[i + 2], s[i + 3]) as int),
                i + 4 + le32_val(s[i], s[i + 1], s[i + 2], s[i + 3]),
            ) {
                Result::Err(e) => Err(e),
                Result::Ok(rest) => Ok(seq![f] + rest),
            },
        }),
{
    let t = s.skip(i);
    let n = le32_val(s[i], s[i + 1], s[i + 2], s[i + 3]);
    assert(t[0] == s[i]);
    assert(t[1] == s[i + 1]);
    assert(t[2] == s[i + 2]);
    assert(t[3] == s[i + 3]);
    assert(t.skip(4 + n as int) =~= s.skip(i + 4 + n as int));
    assert(t.subrange(4, 4 + n as int) =~= s.subrange(i + 4, i + 4 + n as int));
}

/// Decodes the whole plaintext stream into its frame sequence, or fails with
/// the first framing error, whose offset names the frame where decoding
/// stopped.
pub fn parse_frames(s: &[u8]) -> (r: Result<Vec<Frame>, FramingError>)
    ensures
        match spec_parse_frames(s@, 0) {
            Result::Ok(fs) => r matches Ok(v) && v@.map_values(|f: Frame| f@) == fs,
            Result::Err(e) => r == Result::<Vec<Frame>, FramingError>::Err(e),
        },
{
    let mut out: Vec<Frame> = Vec::new();
    let mut i: usize = 0;
    proof {
        assert(s@.skip(0) =~= s@);
        match spec_parse_frames(s@, 0) {
            Result::Ok(fs) => {
                assert(out@.map_values(|f: Frame| f@) + fs =~= fs);
            },
            Result::Err(_) => {},
        }
    }
    while i < s.len()
        invariant
            i <= s@.len(),
            match spec_parse_frames(s@.skip(i as int), i as int) {
                Result::Ok(fs) => spec_parse_frames(s@, 0) matches Ok(whole) && whole == out@
                    .map_values(|f: Frame| f@) + fs,
                Result::Err(e) => spec_parse_frames(s@, 0) == Result::<
                    Seq<FrameV>,
                    FramingError,
                >::Err(e),
            },
        decreases s@.len() - i,
    {
        if s.len() - i < 4 {
            return Err(FramingError::Truncated { offset: i as u64 });
        }
        let n = s[i] as usize + 256 * (s[i + 1] as usize) + 0x10000 * (s[i + 2] as usize)
            + 0x1000000 * (s[i + 3] as usize);
        if s.len() - i - 4 < n {
            return Err(FramingError::Truncated { offset: i as u64 });
        }
        proof {
            lemma_frames_step(s@, i as int);
        }
        let payload = vstd::slice::slice_subrange(s, i + 4, i + 4 + n);
        match parse_payload(payload) {
            Option::None => {
                return Err(FramingError::Malformed { offset: i as u64 });
            },
            Option::Some(frame) => {
                let ghost prev = out@;
                let ghost fv = frame@;
                out.push(frame);
                proof {
                    assert(out@.map_values(|f: Frame| f@) =~= prev.map_values(|f: Frame| f@)
                        + seq![fv]);
                    match spec_parse_frames(s@.skip(i as int + 4 + n as int), i as int + 4 + n) {
                        Result::Ok(rest) => {
                            assert((prev.map_values(|f: Frame| f@) + seq![fv]) + rest =~= prev
                                .map_values(|f: Frame| f@) + (seq![fv] + rest));
                        },
                        Result::Err(_) => {},
                    }
                }
                i = i + 4 + n;
            },
        }
    }
    proof {
        assert(s@.skip(i as int) =~= Seq::<u8>::empty());
        match spec_parse_frames(s@, 0) {
            Result::Ok(fs) => {
                assert(out@.map_values(|f: Frame| f@) + Seq::<FrameV>::empty() =~= out@.map_values(
                    |f: Frame| f@,
                ));
            },
            Result::Err(_) => {},
        }
    }
    Ok(out)
}

} // verus!
