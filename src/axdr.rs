use vstd::prelude::*;

use crate::error::DlmsError;
use crate::length::{
    decode_length, encode_length, length_octets, parse_length, lemma_length_octets_len,
    lemma_length_round_trip, MAX_ENCODED_LENGTH,
};
use crate::types::{copy_bytes, elems_model, lemma_elems_model_index, lemma_elems_model_len, lemma_elems_model_push, CosemData, DataModel};

verus! {

pub const TAG_NULL: u8 = 0;
pub const TAG_ARRAY: u8 = 1;
pub const TAG_STRUCTURE: u8 = 2;
pub const TAG_BOOLEAN: u8 = 3;
pub const TAG_DOUBLE_LONG_UNSIGNED: u8 = 6;
pub const TAG_OCTET_STRING: u8 = 9;
pub const TAG_INTEGER: u8 = 15;
pub const TAG_UNSIGNED: u8 = 17;
pub const TAG_LONG_UNSIGNED: u8 = 18;
pub const TAG_ENUM: u8 = 22;

/// Two big-endian octets.
pub open spec fn be16(x: u16) -> Seq<u8> {
    seq![(x / 0x100) as u8, (x % 0x100) as u8]
}

/// Four big-endian octets.
pub open spec fn be32(x: u32) -> Seq<u8> {
    seq![
        (x / 0x100_0000) as u8,
        ((x / 0x1_0000) % 0x100) as u8,
        ((x / 0x100) % 0x100) as u8,
        (x % 0x100) as u8,
    ]
}

pub open spec fn u16_at(s: Seq<u8>, i: int) -> u16 {
    (s[i] as nat * 0x100 + s[i + 1] as nat) as u16
}

pub open spec fn u32_at(s: Seq<u8>, i: int) -> u32 {
    (s[i] as nat * 0x100_0000 + s[i + 1] as nat * 0x1_0000 + s[i + 2] as nat * 0x100 + s[i
        + 3] as nat) as u32
}

/// The A-XDR encoding of a value, or `None` for the kinds that are not
/// written (and for counts beyond four length octets).
pub open spec fn data_bytes(d: DataModel) -> Option<Seq<u8>>
    decreases d,
{
    match d {
        DataModel::NullData => Some(seq![TAG_NULL]),
        DataModel::Boolean(b) => Some(seq![TAG_BOOLEAN, if b { 1u8 } else { 0u8 }]),
        DataModel::Integer(x) => Some(seq![TAG_INTEGER, x as u8]),
        DataModel::Unsigned(x) => Some(seq![TAG_UNSIGNED, x]),
        DataModel::LongUnsigned(x) => Some(seq![TAG_LONG_UNSIGNED] + be16(x)),
        DataModel::DoubleLongUnsigned(x) => Some(seq![TAG_DOUBLE_LONG_UNSIGNED] + be32(x)),
        DataModel::Enum(x) => Some(seq![TAG_ENUM, x]),
        DataModel::OctetString(v) => if v.len() <= MAX_ENCODED_LENGTH {
            Some(seq![TAG_OCTET_STRING] + length_octets(v.len()) + v)
        } else {
            None
        },
        DataModel::Array(v) => if v.len() <= MAX_ENCODED_LENGTH {
            match elems_bytes(v) {
                Some(b) => Some(seq![TAG_ARRAY] + length_octets(v.len()) + b),
                None => None,
            }
        } else {
            None
        },
        DataModel::Structure(v) => if v.len() <= MAX_ENCODED_LENGTH {
            match elems_bytes(v) {
                Some(b) => Some(seq![TAG_STRUCTURE] + length_octets(v.len()) + b),
                None => None,
            }
        } else {
            None
        },
        _ => None,
    }
}

/// The encodings of a sequence of values, one after the other.
pub open spec fn elems_bytes(v: Seq<DataModel>) -> Option<Seq<u8>>
    decreases v,
{
    if v.len() == 0 {
        Some(Seq::empty())
    } else {
        match (data_bytes(v[0]), elems_bytes(v.subrange(1, v.len() as int))) {
            (Some(a), Some(b)) => Some(a + b),
            _ => None,
        }
    }
}

/// The value at the front of `s` and the number of octets it takes.
pub open spec fn parse_data(s: Seq<u8>) -> Option<(DataModel, int)>
    decreases s.len(), 0int, 0int,
{
    if s.len() == 0 {
        None
    } else {
        let t = s[0];
        if t == TAG_NULL {
            Some((DataModel::NullData, 1))
        } else if t == TAG_BOOLEAN || t == TAG_INTEGER || t == TAG_UNSIGNED || t == TAG_ENUM {
            if s.len() < 2 {
                None
            } else if t == TAG_BOOLEAN {
                Some((DataModel::Boolean(s[1] != 0), 2))
            } else if t == TAG_INTEGER {
                Some((DataModel::Integer(s[1] as i8), 2))
            } else if t == TAG_UNSIGNED {
                Some((DataModel::Unsigned(s[1]), 2))
            } else {
                Some((DataModel::Enum(s[1]), 2))
            }
        } else if t == TAG_LONG_UNSIGNED {
            if s.len() < 3 {
                None
            } else {
                Some((DataModel::LongUnsigned(u16_at(s, 1)), 3))
            }
        } else if t == TAG_DOUBLE_LONG_UNSIGNED {
            if s.len() < 5 {
                None
            } else {
                Some((DataModel::DoubleLongUnsigned(u32_at(s, 1)), 5))
            }
        } else if t == TAG_OCTET_STRING || t == TAG_ARRAY || t == TAG_STRUCTURE {
            match parse_length(s.subrange(1, s.len() as int)) {
                Some((n, k)) => {
                    let start = 1 + k;
                    if t == TAG_OCTET_STRING {
                        if start + n <= s.len() {
                            Some(
                                (
                                    DataModel::OctetString(s.subrange(start, start + n)),
                                    start + n,
                                ),
                            )
                        } else {
                            None
                        }
                    } else {
                        match parse_elems(s.subrange(start, s.len() as int), n) {
                            Some((es, c)) => if start + c <= s.len() {
                                if t == TAG_ARRAY {
                                    Some((DataModel::Array(es), start + c))
                                } else {
                                    Some((DataModel::Structure(es), start + c))
                                }
                            } else {
                                None
                            },
                            None => None,
                        }
                    }
                },
                None => None,
            }
        } else {
            None
        }
    }
}

/// `n` values read one after the other from the front of `s`, and the
/// number of octets they take.
pub open spec fn parse_elems(s: Seq<u8>, n: nat) -> Option<(Seq<DataModel>, int)>
    decreases s.len(), 1int, n,
{
    if n == 0 {
        Some((Seq::empty(), 0))
    } else {
        match parse_data(s) {
            Some((d, c)) => if 0 < c <= s.len() {
                match parse_elems(s.subrange(c, s.len() as int), (n - 1) as nat) {
                    Some((ds, c2)) => Some((seq![d] + ds, c + c2)),
                    None => None,
                }
            } else {
                None
            },
            None => None,
        }
    }
}

proof fn lemma_be16(x: u16, rest: Seq<u8>)
    ensures
        u16_at(be16(x) + rest, 0) == x,
{
    let s = be16(x) + rest;
    assert(s[0] == (x / 0x100) as u8);
    assert(s[1] == (x % 0x100) as u8);
}

pub proof fn lemma_be32_value(x: u32)
    ensures
        u32_at(be32(x), 0) == x,
{
    let s = be32(x);
    assert(s[0] == (x / 0x100_0000) as u8);
    assert(s[1] == ((x / 0x1_0000) % 0x100) as u8);
    assert(s[2] == ((x / 0x100) % 0x100) as u8);
    assert(s[3] == (x % 0x100) as u8);
}

proof fn lemma_be32(x: u32, rest: Seq<u8>)
    ensures
        u32_at(be32(x) + rest, 0) == x,
{
    let s = be32(x) + rest;
    assert(s[0] == (x / 0x100_0000) as u8);
    assert(s[1] == ((x / 0x1_0000) % 0x100) as u8);
    assert(s[2] == ((x / 0x100) % 0x100) as u8);
    assert(s[3] == (x % 0x100) as u8);
}

/// Reading back the encoding of a value gives the value and its length,
/// whatever follows it.
pub proof fn lemma_data_round_trip(d: DataModel, rest: Seq<u8>)
    requires
        data_bytes(d) is Some,
    ensures
        parse_data(data_bytes(d)->0 + rest) == Some((d, data_bytes(d)->0.len() as int)),
    decreases d,
{
    let b = data_bytes(d)->0;
    let s = b + rest;
    match d {
        DataModel::NullData => {},
        DataModel::Boolean(x) => {
            assert(s[1] == b[1]);
        },
        DataModel::Integer(x) => {
            assert(s[1] == b[1]);
            assert(((x as u8) as i8) == x) by (bit_vector);
        },
        DataModel::Unsigned(x) => {
            assert(s[1] == b[1]);
        },
        DataModel::Enum(x) => {
            assert(s[1] == b[1]);
        },
        DataModel::LongUnsigned(x) => {
            lemma_be16(x, rest);
            assert(s =~= seq![TAG_LONG_UNSIGNED] + (be16(x) + rest));
            assert(s[1] == (be16(x) + rest)[0]);
            assert(s[2] == (be16(x) + rest)[1]);
        },
        DataModel::DoubleLongUnsigned(x) => {
            lemma_be32(x, rest);
            assert(s =~= seq![TAG_DOUBLE_LONG_UNSIGNED] + (be32(x) + rest));
            assert(s[1] == (be32(x) + rest)[0]);
            assert(s[2] == (be32(x) + rest)[1]);
            assert(s[3] == (be32(x) + rest)[2]);
            assert(s[4] == (be32(x) + rest)[3]);
        },
        DataModel::OctetString(v) => {
            let lo = length_octets(v.len());
            lemma_length_octets_len(v.len());
            assert(s.subrange(1, s.len() as int) =~= lo + (v + rest));
            lemma_length_round_trip(v.len(), v + rest);
            assert(s.subrange(1 + lo.len() as int, 1 + lo.len() + v.len() as int) =~= v);
        },
        DataModel::Array(v) => {
            lemma_aggregate_round_trip(d, v, TAG_ARRAY, rest);
        },
        DataModel::Structure(v) => {
            lemma_aggregate_round_trip(d, v, TAG_STRUCTURE, rest);
        },
        _ => {},
    }
}

/// Every value that the codec writes reads back as itself, with nothing
/// left over.
pub proof fn law_data_round_trip(d: DataModel)
    requires
        data_bytes(d) is Some,
    ensures
        parse_data(data_bytes(d)->0) == Some((d, data_bytes(d)->0.len() as int)),
{
    lemma_data_round_trip(d, Seq::empty());
    assert(data_bytes(d)->0 + Seq::<u8>::empty() =~= data_bytes(d)->0);
}

proof fn lemma_aggregate_round_trip(d: DataModel, v: Seq<DataModel>, tag: u8, rest: Seq<u8>)
    requires
        (tag == TAG_ARRAY && d == DataModel::Array(v)) || (tag == TAG_STRUCTURE && d
            == DataModel::Structure(v)),
        data_bytes(d) is Some,
    ensures
        parse_data(data_bytes(d)->0 + rest) == Some((d, data_bytes(d)->0.len() as int)),
    decreases d, 0int,
{
    let eb = elems_bytes(v)->0;
    let lo = length_octets(v.len());
    let b = data_bytes(d)->0;
    let s = b + rest;
    assert(b == seq![tag] + lo + eb);
    lemma_length_octets_len(v.len());
    assert(s.subrange(1, s.len() as int) =~= lo + (eb + rest));
    lemma_length_round_trip(v.len(), eb + rest);
    assert(s.subrange(1 + lo.len() as int, s.len() as int) =~= eb + rest);
    lemma_elems_round_trip(v, rest);
}

pub proof fn lemma_elems_round_trip(v: Seq<DataModel>, rest: Seq<u8>)
    requires
        elems_bytes(v) is Some,
    ensures
        parse_elems(elems_bytes(v)->0 + rest, v.len()) == Some((v, elems_bytes(v)->0.len() as int)),
    decreases v,
{
    if v.len() > 0 {
        let a = data_bytes(v[0])->0;
        let tail = v.subrange(1, v.len() as int);
        let b = elems_bytes(tail)->0;
        let s = elems_bytes(v)->0 + rest;
        assert(s =~= a + (b + rest));
        lemma_data_round_trip(v[0], b + rest);
        lemma_data_len_pos(v[0]);
        assert(s.subrange(a.len() as int, s.len() as int) =~= b + rest);
        lemma_elems_round_trip(tail, rest);
        assert(seq![v[0]] + tail =~= v);
    } else {
        assert(v =~= Seq::empty());
    }
}

proof fn lemma_data_len_pos(d: DataModel)
    requires
        data_bytes(d) is Some,
    ensures
        data_bytes(d)->0.len() >= 1,
{
}

/// Appends the A-XDR encoding of `data`. Kinds outside the written subset
/// give `Unsupported`; then what was appended so far is left in place.
pub fn encode_data(data: &CosemData, buffer: &mut Vec<u8>) -> (r: Result<(), DlmsError>)
    ensures
        match data_bytes(data@) {
            Some(b) => r is Ok && final(buffer)@ == old(buffer)@ + b,
            None => r == Err::<(), DlmsError>(DlmsError::Unsupported) && final(buffer)@.len()
                >= old(buffer)@.len() && final(buffer)@.subrange(0, old(buffer)@.len() as int)
                == old(buffer)@,
        },
    decreases data,
{
    let ghost start = buffer@;
    match data {
        CosemData::NullData => {
            buffer.push(TAG_NULL);
        },
        CosemData::Boolean(val) => {
            buffer.push(TAG_BOOLEAN);
            buffer.push(if *val { 1u8 } else { 0u8 });
        },
        CosemData::Integer(val) => {
            buffer.push(TAG_INTEGER);
            buffer.push(*val as u8);
        },
        CosemData::Unsigned(val) => {
            buffer.push(TAG_UNSIGNED);
            buffer.push(*val);
        },
        CosemData::LongUnsigned(val) => {
            buffer.push(TAG_LONG_UNSIGNED);
            buffer.push((*val / 0x100) as u8);
            buffer.push((*val % 0x100) as u8);
        },
        CosemData::DoubleLongUnsigned(val) => {
            buffer.push(TAG_DOUBLE_LONG_UNSIGNED);
            buffer.push((*val / 0x100_0000) as u8);
            buffer.push(((*val / 0x1_0000) % 0x100) as u8);
            buffer.push(((*val / 0x100) % 0x100) as u8);
            buffer.push((*val % 0x100) as u8);
        },
        CosemData::Enum(val) => {
            buffer.push(TAG_ENUM);
            buffer.push(*val);
        },
        CosemData::OctetString(val) => {
            if val.len() > MAX_ENCODED_LENGTH {
                return Err(DlmsError::Unsupported);
            }
            buffer.push(TAG_OCTET_STRING);
            encode_length(buffer, val.len());
            append_bytes(buffer, val.as_slice());
        },
        CosemData::Array(elements) => {
            return encode_aggregate(TAG_ARRAY, elements, buffer);
        },
        CosemData::Structure(elements) => {
            return encode_aggregate(TAG_STRUCTURE, elements, buffer);
        },
        _ => {
            return Err(DlmsError::Unsupported);
        },
    }
    assert(buffer@ =~= start + data_bytes(data@)->0);
    Ok(())
}

fn encode_aggregate(tag: u8, elements: &Vec<CosemData>, buffer: &mut Vec<u8>) -> (r: Result<
    (),
    DlmsError,
>)
    requires
        tag == TAG_ARRAY || tag == TAG_STRUCTURE,
    ensures
        ({
            let d = if tag == TAG_ARRAY {
                DataModel::Array(elems_model(elements@))
            } else {
                DataModel::Structure(elems_model(elements@))
            };
            match data_bytes(d) {
                Some(b) => r is Ok && final(buffer)@ == old(buffer)@ + b,
                None => r == Err::<(), DlmsError>(DlmsError::Unsupported) && final(buffer)@.len()
                    >= old(buffer)@.len() && final(buffer)@.subrange(0, old(buffer)@.len() as int)
                    == old(buffer)@,
            }
        }),
    decreases elements, 0int,
{
    let ghost m = elems_model(elements@);
    let ghost start = buffer@;
    proof {
        lemma_elems_model_len(elements@);
    }
    if elements.len() > MAX_ENCODED_LENGTH {
        return Err(DlmsError::Unsupported);
    }
    buffer.push(tag);
    encode_length(buffer, elements.len());
    let ghost head = buffer@;
    let mut i: usize = 0;
    proof {
        assert(head.subrange(0, start.len() as int) =~= start);
        assert(m.subrange(0, m.len() as int) =~= m);
        assert(buffer@.subrange(head.len() as int, buffer@.len() as int) =~= Seq::<u8>::empty());
        assert(buffer@.subrange(0, head.len() as int) =~= head);
        match elems_bytes(m) {
            Some(b) => {
                assert(Seq::<u8>::empty() + b =~= b);
            },
            None => {},
        }
    }
    while i < elements.len()
        invariant
            i <= elements.len(),
            m == elems_model(elements@),
            m.len() == elements@.len(),
            buffer@.len() >= head.len(),
            buffer@.subrange(0, head.len() as int) == head,
            head.len() > start.len(),
            start == old(buffer)@,
            head.subrange(0, start.len() as int) == start,
            elems_bytes(m) == match elems_bytes(m.subrange(i as int, m.len() as int)) {
                Some(b) => Some(buffer@.subrange(head.len() as int, buffer@.len() as int) + b),
                None => None::<Seq<u8>>,
            },
        decreases elements.len() - i,
    {
        proof {
            assert(decreases_to!(elements => elements@[i as int]));
            lemma_elems_model_index(elements@, i as int);
        }
        let ghost before = buffer@;
        let ghost tail = m.subrange(i as int, m.len() as int);
        proof {
            assert(tail[0] == m[i as int]);
            assert(tail.subrange(1, tail.len() as int) =~= m.subrange(i + 1, m.len() as int));
        }
        let res = encode_data(&elements[i], buffer);
        if res.is_err() {
            proof {
                assert(data_bytes(tail[0]) is None);
                assert(elems_bytes(tail) is None);
                assert(buffer@.subrange(0, start.len() as int) =~= head.subrange(
                    0,
                    start.len() as int,
                ));
                assert(buffer@.subrange(0, head.len() as int) =~= before.subrange(
                    0,
                    head.len() as int,
                ));
            }
            return Err(DlmsError::Unsupported);
        }
        proof {
            let a = data_bytes(m[i as int])->0;
            assert(buffer@ == before + a);
            assert(buffer@.subrange(0, head.len() as int) =~= before.subrange(
                0,
                head.len() as int,
            ));
            assert(buffer@.subrange(head.len() as int, buffer@.len() as int) =~= before.subrange(
                head.len() as int,
                before.len() as int,
            ) + a);
            match elems_bytes(m.subrange(i + 1, m.len() as int)) {
                Some(b2) => {
                    assert(elems_bytes(tail) == Some(a + b2));
                    assert(before.subrange(head.len() as int, before.len() as int) + (a + b2)
                        =~= (before.subrange(head.len() as int, before.len() as int) + a) + b2);
                },
                None => {},
            }
        }
        i = i + 1;
    }
    proof {
        assert(m.subrange(m.len() as int, m.len() as int) =~= Seq::<DataModel>::empty());
        assert(buffer@ =~= head + buffer@.subrange(head.len() as int, buffer@.len() as int));
    }
    Ok(())
}

/// Appends the bytes of `src`.
pub fn append_bytes(dst: &mut Vec<u8>, src: &[u8])
    ensures
        final(dst)@ == old(dst)@ + src@,
{
    let mut i: usize = 0;
    while i < src.len()
        invariant
            i <= src.len(),
            dst@ == old(dst)@ + src@.subrange(0, i as int),
        decreases src.len() - i,
    {
        dst.push(src[i]);
        i = i + 1;
        assert(dst@ =~= old(dst)@ + src@.subrange(0, i as int));
    }
    assert(src@.subrange(0, src@.len() as int) =~= src@);
}

/// Reads the value at the front of `buffer` and returns it with the bytes
/// that follow it.
pub fn decode_data(buffer: &[u8]) -> (r: Result<(CosemData, &[u8]), DlmsError>)
    ensures
        match parse_data(buffer@) {
            Some((m, c)) => r matches Ok((d, rest)) && d@ == m && 0 < c <= buffer@.len()
                && rest@ == buffer@.subrange(c, buffer@.len() as int),
            None => r == Err::<(CosemData, &[u8]), DlmsError>(DlmsError::Xdlms),
        },
    decreases buffer@.len(), 0int,
{
    let len = buffer.len();
    if len == 0 {
        return Err(DlmsError::Xdlms);
    }
    let tag = buffer[0];
    if tag == TAG_NULL {
        return Ok((CosemData::NullData, vstd::slice::slice_subrange(buffer, 1, len)));
    }
    if tag == TAG_BOOLEAN || tag == TAG_INTEGER || tag == TAG_UNSIGNED || tag == TAG_ENUM {
        if len < 2 {
            return Err(DlmsError::Xdlms);
        }
        let v = buffer[1];
        let d = if tag == TAG_BOOLEAN {
            CosemData::Boolean(v != 0)
        } else if tag == TAG_INTEGER {
            CosemData::Integer(v as i8)
        } else if tag == TAG_UNSIGNED {
            CosemData::Unsigned(v)
        } else {
            CosemData::Enum(v)
        };
        return Ok((d, vstd::slice::slice_subrange(buffer, 2, len)));
    }
    if tag == TAG_LONG_UNSIGNED {
        if len < 3 {
            return Err(DlmsError::Xdlms);
        }
        let v = (buffer[1] as u16) * 0x100 + buffer[2] as u16;
        return Ok((CosemData::LongUnsigned(v), vstd::slice::slice_subrange(buffer, 3, len)));
    }
    if tag == TAG_DOUBLE_LONG_UNSIGNED {
        if len < 5 {
            return Err(DlmsError::Xdlms);
        }
        let v = (buffer[1] as u32) * 0x100_0000 + (buffer[2] as u32) * 0x1_0000 + (buffer[3] as u32)
            * 0x100 + buffer[4] as u32;
        return Ok(
            (CosemData::DoubleLongUnsigned(v), vstd::slice::slice_subrange(buffer, 5, len)),
        );
    }
    if tag == TAG_OCTET_STRING || tag == TAG_ARRAY || tag == TAG_STRUCTURE {
        let after_tag = vstd::slice::slice_subrange(buffer, 1, len);
        let (n, k) = match decode_length(after_tag) {
            Some(p) => p,
            None => {
                return Err(DlmsError::Xdlms);
            },
        };
        let start = 1 + k;
        if tag == TAG_OCTET_STRING {
            if n > len - start {
                return Err(DlmsError::Xdlms);
            }
            let bytes = copy_bytes(vstd::slice::slice_subrange(buffer, start, start + n));
            return Ok(
                (CosemData::OctetString(bytes), vstd::slice::slice_subrange(buffer, start + n, len)),
            );
        }
        let body = vstd::slice::slice_subrange(buffer, start, len);
        let (elements, c) = decode_elems(body, n)?;
        if c > len - start {
            return Err(DlmsError::Xdlms);
        }
        let d = if tag == TAG_ARRAY {
            CosemData::Array(elements)
        } else {
            CosemData::Structure(elements)
        };
        return Ok((d, vstd::slice::slice_subrange(buffer, start + c, len)));
    }
    Err(DlmsError::Xdlms)
}

fn decode_elems(s: &[u8], n: usize) -> (r: Result<(Vec<CosemData>, usize), DlmsError>)
    ensures
        match parse_elems(s@, n as nat) {
            Some((ms, c)) => r matches Ok((v, c2)) && elems_model(v@) == ms && c2 == c,
            None => r == Err::<(Vec<CosemData>, usize), DlmsError>(DlmsError::Xdlms),
        },
    decreases s@.len(), 1int,
{
    let mut elements: Vec<CosemData> = Vec::new();
    let mut pos: usize = 0;
    let mut i: usize = 0;
    proof {
        assert(s@.subrange(0, s@.len() as int) =~= s@);
        assert(elems_model(elements@) =~= Seq::<DataModel>::empty());
        match parse_elems(s@, n as nat) {
            Some((ds, c)) => {
                assert(Seq::<DataModel>::empty() + ds =~= ds);
            },
            None => {},
        }
    }
    while i < n
        invariant
            i <= n,
            pos <= s@.len(),
            parse_elems(s@, n as nat) == match parse_elems(
                s@.subrange(pos as int, s@.len() as int),
                (n - i) as nat,
            ) {
                Some((ds, c)) => Some((elems_model(elements@) + ds, pos + c)),
                None => None::<(Seq<DataModel>, int)>,
            },
        decreases n - i,
    {
        let rest = vstd::slice::slice_subrange(s, pos, s.len());
        let ghost rs = rest@;
        let (d, after) = match decode_data(rest) {
            Ok(p) => p,
            Err(e) => {
                return Err(DlmsError::Xdlms);
            },
        };
        let c = rest.len() - after.len();
        proof {
            let (m, cc) = parse_data(rs)->0;
            assert(c == cc);
            assert(rs.subrange(cc, rs.len() as int) =~= s@.subrange(pos + cc, s@.len() as int));
            lemma_elems_model_push(elements@, d);
            match parse_elems(s@.subrange(pos + cc, s@.len() as int), (n - i - 1) as nat) {
                Some((ds, c3)) => {
                    assert(elems_model(elements@) + (seq![m] + ds) =~= elems_model(elements@).push(m)
                        + ds);
                },
                None => {},
            }
        }
        elements.push(d);
        pos = pos + c;
        i = i + 1;
    }
    proof {
        assert(elems_model(elements@) + Seq::<DataModel>::empty() =~= elems_model(elements@));
    }
    Ok((elements, pos))
}

} // verus!
