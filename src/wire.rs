use vstd::prelude::*;

use crate::axdr::{be16, u16_at};
use crate::length::{decode_length, parse_length, MAX_ENCODED_LENGTH};
use crate::types::copy_bytes;

verus! {

/// An optional byte: a zero flag for absence, else a non-zero flag and the
/// byte.
pub open spec fn opt_byte_bytes(v: Option<u8>) -> Seq<u8> {
    match v {
        Some(b) => seq![1u8, b],
        None => seq![0u8],
    }
}

pub open spec fn parse_opt_byte(s: Seq<u8>, i: int) -> Option<(Option<u8>, int)> {
    if i < 0 || i >= s.len() {
        None
    } else if s[i] == 0 {
        Some((None, i + 1))
    } else if i + 1 >= s.len() {
        None
    } else {
        Some((Some(s[i + 1]), i + 2))
    }
}

/// Reads an optional byte at `i`; gives the value and the index after it.
pub fn read_opt_byte(s: &[u8], i: usize) -> (r: Option<(Option<u8>, usize)>)
    ensures
        match parse_opt_byte(s@, i as int) {
            Some((v, j)) => r == Some((v, j as usize)),
            None => r is None,
        },
{
    if i >= s.len() {
        None
    } else if s[i] == 0 {
        Some((None, i + 1))
    } else if i + 1 >= s.len() {
        None
    } else {
        Some((Some(s[i + 1]), i + 2))
    }
}

pub proof fn lemma_opt_byte(s: Seq<u8>, i: int, v: Option<u8>)
    requires
        0 <= i,
        i + opt_byte_bytes(v).len() <= s.len(),
        s.subrange(i, i + opt_byte_bytes(v).len()) == opt_byte_bytes(v),
    ensures
        parse_opt_byte(s, i) == Some((v, i + opt_byte_bytes(v).len())),
{
    let p = opt_byte_bytes(v);
    assert(s[i] == p[0]);
    if p.len() == 2 {
        assert(s[i + 1] == p[1]);
    }
}

/// The length-prefixed octets `v` (definite-length count, then the bytes).
pub open spec fn counted_bytes(v: Seq<u8>) -> Seq<u8> {
    crate::length::length_octets(v.len()) + v
}

pub open spec fn parse_counted(s: Seq<u8>, i: int) -> Option<(Seq<u8>, int)> {
    if i < 0 || i > s.len() {
        None
    } else {
        match parse_length(s.subrange(i, s.len() as int)) {
            Some((n, k)) => if i + k + n <= s.len() {
                Some((s.subrange(i + k, i + k + n), i + k + n))
            } else {
                None
            },
            None => None,
        }
    }
}

/// Reads a definite length at `i` and that many octets after it.
pub fn read_counted(s: &[u8], i: usize) -> (r: Option<(Vec<u8>, usize)>)
    ensures
        match parse_counted(s@, i as int) {
            Some((v, j)) => r matches Some((w, jj)) && w@ == v && jj == j,
            None => r is None,
        },
{
    if i > s.len() {
        return None;
    }
    let tail = vstd::slice::slice_subrange(s, i, s.len());
    match decode_length(tail) {
        Some((n, k)) => {
            if n > s.len() - i - k {
                None
            } else {
                let v = copy_bytes(vstd::slice::slice_subrange(s, i + k, i + k + n));
                Some((v, i + k + n))
            }
        },
        None => None,
    }
}

pub proof fn lemma_counted(s: Seq<u8>, i: int, v: Seq<u8>)
    requires
        0 <= i,
        v.len() <= MAX_ENCODED_LENGTH,
        i + counted_bytes(v).len() <= s.len(),
        s.subrange(i, i + counted_bytes(v).len()) == counted_bytes(v),
    ensures
        parse_counted(s, i) == Some((v, i + counted_bytes(v).len())),
{
    let lo = crate::length::length_octets(v.len());
    let rest = s.subrange(i + lo.len(), s.len() as int);
    crate::length::lemma_length_octets_len(v.len());
    assert(s.subrange(i, s.len() as int) =~= lo + rest) by {
        assert(s.subrange(i, i + lo.len()) =~= s.subrange(i, i + counted_bytes(v).len()).subrange(
            0,
            lo.len() as int,
        ));
    }
    crate::length::lemma_length_round_trip(v.len(), rest);
    assert(s.subrange(i + lo.len(), i + lo.len() + v.len()) =~= s.subrange(
        i,
        i + counted_bytes(v).len(),
    ).subrange(lo.len() as int, counted_bytes(v).len() as int));
}

/// Reads two big-endian octets at `i`.
pub fn read_u16(s: &[u8], i: usize) -> (r: u16)
    requires
        i + 2 <= s@.len(),
    ensures
        r == u16_at(s@, i as int),
{
    (s[i] as u16) * 0x100 + s[i + 1] as u16
}

/// Appends two big-endian octets.
pub fn push_u16(buf: &mut Vec<u8>, x: u16)
    ensures
        final(buf)@ == old(buf)@ + be16(x),
{
    buf.push((x / 0x100) as u8);
    buf.push((x % 0x100) as u8);
    assert(final(buf)@ =~= old(buf)@ + be16(x));
}

pub proof fn lemma_u16(s: Seq<u8>, i: int, x: u16)
    requires
        0 <= i,
        i + 2 <= s.len(),
        s.subrange(i, i + 2) == be16(x),
    ensures
        u16_at(s, i) == x,
{
    assert(s[i] == be16(x)[0]);
    assert(s[i + 1] == be16(x)[1]);
}

} // verus!
