use vstd::prelude::*;

verus! {

/// The largest length or element count that the definite-length form written
/// here carries (four length octets).
pub const MAX_ENCODED_LENGTH: usize = 0xFFFF_FFFF;

/// Definite-length encoding, shared by BER lengths and A-XDR element counts:
/// one octet below 0x80, else `0x80 | K` followed by K big-endian octets,
/// with K as small as possible.
pub open spec fn length_octets(n: nat) -> Seq<u8> {
    if n < 0x80 {
        seq![n as u8]
    } else if n < 0x100 {
        seq![0x81u8, n as u8]
    } else if n < 0x1_0000 {
        seq![0x82u8, (n / 0x100) as u8, (n % 0x100) as u8]
    } else if n < 0x100_0000 {
        seq![0x83u8, (n / 0x1_0000) as u8, ((n / 0x100) % 0x100) as u8, (n % 0x100) as u8]
    } else {
        seq![
            0x84u8,
            (n / 0x100_0000) as u8,
            ((n / 0x1_0000) % 0x100) as u8,
            ((n / 0x100) % 0x100) as u8,
            (n % 0x100) as u8,
        ]
    }
}

/// The value of the `k` big-endian octets of `s` that start at `start`.
pub open spec fn be_octets_value(s: Seq<u8>, start: int, k: int) -> nat {
    if k == 1 {
        s[start] as nat
    } else if k == 2 {
        s[start] as nat * 0x100 + s[start + 1] as nat
    } else if k == 3 {
        s[start] as nat * 0x1_0000 + s[start + 1] as nat * 0x100 + s[start + 2] as nat
    } else {
        s[start] as nat * 0x100_0000 + s[start + 1] as nat * 0x1_0000 + s[start + 2] as nat
            * 0x100 + s[start + 3] as nat
    }
}

/// What a definite length at the front of `s` says: its value and how many
/// octets it takes. Long forms of one to four octets are read.
pub open spec fn parse_length(s: Seq<u8>) -> Option<(nat, int)> {
    if s.len() == 0 {
        None
    } else if s[0] < 0x80 {
        Some((s[0] as nat, 1))
    } else {
        let k = s[0] - 0x80;
        if 1 <= k <= 4 && s.len() >= 1 + k {
            Some((be_octets_value(s, 1, k), 1 + k))
        } else {
            None
        }
    }
}

pub proof fn lemma_length_octets_len(n: nat)
    requires
        n <= 0xFFFF_FFFF,
    ensures
        1 <= length_octets(n).len() <= 5,
        n < 0x80 ==> length_octets(n).len() == 1,
{
}

/// Reading back a written length gives the length, whatever follows it.
pub proof fn lemma_length_round_trip(n: nat, rest: Seq<u8>)
    requires
        n <= 0xFFFF_FFFF,
    ensures
        parse_length(length_octets(n) + rest) == Some((n, length_octets(n).len() as int)),
{
    let s = length_octets(n) + rest;
    if n < 0x80 {
        assert(s[0] == n as u8);
    } else if n < 0x100 {
        assert(s[0] == 0x81u8);
        assert(s[1] == n as u8);
    } else if n < 0x1_0000 {
        assert(s[0] == 0x82u8);
        assert(s[1] == (n / 0x100) as u8);
        assert(s[2] == (n % 0x100) as u8);
    } else if n < 0x100_0000 {
        assert(s[0] == 0x83u8);
        assert(s[1] == (n / 0x1_0000) as u8);
        assert(s[2] == ((n / 0x100) % 0x100) as u8);
        assert(s[3] == (n % 0x100) as u8);
    } else {
        assert(s[0] == 0x84u8);
        assert(s[1] == (n / 0x100_0000) as u8);
        assert(s[2] == ((n / 0x1_0000) % 0x100) as u8);
        assert(s[3] == ((n / 0x100) % 0x100) as u8);
        assert(s[4] == (n % 0x100) as u8);
    }
}

/// Appends the definite-length encoding of `n`.
pub fn encode_length(buf: &mut Vec<u8>, n: usize)
    requires
        n <= MAX_ENCODED_LENGTH,
    ensures
        final(buf)@ == old(buf)@ + length_octets(n as nat),
{
    if n < 0x80 {
        buf.push(n as u8);
    } else if n < 0x100 {
        buf.push(0x81u8);
        buf.push(n as u8);
    } else if n < 0x1_0000 {
        buf.push(0x82u8);
        buf.push((n / 0x100) as u8);
        buf.push((n % 0x100) as u8);
    } else if n < 0x100_0000 {
        buf.push(0x83u8);
        buf.push((n / 0x1_0000) as u8);
        buf.push(((n / 0x100) % 0x100) as u8);
        buf.push((n % 0x100) as u8);
    } else {
        buf.push(0x84u8);
        buf.push((n / 0x100_0000) as u8);
        buf.push(((n / 0x1_0000) % 0x100) as u8);
        buf.push(((n / 0x100) % 0x100) as u8);
        buf.push((n % 0x100) as u8);
    }
    assert(final(buf)@ =~= old(buf)@ + length_octets(n as nat));
}

/// Reads a definite length at the front of `s`: its value and the number of
/// octets it takes.
pub fn decode_length(s: &[u8]) -> (r: Option<(usize, usize)>)
    ensures
        match parse_length(s@) {
            Some((n, k)) => r == Some((n as usize, k as usize)) && n <= MAX_ENCODED_LENGTH,
            None => r is None,
        },
{
    if s.len() == 0 {
        return None;
    }
    let first = s[0];
    if first < 0x80 {
        return Some((first as usize, 1));
    }
    let k = first - 0x80;
    if k < 1 || k > 4 || s.len() < 1 + k as usize {
        return None;
    }
    let value: u64 = if k == 1 {
        s[1] as u64
    } else if k == 2 {
        s[1] as u64 * 0x100 + s[2] as u64
    } else if k == 3 {
        s[1] as u64 * 0x1_0000 + s[2] as u64 * 0x100 + s[3] as u64
    } else {
        s[1] as u64 * 0x100_0000 + s[2] as u64 * 0x1_0000 + s[3] as u64 * 0x100 + s[4] as u64
    };
    Some((value as usize, 1 + k as usize))
}

} // verus!
