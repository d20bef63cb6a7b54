use vstd::prelude::*;

use crate::axdr::{append_bytes, be16, u16_at};
use crate::error::DlmsError;
use crate::types::copy_bytes;
use crate::wire::{lemma_u16, push_u16, read_u16};

verus! {

pub const HDLC_FLAG: u8 = 0x7E;
pub const HDLC_ESCAPE: u8 = 0x7D;
pub const HDLC_ESCAPE_MASK: u8 = 0x20;

/// The frame check sequence that the `crc` crate computes with its
/// CRC-16/IBM-3740 parameters (polynomial 0x1021, initial value 0xFFFF, no
/// reflection, no final xor) over the given bytes.
pub uninterp spec fn fcs16_of(data: Seq<u8>) -> u16;

/// Relies on `crc::Crc::<u16>::checksum` with `crc::CRC_16_IBM_3740`: the
/// checksum depends on the bytes alone.
#[verifier::external_body]
fn frame_check_sequence(data: &[u8]) -> (r: u16)
    ensures
        r == fcs16_of(data@),
{
    crc::Crc::<u16>::new(&crc::CRC_16_IBM_3740).checksum(data)
}

#[derive(Debug, Clone, PartialEq, Eq)]
pub struct HdlcFrame {
    pub address: u16,
    pub control: u8,
    pub information: Vec<u8>,
}

#[derive(Debug, Clone, Copy, PartialEq, Eq, Structural)]
pub enum HdlcFrameError {
    InvalidFrame,
    InvalidFcs,
}

pub struct HdlcFrameModel {
    pub address: u16,
    pub control: u8,
    pub information: Seq<u8>,
}

impl View for HdlcFrame {
    type V = HdlcFrameModel;

    open spec fn view(&self) -> HdlcFrameModel {
        HdlcFrameModel {
            address: self.address,
            control: self.control,
            information: self.information@,
        }
    }
}

/// Address (big-endian), control and information: what the check sequence
/// covers.
pub open spec fn frame_body(f: HdlcFrameModel) -> Seq<u8> {
    be16(f.address) + seq![f.control] + f.information
}

/// Two octets, least significant first.
pub open spec fn le16(x: u16) -> Seq<u8> {
    seq![(x % 0x100) as u8, (x / 0x100) as u8]
}

pub open spec fn le16_at(s: Seq<u8>, i: int) -> u16 {
    (s[i] as nat + s[i + 1] as nat * 0x100) as u16
}

/// One byte as sent: a flag or escape octet becomes the escape octet and
/// the byte with bit 5 flipped.
pub open spec fn stuffed_byte(b: u8) -> Seq<u8> {
    if b == HDLC_FLAG || b == HDLC_ESCAPE {
        seq![HDLC_ESCAPE, b ^ HDLC_ESCAPE_MASK]
    } else {
        seq![b]
    }
}

pub open spec fn stuffed(s: Seq<u8>) -> Seq<u8>
    decreases s.len(),
{
    if s.len() == 0 {
        Seq::empty()
    } else {
        stuffed_byte(s[0]) + stuffed(s.subrange(1, s.len() as int))
    }
}

/// Undoes the escapes; an escape octet at the very end is an error.
pub open spec fn unstuffed(s: Seq<u8>) -> Option<Seq<u8>>
    decreases s.len(),
{
    if s.len() == 0 {
        Some(Seq::empty())
    } else if s[0] == HDLC_ESCAPE {
        if s.len() < 2 {
            None
        } else {
            match unstuffed(s.subrange(2, s.len() as int)) {
                Some(r) => Some(seq![s[1] ^ HDLC_ESCAPE_MASK] + r),
                None => None,
            }
        }
    } else {
        match unstuffed(s.subrange(1, s.len() as int)) {
            Some(r) => Some(seq![s[0]] + r),
            None => None,
        }
    }
}

/// The frame on the wire: flag, the stuffed body and check sequence, flag.
pub open spec fn hdlc_bytes(f: HdlcFrameModel) -> Seq<u8> {
    seq![HDLC_FLAG] + stuffed(frame_body(f) + le16(fcs16_of(frame_body(f)))) + seq![HDLC_FLAG]
}

/// What a received frame says, or why it is refused.
pub open spec fn parse_hdlc(s: Seq<u8>) -> Result<HdlcFrameModel, HdlcFrameError> {
    if s.len() < 6 || s[0] != HDLC_FLAG || s[s.len() - 1] != HDLC_FLAG {
        Err(HdlcFrameError::InvalidFrame)
    } else {
        match unstuffed(s.subrange(1, s.len() - 1)) {
            None => Err(HdlcFrameError::InvalidFrame),
            Some(body) => if body.len() < 5 {
                Err(HdlcFrameError::InvalidFrame)
            } else if le16_at(body, body.len() - 2) != fcs16_of(body.subrange(0, body.len() - 2)) {
                Err(HdlcFrameError::InvalidFcs)
            } else {
                Ok(
                    HdlcFrameModel {
                        address: u16_at(body, 0),
                        control: body[2],
                        information: body.subrange(3, body.len() - 2),
                    },
                )
            },
        }
    }
}

proof fn lemma_unstuff_stuff(s: Seq<u8>, rest: Seq<u8>)
    ensures
        unstuffed(stuffed(s) + rest) == match unstuffed(rest) {
            Some(r) => Some(s + r),
            None => None::<Seq<u8>>,
        },
    decreases s.len(),
{
    if s.len() == 0 {
        assert(stuffed(s) + rest =~= rest);
        match unstuffed(rest) {
            Some(r) => {
                assert(s + r =~= r);
            },
            None => {},
        }
    } else {
        let tail = s.subrange(1, s.len() as int);
        let t = stuffed(s) + rest;
        let sb = stuffed_byte(s[0]);
        lemma_unstuff_stuff(tail, rest);
        assert(t =~= sb + (stuffed(tail) + rest));
        if s[0] == HDLC_FLAG || s[0] == HDLC_ESCAPE {
            let b = s[0];
            assert((b ^ HDLC_ESCAPE_MASK) ^ HDLC_ESCAPE_MASK == b) by (bit_vector);
            assert(t.subrange(2, t.len() as int) =~= stuffed(tail) + rest);
        } else {
            assert(t.subrange(1, t.len() as int) =~= stuffed(tail) + rest);
        }
        match unstuffed(rest) {
            Some(r) => {
                assert(seq![s[0]] + (tail + r) =~= s + r);
            },
            None => {},
        }
    }
}

proof fn lemma_stuffed_len(s: Seq<u8>)
    ensures
        stuffed(s).len() >= s.len(),
    decreases s.len(),
{
    if s.len() > 0 {
        lemma_stuffed_len(s.subrange(1, s.len() as int));
    }
}

/// Every frame reads back as itself.
pub proof fn law_hdlc_round_trip(f: HdlcFrameModel)
    ensures
        parse_hdlc(hdlc_bytes(f)) == Ok::<HdlcFrameModel, HdlcFrameError>(f),
{
    let body = frame_body(f);
    let fcs = fcs16_of(body);
    let full = body + le16(fcs);
    let s = hdlc_bytes(f);
    lemma_stuffed_len(full);
    assert(s.subrange(1, s.len() - 1) =~= stuffed(full) + Seq::<u8>::empty());
    lemma_unstuff_stuff(full, Seq::<u8>::empty());
    assert(full + Seq::<u8>::empty() =~= full);
    assert(full.subrange(0, full.len() - 2) =~= body);
    assert(full[full.len() - 2] == (fcs % 0x100) as u8);
    assert(full[full.len() - 1] == (fcs / 0x100) as u8);
    assert(full.subrange(0, 2) =~= be16(f.address));
    lemma_u16(full, 0, f.address);
    assert(full.subrange(3, full.len() - 2) =~= f.information);
}

fn push_stuffed(out: &mut Vec<u8>, s: &[u8])
    ensures
        final(out)@ == old(out)@ + stuffed(s@),
{
    let mut i: usize = 0;
    assert(s@.subrange(0, s@.len() as int) =~= s@);
    while i < s.len()
        invariant
            i <= s@.len(),
            out@ + stuffed(s@.subrange(i as int, s@.len() as int)) == old(out)@ + stuffed(s@),
        decreases s.len() - i,
    {
        let ghost before = out@;
        let ghost t = s@.subrange(i as int, s@.len() as int);
        let b = s[i];
        if b == HDLC_FLAG || b == HDLC_ESCAPE {
            out.push(HDLC_ESCAPE);
            out.push(b ^ HDLC_ESCAPE_MASK);
        } else {
            out.push(b);
        }
        proof {
            assert(t.subrange(1, t.len() as int) =~= s@.subrange(i + 1, s@.len() as int));
            assert(out@ =~= before + stuffed_byte(b));
            assert(out@ + stuffed(s@.subrange(i + 1, s@.len() as int)) =~= before + stuffed(t));
        }
        i = i + 1;
    }
    assert(stuffed(s@.subrange(s@.len() as int, s@.len() as int)) =~= Seq::<u8>::empty());
    assert(out@ =~= out@ + Seq::<u8>::empty());
}

fn unstuff(s: &[u8]) -> (r: Option<Vec<u8>>)
    ensures
        match unstuffed(s@) {
            Some(v) => r matches Some(w) && w@ == v,
            None => r is None,
        },
{
    let mut out: Vec<u8> = Vec::new();
    let mut i: usize = 0;
    proof {
        assert(s@.subrange(0, s@.len() as int) =~= s@);
        match unstuffed(s@) {
            Some(v) => {
                assert(Seq::<u8>::empty() + v =~= v);
            },
            None => {},
        }
    }
    while i < s.len()
        invariant
            i <= s@.len(),
            unstuffed(s@) == match unstuffed(s@.subrange(i as int, s@.len() as int)) {
                Some(v) => Some(out@ + v),
                None => None::<Seq<u8>>,
            },
        decreases s.len() - i,
    {
        let ghost t = s@.subrange(i as int, s@.len() as int);
        let ghost before = out@;
        if s[i] == HDLC_ESCAPE {
            if i + 1 >= s.len() {
                return None;
            }
            out.push(s[i + 1] ^ HDLC_ESCAPE_MASK);
            proof {
                assert(t.subrange(2, t.len() as int) =~= s@.subrange(i + 2, s@.len() as int));
                match unstuffed(s@.subrange(i + 2, s@.len() as int)) {
                    Some(v) => {
                        assert(before + (seq![t[1] ^ HDLC_ESCAPE_MASK] + v) =~= out@ + v);
                    },
                    None => {},
                }
            }
            i = i + 2;
        } else {
            out.push(s[i]);
            proof {
                assert(t.subrange(1, t.len() as int) =~= s@.subrange(i + 1, s@.len() as int));
                match unstuffed(s@.subrange(i + 1, s@.len() as int)) {
                    Some(v) => {
                        assert(before + (seq![t[0]] + v) =~= out@ + v);
                    },
                    None => {},
                }
            }
            i = i + 1;
        }
    }
    proof {
        assert(s@.subrange(i as int, s@.len() as int) =~= Seq::<u8>::empty());
        assert(out@ + Seq::<u8>::empty() =~= out@);
    }
    Some(out)
}

impl HdlcFrame {
    /// The frame on the wire.
    pub fn to_bytes(&self) -> (r: Result<Vec<u8>, DlmsError>)
        ensures
            r matches Ok(v) && v@ == hdlc_bytes(self@),
    {
        let mut body: Vec<u8> = Vec::new();
        push_u16(&mut body, self.address);
        body.push(self.control);
        append_bytes(&mut body, self.information.as_slice());
        assert(body@ =~= frame_body(self@));
        let checksum = frame_check_sequence(body.as_slice());
        body.push((checksum % 0x100) as u8);
        body.push((checksum / 0x100) as u8);
        assert(body@ =~= frame_body(self@) + le16(fcs16_of(frame_body(self@))));
        let mut frame: Vec<u8> = Vec::new();
        frame.push(HDLC_FLAG);
        push_stuffed(&mut frame, body.as_slice());
        frame.push(HDLC_FLAG);
        assert(frame@ =~= hdlc_bytes(self@));
        Ok(frame)
    }

    /// Reads a frame, telling a malformed frame from a wrong check sequence.
    pub fn check_frame(bytes: &[u8]) -> (r: Result<Self, HdlcFrameError>)
        ensures
            match parse_hdlc(bytes@) {
                Ok(m) => r matches Ok(v) && v@ == m,
                Err(e) => r == Err::<HdlcFrame, HdlcFrameError>(e),
            },
    {
        let len = bytes.len();
        if len < 6 || bytes[0] != HDLC_FLAG || bytes[len - 1] != HDLC_FLAG {
            return Err(HdlcFrameError::InvalidFrame);
        }
        let body = match unstuff(vstd::slice::slice_subrange(bytes, 1, len - 1)) {
            Some(b) => b,
            None => {
                return Err(HdlcFrameError::InvalidFrame);
            },
        };
        let n = body.len();
        if n < 5 {
            return Err(HdlcFrameError::InvalidFrame);
        }
        let received = (body[n - 2] as u16) + (body[n - 1] as u16) * 0x100;
        let checked = vstd::slice::slice_subrange(body.as_slice(), 0, n - 2);
        let calculated = frame_check_sequence(checked);
        if received != calculated {
            return Err(HdlcFrameError::InvalidFcs);
        }
        let address = read_u16(body.as_slice(), 0);
        let control = body[2];
        let information = copy_bytes(vstd::slice::slice_subrange(body.as_slice(), 3, n - 2));
        Ok(HdlcFrame { address, control, information })
    }

    /// Reads a frame; both kinds of refusal are an HDLC error.
    pub fn from_bytes(bytes: &[u8]) -> (r: Result<Self, DlmsError>)
        ensures
            match parse_hdlc(bytes@) {
                Ok(m) => r matches Ok(v) && v@ == m,
                Err(_) => r == Err::<HdlcFrame, DlmsError>(DlmsError::Hdlc),
            },
    {
        match HdlcFrame::check_frame(bytes) {
            Ok(f) => Ok(f),
            Err(_) => Err(DlmsError::Hdlc),
        }
    }
}

} // verus!
