use vstd::prelude::*;

verus! {

/// A carrier that delivers whole frames: `receive` gives one complete unit.
pub trait Transport {
    type Error;

    fn send(&mut self, bytes: &[u8]) -> Result<(), Self::Error>;

    fn receive(&mut self) -> Result<Vec<u8>, Self::Error>;
}

/// The two-octet big-endian length that precedes a PDU on a length-prefixed
/// carrier, or `None` for a PDU longer than such a prefix can count.
pub open spec fn length_prefix(len: nat) -> Option<Seq<u8>> {
    if len <= 0xFFFF {
        Some(seq![(len / 0x100) as u8, (len % 0x100) as u8])
    } else {
        None
    }
}

/// The PDU with its length prefix, as a length-prefixed carrier sends it.
pub fn wrap_with_length(pdu: &[u8]) -> (r: Option<Vec<u8>>)
    ensures
        match length_prefix(pdu@.len()) {
            Some(p) => r matches Some(v) && v@ == p + pdu@,
            None => r is None,
        },
{
    if pdu.len() > 0xFFFF {
        return None;
    }
    let mut out: Vec<u8> = Vec::new();
    out.push((pdu.len() / 0x100) as u8);
    out.push((pdu.len() % 0x100) as u8);
    crate::axdr::append_bytes(&mut out, pdu);
    Some(out)
}

/// The PDU length that a two-octet prefix announces.
pub fn prefixed_length(prefix: &[u8; 2]) -> (r: usize)
    ensures
        r == prefix@[0] as nat * 0x100 + prefix@[1] as nat,
{
    prefix[0] as usize * 0x100 + prefix[1] as usize
}

/// The most bytes a frame may take on a stream carrier.
pub const MAX_PDU_SIZE: usize = 2048;

/// The assembler's state: the bytes of the frame begun so far, if any.
pub struct AssemblerState {
    pub in_frame: bool,
    pub buffer: Seq<u8>,
}

/// What one received byte does on a stream that carries HDLC frames.
/// Outside a frame, bytes other than the flag are dropped and a flag opens
/// a frame. Inside one, a flag closes it when at least one byte came after
/// the opening flag (the frame is then handed out, flags included); a flag
/// right after the opening one starts over outside a frame. A frame longer
/// than `MAX_PDU_SIZE` is an error.
pub open spec fn assembler_step(s: AssemblerState, byte: u8) -> Result<(AssemblerState, Option<Seq<u8>>), ()> {
    if byte == crate::hdlc::HDLC_FLAG {
        if s.in_frame {
            if s.buffer.len() >= 2 {
                if s.buffer.len() + 1 > MAX_PDU_SIZE {
                    Err(())
                } else {
                    Ok((AssemblerState { in_frame: false, buffer: Seq::empty() }, Some(s.buffer.push(byte))))
                }
            } else {
                Ok((AssemblerState { in_frame: false, buffer: Seq::empty() }, None))
            }
        } else {
            Ok((AssemblerState { in_frame: true, buffer: seq![byte] }, None))
        }
    } else if s.in_frame {
        if s.buffer.len() + 1 > MAX_PDU_SIZE {
            Err(())
        } else {
            Ok((AssemblerState { in_frame: true, buffer: s.buffer.push(byte) }, None))
        }
    } else {
        Ok((s, None))
    }
}

#[verifier::external_type_specification]
#[verifier::external_body]
#[verifier::reject_recursive_types(T)]
pub struct ExHeaplessVec<T, const N: usize>(heapless::Vec<T, N>);

/// The bytes that a frame buffer holds.
pub uninterp spec fn frame_buffer_contents(buffer: heapless::Vec<u8, 2048>) -> Seq<u8>;

/// Relies on `heapless::Vec::new`: a new vector is empty.
#[verifier::external_body]
fn frame_buffer_new() -> (r: heapless::Vec<u8, 2048>)
    ensures
        frame_buffer_contents(r) == Seq::<u8>::empty(),
{
    heapless::Vec::new()
}

/// Relies on `heapless::Vec::push`: the byte is appended while fewer than
/// the capacity are held; otherwise it is handed back and nothing changes.
#[verifier::external_body]
fn frame_buffer_push(buffer: &mut heapless::Vec<u8, 2048>, byte: u8) -> (r: Result<(), u8>)
    ensures
        frame_buffer_contents(*old(buffer)).len() < MAX_PDU_SIZE ==> (r is Ok && frame_buffer_contents(
            *final(buffer),
        ) == frame_buffer_contents(*old(buffer)).push(byte)),
        frame_buffer_contents(*old(buffer)).len() >= MAX_PDU_SIZE ==> (r == Err::<(), u8>(byte)
            && frame_buffer_contents(*final(buffer)) == frame_buffer_contents(*old(buffer))),
{
    buffer.push(byte)
}

/// Relies on `heapless::Vec::as_slice`: the bytes held, in order.
#[verifier::external_body]
fn frame_buffer_bytes(buffer: &heapless::Vec<u8, 2048>) -> (r: Vec<u8>)
    ensures
        r@ == frame_buffer_contents(*buffer),
{
    buffer.as_slice().to_vec()
}

/// The frame on the way in a byte stream.
#[derive(Debug)]
pub struct FrameAssembler {
    in_frame: bool,
    buffer: heapless::Vec<u8, 2048>,
}

/// The frame under way is longer than `MAX_PDU_SIZE`.
#[derive(Debug, Clone, Copy, PartialEq, Eq, Structural)]
pub struct FrameTooLong;

impl FrameAssembler {
    pub closed spec fn state(&self) -> AssemblerState {
        AssemblerState { in_frame: self.in_frame, buffer: frame_buffer_contents(self.buffer) }
    }

    pub fn new() -> (r: Self)
        ensures
            !r.state().in_frame,
            r.state().buffer.len() == 0,
    {
        FrameAssembler { in_frame: false, buffer: frame_buffer_new() }
    }

    /// Feeds one received byte; gives the frame that it completes, if any.
    pub fn push_byte(&mut self, byte: u8) -> (r: Result<Option<Vec<u8>>, FrameTooLong>)
        ensures
            match assembler_step(old(self).state(), byte) {
                Ok((next, out)) => r is Ok && final(self).state() == next && match out {
                    Some(f) => r matches Ok(Some(v)) && v@ == f,
                    None => r matches Ok(None),
                },
                Err(()) => r is Err,
            },
    {
        if byte == crate::hdlc::HDLC_FLAG {
            if self.in_frame {
                let held = frame_buffer_bytes(&self.buffer);
                self.buffer = frame_buffer_new();
                self.in_frame = false;
                if held.len() >= 2 {
                    if held.len() >= MAX_PDU_SIZE {
                        return Err(FrameTooLong);
                    }
                    let mut frame = held;
                    frame.push(byte);
                    Ok(Some(frame))
                } else {
                    Ok(None)
                }
            } else {
                let mut buffer = frame_buffer_new();
                let pushed = frame_buffer_push(&mut buffer, byte);
                self.buffer = buffer;
                self.in_frame = true;
                assert(Seq::<u8>::empty().push(byte) =~= seq![byte]);
                Ok(None)
            }
        } else if self.in_frame {
            match frame_buffer_push(&mut self.buffer, byte) {
                Ok(()) => Ok(None),
                Err(_) => Err(FrameTooLong),
            }
        } else {
            Ok(None)
        }
    }
}

} // verus!
