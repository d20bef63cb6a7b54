use dlms_cosem::hdlc::HdlcFrame;
use dlms_cosem::transport::{prefixed_length, wrap_with_length, FrameAssembler, MAX_PDU_SIZE};

fn feed(assembler: &mut FrameAssembler, bytes: &[u8]) -> Vec<Vec<u8>> {
    let mut frames = Vec::new();
    for b in bytes {
        if let Some(f) = assembler.push_byte(*b).unwrap() {
            frames.push(f);
        }
    }
    frames
}

#[test]
fn assembler_extracts_single_frame() {
    let frame = HdlcFrame { address: 0x0001, control: 0x10, information: vec![1, 2, 3] }
        .to_bytes()
        .unwrap();
    let mut stream = vec![0x00, 0x11];
    stream.extend_from_slice(&frame);
    let mut assembler = FrameAssembler::new();
    let frames = feed(&mut assembler, &stream);
    assert_eq!(frames, vec![frame]);
}

#[test]
fn assembler_handles_stuffed_frames() {
    let frame = HdlcFrame { address: 0x7E7D, control: 0x7E, information: vec![0x7E, 0x7D] }
        .to_bytes()
        .unwrap();
    let mut assembler = FrameAssembler::new();
    let frames = feed(&mut assembler, &frame);
    assert_eq!(frames.len(), 1);
    assert_eq!(HdlcFrame::from_bytes(&frames[0]).unwrap().information, vec![0x7E, 0x7D]);
}

#[test]
fn assembler_skips_empty_frames() {
    let mut assembler = FrameAssembler::new();
    let frames = feed(&mut assembler, &[0x7E, 0x7E, 0x7E, 0x05, 0x7E]);
    assert_eq!(frames, vec![vec![0x7E, 0x05, 0x7E]]);
}

#[test]
fn assembler_refuses_overlong_frames() {
    let mut assembler = FrameAssembler::new();
    assert!(assembler.push_byte(0x7E).unwrap().is_none());
    let mut failed = false;
    for _ in 0..MAX_PDU_SIZE + 1 {
        if assembler.push_byte(0x01).is_err() {
            failed = true;
            break;
        }
    }
    assert!(failed);
}

#[test]
fn length_prefix_round_trip() {
    let wrapped = wrap_with_length(b"hello world").unwrap();
    assert_eq!(&wrapped[..2], &[0x00, 0x0B]);
    assert_eq!(prefixed_length(&[wrapped[0], wrapped[1]]), 11);
    assert_eq!(&wrapped[2..], b"hello world");
    assert!(wrap_with_length(&vec![0u8; 0x1_0000]).is_none());
}
